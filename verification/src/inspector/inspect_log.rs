//! The buffer behind the log console: every message of the watched package is
//! kept once, with the number of times it came again.

use crate::text::{begins_with, decimal, decimal_string, starts_with};
use vstd::prelude::*;
use vstd::std_specs::cmp::PartialEqSpecImpl;
use vstd::string::StringExecFns;

verus! {

/// How serious a message is, the most serious first.
#[derive(Clone, Copy, Debug, PartialEq, Eq, Hash, Structural)]
pub enum LogLevel {
    Error,
    Warn,
    Info,
    Debug,
    Trace,
}

impl LogLevel {
    /// The place of a level among the levels, the most serious first.
    pub open spec fn rank(self) -> int {
        match self {
            LogLevel::Error => 1,
            LogLevel::Warn => 2,
            LogLevel::Info => 3,
            LogLevel::Debug => 4,
            LogLevel::Trace => 5,
        }
    }

    /// Whether a console that shows messages down to `filter` shows one of
    /// this level: it is at least as serious as the filter.
    pub open spec fn passes_filter(self, filter: LogLevel) -> bool {
        self.rank() <= filter.rank()
    }

    fn place(&self) -> (rank: u8)
        ensures
            rank == self.rank(),
    {
        match self {
            LogLevel::Error => 1,
            LogLevel::Warn => 2,
            LogLevel::Info => 3,
            LogLevel::Debug => 4,
            LogLevel::Trace => 5,
        }
    }

    /// Whether a console that shows messages down to `filter` shows one of
    /// this level.
    pub fn passes(&self, filter: LogLevel) -> (shown: bool)
        ensures
            shown == self.passes_filter(filter),
    {
        self.place() <= filter.place()
    }

    /// The filter of a new console: the least serious level that the
    /// logging lets through, and every level where it lets none through.
    pub fn initial_filter(max_level: Option<LogLevel>) -> (filter: LogLevel)
        ensures
            filter == match max_level {
                Some(level) => level,
                None => LogLevel::Trace,
            },
    {
        match max_level {
            Some(level) => level,
            None => LogLevel::Trace,
        }
    }
}

/// One message of the console.
#[derive(Debug, Hash)]
pub struct LogItem {
    pub level_log: LogLevel,
    pub module: String,
    pub file: String,
    pub line: String,
    pub details: String,
}

/// What a message holds, as plain text.
pub struct LogItemView {
    pub level_log: LogLevel,
    pub module: Seq<char>,
    pub file: Seq<char>,
    pub line: Seq<char>,
    pub details: Seq<char>,
}

impl View for LogItem {
    type V = LogItemView;

    open spec fn view(&self) -> LogItemView {
        LogItemView {
            level_log: self.level_log,
            module: self.module@,
            file: self.file@,
            line: self.line@,
            details: self.details@,
        }
    }
}

impl Clone for LogItem {
    fn clone(&self) -> (copy: Self)
        ensures
            copy@ == self@,
    {
        LogItem {
            level_log: self.level_log,
            module: self.module.clone(),
            file: self.file.clone(),
            line: self.line.clone(),
            details: self.details.clone(),
        }
    }
}

impl PartialEq for LogItem {
    fn eq(&self, other: &Self) -> (same: bool) {
        self.level_log == other.level_log && self.module == other.module && self.file
            == other.file && self.line == other.line && self.details == other.details
    }
}

impl PartialEqSpecImpl for LogItem {
    open spec fn obeys_eq_spec() -> bool {
        true
    }

    open spec fn eq_spec(&self, other: &Self) -> bool {
        self@ == other@
    }
}

impl Eq for LogItem {

}

/// The text of a part that a message may lack: empty where it lacks it.
pub open spec fn text_or_empty(part: Option<Seq<char>>) -> Seq<char> {
    match part {
        Some(text) => text,
        None => Seq::empty(),
    }
}

/// The line of a message as the console shows it: in decimal, and 0 where
/// the message names no line.
pub open spec fn line_text(line: Option<u32>) -> Seq<char> {
    match line {
        Some(n) => decimal(n as nat),
        None => decimal(0),
    }
}

/// The console's message for the parts of a logged one.
pub open spec fn item_of(
    level: LogLevel,
    module: Option<Seq<char>>,
    file: Option<Seq<char>>,
    line: Option<u32>,
    details: Seq<char>,
) -> LogItemView {
    LogItemView {
        level_log: level,
        module: text_or_empty(module),
        file: text_or_empty(file),
        line: line_text(line),
        details,
    }
}

/// Whether a message from `module` belongs to the package `prefix`: it
/// names its module, and the module's path begins with the package's name.
pub open spec fn from_package(module: Option<Seq<char>>, prefix: Seq<char>) -> bool {
    match module {
        Some(path) => begins_with(path, prefix),
        None => false,
    }
}

/// The highest number of repeats that is still counted up.
pub const REPEATS_COUNTED: u64 = 99;

/// The console's contents after one more message `item`: a new message
/// enters with no repeat, a known one gets one repeat more until it has
/// passed `REPEATS_COUNTED`.
pub open spec fn counted(logs: Map<LogItemView, u64>, item: LogItemView) -> Map<LogItemView, u64> {
    if logs.dom().contains(item) {
        if logs[item] <= REPEATS_COUNTED {
            logs.insert(item, (logs[item] + 1) as u64)
        } else {
            logs
        }
    } else {
        logs.insert(item, 0)
    }
}

/// The console's contents after a message with these parts was logged.
pub open spec fn logged(
    logs: Map<LogItemView, u64>,
    prefix: Seq<char>,
    level: LogLevel,
    module: Option<Seq<char>>,
    file: Option<Seq<char>>,
    line: Option<u32>,
    details: Seq<char>,
) -> Map<LogItemView, u64> {
    if from_package(module, prefix) {
        counted(logs, item_of(level, module, file, line, details))
    } else {
        logs
    }
}

/// The text of a part that may be missing.
pub open spec fn part_text(part: Option<&str>) -> Option<Seq<char>> {
    match part {
        Some(text) => Some(text@),
        None => None,
    }
}

fn owned_or_empty(part: Option<&str>) -> (text: String)
    ensures
        text@ == text_or_empty(part_text(part)),
{
    match part {
        Some(p) => String::from_str(p),
        None => String::new(),
    }
}

impl LogItem {
    /// The console's message for the parts of a logged one.
    pub fn new(
        level: LogLevel,
        module: Option<&str>,
        file: Option<&str>,
        line: Option<u32>,
        details: &str,
    ) -> (item: LogItem)
        ensures
            item@ == item_of(level, part_text(module), part_text(file), line, details@),
    {
        let number: u32 = match line {
            Some(n) => n,
            None => 0,
        };
        LogItem {
            level_log: level,
            module: owned_or_empty(module),
            file: owned_or_empty(file),
            line: decimal_string(number as u64),
            details: String::from_str(details),
        }
    }
}

/// The messages of one package, each kept once with the number of its
/// repeats.
pub struct Logs {
    prefix: String,
    items: Vec<LogItem>,
    repeats: Vec<u64>,
}

impl Logs {
    /// The messages in the order in which each came first.
    pub closed spec fn messages(&self) -> Seq<LogItemView> {
        self.items@.map_values(|item: LogItem| item@)
    }

    /// The name with which the module of a kept message begins.
    pub closed spec fn prefix(&self) -> Seq<char> {
        self.prefix@
    }

    /// Every message stands once, with its count.
    pub closed spec fn wf(&self) -> bool {
        &&& self.items.len() == self.repeats.len()
        &&& self.messages().no_duplicates()
    }

    /// The number of repeats of each message.
    pub closed spec fn view(&self) -> Map<LogItemView, u64> {
        Map::new(
            |item: LogItemView| self.messages().contains(item),
            |item: LogItemView| self.repeats@[self.messages().index_of(item)],
        )
    }

    /// A well-formed buffer holds finitely many messages.
    pub proof fn lemma_finite(&self)
        requires
            self.wf(),
        ensures
            self@.dom().finite(),
            self@.dom().len() == self.messages().len(),
    {
        let keys = self.messages();
        keys.unique_seq_to_set();
        assert(self@.dom() =~= keys.to_set());
    }

    /// An empty buffer for the messages of the package `prefix`.
    pub fn new(prefix: &str) -> (logs: Logs)
        ensures
            logs.wf(),
            logs.prefix() == prefix@,
            logs@ == Map::<LogItemView, u64>::empty(),
    {
        let logs = Logs { prefix: String::from_str(prefix), items: Vec::new(), repeats: Vec::new() };
        assert(logs@ =~= Map::<LogItemView, u64>::empty());
        logs
    }

    /// Forgets every message.
    pub fn clear(&mut self)
        requires
            old(self).wf(),
        ensures
            final(self).wf(),
            final(self).prefix() == old(self).prefix(),
            final(self)@ == Map::<LogItemView, u64>::empty(),
    {
        self.items.clear();
        self.repeats.clear();
        assert(self@ =~= Map::<LogItemView, u64>::empty());
    }

    /// The number of different messages.
    pub fn len(&self) -> (count: usize)
        requires
            self.wf(),
        ensures
            count == self@.dom().len(),
    {
        proof {
            self.lemma_finite();
        }
        self.items.len()
    }

    /// Every message with the number of its repeats, in the order in which
    /// each came first.
    pub fn get_logs(&self) -> (listed: Vec<(LogItem, u64)>)
        requires
            self.wf(),
        ensures
            listed.len() == self@.dom().len(),
            forall|i: int|
                0 <= i < listed.len() ==> self@.dom().contains(#[trigger] listed[i].0@)
                    && self@[listed[i].0@] == listed[i].1,
            forall|i: int, j: int|
                0 <= i < j < listed.len() ==> listed[i].0@ != listed[j].0@,
            listed@.map_values(|pair: (LogItem, u64)| pair.0@) == self.messages(),
    {
        proof {
            self.lemma_finite();
        }
        let mut listed: Vec<(LogItem, u64)> = Vec::new();
        let mut i: usize = 0;
        while i < self.items.len()
            invariant
                self.wf(),
                i <= self.items.len(),
                listed.len() == i,
                forall|k: int|
                    0 <= k < i ==> (#[trigger] listed[k]).0@ == self.items[k]@ && listed[k].1
                        == self.repeats[k],
            decreases self.items.len() - i,
        {
            listed.push((self.items[i].clone(), self.repeats[i]));
            i = i + 1;
        }
        proof {
            let keys = self.messages();
            assert(listed@.map_values(|pair: (LogItem, u64)| pair.0@) =~= keys);
            assert forall|k: int| 0 <= k < listed.len() implies self@.dom().contains(
                #[trigger] listed[k].0@,
            ) && self@[listed[k].0@] == listed[k].1 by {
                assert(keys[k] == listed[k].0@);
                assert(keys.contains(listed[k].0@));
                assert(keys.index_of(listed[k].0@) == k);
            }
            assert forall|a: int, b: int| 0 <= a < b < listed.len() implies listed[a].0@
                != listed[b].0@ by {
                assert(keys[a] == listed[a].0@ && keys[b] == listed[b].0@);
            }
        }
        listed
    }

    /// The messages that a console with this filter shows, each with the
    /// number of its repeats, in the order in which each came first.
    pub fn shown(&self, filter: LogLevel) -> (listed: Vec<(LogItem, u64)>)
        requires
            self.wf(),
        ensures
            listed@.map_values(|pair: (LogItem, u64)| pair.0@) == self.messages().filter(
                |item: LogItemView| item.level_log.passes_filter(filter),
            ),
            forall|i: int|
                0 <= i < listed.len() ==> self@.dom().contains(#[trigger] listed[i].0@)
                    && self@[listed[i].0@] == listed[i].1,
    {
        let ghost keys = self.messages();
        let ghost passing = |item: LogItemView| item.level_log.passes_filter(filter);
        let ghost views = |pair: (LogItem, u64)| pair.0@;
        let mut listed: Vec<(LogItem, u64)> = Vec::new();
        let mut i: usize = 0;
        assert(keys.take(0) =~= Seq::<LogItemView>::empty());
        assert(listed@.map_values(views) =~= keys.take(0).filter(passing));
        while i < self.items.len()
            invariant
                self.wf(),
                keys == self.messages(),
                passing == (|item: LogItemView| item.level_log.passes_filter(filter)),
                views == (|pair: (LogItem, u64)| pair.0@),
                i <= self.items.len(),
                listed@.map_values(views) == keys.take(i as int).filter(passing),
                forall|k: int|
                    0 <= k < listed.len() ==> self@.dom().contains(#[trigger] listed[k].0@)
                        && self@[listed[k].0@] == listed[k].1,
            decreases self.items.len() - i,
        {
            proof {
                let seen = keys.take(i as int);
                let next = keys[i as int];
                assert(keys.take(i + 1) =~= seen + seq![next]);
                Seq::filter_distributes_over_add(seen, seq![next], passing);
                reveal_with_fuel(Seq::filter, 2);
                assert(seq![next].filter(passing) =~= if passing(next) {
                    seq![next]
                } else {
                    Seq::empty()
                });
                assert(keys.contains(next));
                assert(keys.index_of(next) == i);
            }
            if self.items[i].level_log.passes(filter) {
                let ghost before = listed@;
                listed.push((self.items[i].clone(), self.repeats[i]));
                assert(listed@.map_values(views) =~= before.map_values(views).push(
                    keys[i as int],
                ));
            }
            i = i + 1;
        }
        assert(keys.take(keys.len() as int) =~= keys);
        listed
    }

    /// Whether a message from `module` is kept: it names its module, and the
    /// module's path begins with the package's name.
    pub fn accepts(&self, module: Option<&str>) -> (kept: bool)
        ensures
            kept == from_package(part_text(module), self.prefix()),
    {
        match module {
            Some(path) => starts_with(path, self.prefix.as_str()),
            None => false,
        }
    }

    /// Takes one more message in: a new one enters with no repeat, a known
    /// one gets one repeat more until it has passed `REPEATS_COUNTED`.
    pub fn count(&mut self, item: LogItem)
        requires
            old(self).wf(),
        ensures
            final(self).wf(),
            final(self).prefix() == old(self).prefix(),
            final(self)@ == counted(old(self)@, item@),
    {
        let ghost keys = self.messages();
        let mut i: usize = 0;
        while i < self.items.len()
            invariant
                self.wf(),
                *self == *old(self),
                keys == self.messages(),
                i <= self.items.len(),
                forall|k: int| 0 <= k < i ==> keys[k] != item@,
            decreases self.items.len() - i,
        {
            if self.items[i] == item {
                assert(keys[i as int] == item@);
                assert(keys.contains(item@));
                assert(keys.index_of(item@) == i);
                let seen: u64 = self.repeats[i];
                if seen <= REPEATS_COUNTED {
                    self.repeats.set(i, seen + 1);
                    assert(self.messages() == keys);
                    assert(self@ =~= counted(old(self)@, item@)) by {
                        assert forall|k: LogItemView| keys.contains(k) implies #[trigger] self@[k]
                            == counted(old(self)@, item@)[k] by {
                            if k != item@ {
                                assert(keys.index_of(k) != i);
                            }
                        }
                    }
                }
                return ;
            }
            i = i + 1;
        }
        assert(!keys.contains(item@));
        let ghost added = item@;
        self.items.push(item);
        self.repeats.push(0);
        proof {
            assert(self.messages() =~= keys.push(added));
            assert(self.messages().no_duplicates());
            assert(self@ =~= counted(old(self)@, added)) by {
                let now = self.messages();
                assert forall|k: LogItemView| now.contains(k) <==> (keys.contains(k) || k
                    == added) by {
                    if keys.contains(k) {
                        let at = keys.index_of(k);
                        assert(now[at] == k);
                    }
                    if k == added {
                        assert(now[keys.len() as int] == k);
                    }
                }
                assert forall|k: LogItemView| now.contains(k) implies #[trigger] self@[k]
                    == counted(old(self)@, added)[k] by {
                    let at = now.index_of(k);
                    if k == added {
                        assert(now[keys.len() as int] == k);
                        assert(at == keys.len());
                    } else {
                        assert(keys.contains(k));
                        assert(at < keys.len());
                        assert(keys[at] == k);
                        assert(keys.index_of(k) == at);
                    }
                }
            }
        }
    }

    /// Logs a message with these parts: one from another package is passed
    /// over, one of the watched package is counted.
    pub fn log(
        &mut self,
        level: LogLevel,
        module: Option<&str>,
        file: Option<&str>,
        line: Option<u32>,
        details: &str,
    )
        requires
            old(self).wf(),
        ensures
            final(self).wf(),
            final(self).prefix() == old(self).prefix(),
            final(self)@ == logged(
                old(self)@,
                old(self).prefix(),
                level,
                part_text(module),
                part_text(file),
                line,
                details@,
            ),
    {
        if !self.accepts(module) {
            return ;
        }
        self.count(LogItem::new(level, module, file, line, details));
    }
}

impl Default for Logs {
    /// An empty buffer that keeps the messages of every module.
    fn default() -> (logs: Logs)
        ensures
            logs.wf(),
            logs.prefix() == Seq::<char>::empty(),
            logs@ == Map::<LogItemView, u64>::empty(),
    {
        let logs = Logs { prefix: String::new(), items: Vec::new(), repeats: Vec::new() };
        assert(logs@ =~= Map::<LogItemView, u64>::empty());
        logs
    }
}

} // verus!

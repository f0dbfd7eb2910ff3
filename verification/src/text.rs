//! Small operations on text that the panels share: prefixes, the order of
//! names, and numbers written in decimal.

use vstd::prelude::*;
use vstd::std_specs::iter::IteratorSpec;
use vstd::string::StringExecFns;

verus! {

/// The character that stands for a digit below ten.
pub open spec fn digit_char(d: nat) -> char {
    if d == 0 {
        '0'
    } else if d == 1 {
        '1'
    } else if d == 2 {
        '2'
    } else if d == 3 {
        '3'
    } else if d == 4 {
        '4'
    } else if d == 5 {
        '5'
    } else if d == 6 {
        '6'
    } else if d == 7 {
        '7'
    } else if d == 8 {
        '8'
    } else {
        '9'
    }
}

/// A number written in decimal, without sign or leading zeros.
pub open spec fn decimal(n: nat) -> Seq<char>
    decreases n,
{
    if n < 10 {
        seq![digit_char(n)]
    } else {
        decimal(n / 10).push(digit_char(n % 10))
    }
}

/// Whether `text` begins with `prefix`, character by character.
pub open spec fn begins_with(text: Seq<char>, prefix: Seq<char>) -> bool {
    prefix.is_prefix_of(text)
}

/// Whether `a` stands before `b` in the order of names: at the first place
/// where they differ the character of `a` has the lower code, or `a` ends
/// there and `b` goes on.
pub open spec fn name_before(a: Seq<char>, b: Seq<char>) -> bool
    decreases a.len(),
{
    if b.len() == 0 {
        false
    } else if a.len() == 0 {
        true
    } else if a[0] != b[0] {
        (a[0] as int) < (b[0] as int)
    } else {
        name_before(a.drop_first(), b.drop_first())
    }
}

fn digit_text(d: u64) -> (text: &'static str)
    requires
        d < 10,
    ensures
        text@ == seq![digit_char(d as nat)],
{
    proof {
        reveal_strlit("0");
        reveal_strlit("1");
        reveal_strlit("2");
        reveal_strlit("3");
        reveal_strlit("4");
        reveal_strlit("5");
        reveal_strlit("6");
        reveal_strlit("7");
        reveal_strlit("8");
        reveal_strlit("9");
    }
    let text = if d == 0 {
        "0"
    } else if d == 1 {
        "1"
    } else if d == 2 {
        "2"
    } else if d == 3 {
        "3"
    } else if d == 4 {
        "4"
    } else if d == 5 {
        "5"
    } else if d == 6 {
        "6"
    } else if d == 7 {
        "7"
    } else if d == 8 {
        "8"
    } else {
        "9"
    };
    assert(text@ =~= seq![digit_char(d as nat)]);
    text
}

/// Writes a number in decimal.
pub fn decimal_string(n: u64) -> (text: String)
    ensures
        text@ == decimal(n as nat),
    decreases n,
{
    if n < 10 {
        String::from_str(digit_text(n))
    } else {
        let mut text = decimal_string(n / 10);
        text.append(digit_text(n % 10));
        assert(text@ =~= decimal(n as nat));
        text
    }
}

/// Whether `text` begins with `prefix`.
pub fn starts_with(text: &str, prefix: &str) -> (found: bool)
    ensures
        found == begins_with(text@, prefix@),
{
    let mut rest = text.chars();
    let mut wanted = prefix.chars();
    let ghost mut done: int = 0;
    loop
        invariant
            0 <= done <= text@.len(),
            done <= prefix@.len(),
            rest.remaining() == text@.skip(done),
            wanted.remaining() == prefix@.skip(done),
            text@.take(done) == prefix@.take(done),
        decreases prefix@.len() - done,
    {
        match wanted.next() {
            None => {
                assert(prefix@ =~= prefix@.take(done));
                assert(text@.take(done) =~= text@.subrange(0, prefix@.len() as int));
                return true;
            },
            Some(w) => {
                match rest.next() {
                    None => {
                        return false;
                    },
                    Some(r) => {
                        if r != w {
                            assert(text@[done] != prefix@[done]);
                            return false;
                        }
                        proof {
                            assert(text@.take(done + 1) =~= text@.take(done).push(text@[done]));
                            assert(prefix@.take(done + 1) =~= prefix@.take(done).push(
                                prefix@[done],
                            ));
                            assert(text@.skip(done).drop_first() =~= text@.skip(done + 1));
                            assert(prefix@.skip(done).drop_first() =~= prefix@.skip(done + 1));
                            done = done + 1;
                        }
                    },
                }
            },
        }
    }
}

/// Whether `a` stands before `b` in the order of names.
pub fn comes_before(a: &str, b: &str) -> (before: bool)
    ensures
        before == name_before(a@, b@),
{
    let mut left = a.chars();
    let mut right = b.chars();
    let ghost mut done: int = 0;
    loop
        invariant
            0 <= done <= a@.len(),
            done <= b@.len(),
            left.remaining() == a@.skip(done),
            right.remaining() == b@.skip(done),
            name_before(a@, b@) == name_before(a@.skip(done), b@.skip(done)),
        decreases b@.len() - done,
    {
        match right.next() {
            None => {
                return false;
            },
            Some(r) => {
                match left.next() {
                    None => {
                        return true;
                    },
                    Some(l) => {
                        if l != r {
                            assert(a@.skip(done)[0] == l && b@.skip(done)[0] == r);
                            return l < r;
                        }
                        proof {
                            assert(a@.skip(done).drop_first() =~= a@.skip(done + 1));
                            assert(b@.skip(done).drop_first() =~= b@.skip(done + 1));
                            done = done + 1;
                        }
                    },
                }
            },
        }
    }
}

/// No name stands before itself.
pub proof fn lemma_name_before_irreflexive(a: Seq<char>)
    ensures
        !name_before(a, a),
    decreases a.len(),
{
    if a.len() > 0 {
        lemma_name_before_irreflexive(a.drop_first());
    }
}

/// Of two different names one stands before the other.
pub proof fn lemma_name_before_total(a: Seq<char>, b: Seq<char>)
    ensures
        a == b || name_before(a, b) || name_before(b, a),
    decreases a.len(),
{
    if a.len() == 0 || b.len() == 0 {
        if a.len() == 0 && b.len() == 0 {
            assert(a =~= b);
        }
    } else if a[0] != b[0] {
        assert((a[0] as int) != (b[0] as int));
    } else {
        lemma_name_before_total(a.drop_first(), b.drop_first());
        if a.drop_first() == b.drop_first() {
            assert(a =~= seq![a[0]] + a.drop_first());
            assert(b =~= seq![b[0]] + b.drop_first());
        }
    }
}

/// Two names never stand before each other.
pub proof fn lemma_name_before_asymmetric(a: Seq<char>, b: Seq<char>)
    requires
        name_before(a, b),
    ensures
        !name_before(b, a),
    decreases a.len(),
{
    if a.len() > 0 && b.len() > 0 && a[0] == b[0] {
        lemma_name_before_asymmetric(a.drop_first(), b.drop_first());
    }
}

/// The order of names is transitive.
pub proof fn lemma_name_before_transitive(a: Seq<char>, b: Seq<char>, c: Seq<char>)
    requires
        name_before(a, b),
        name_before(b, c),
    ensures
        name_before(a, c),
    decreases a.len(),
{
    if a.len() > 0 && b.len() > 0 && c.len() > 0 {
        if a[0] == b[0] && b[0] == c[0] {
            lemma_name_before_transitive(a.drop_first(), b.drop_first(), c.drop_first());
        }
    }
}

/// The names that a list of strings holds.
pub open spec fn names_of(strings: Seq<String>) -> Seq<Seq<char>> {
    strings.map_values(|s: String| s@)
}

/// Whether the name at place `i` is listed before the one at place `j`: the
/// lower name first, and of two equal names the one that came first.
pub open spec fn listed_before(names: Seq<Seq<char>>, i: int, j: int) -> bool {
    name_before(names[i], names[j]) || (names[i] == names[j] && i < j)
}

/// Whether `order` holds every place of `names` once, each before all that
/// are listed after it.
pub open spec fn is_name_order(names: Seq<Seq<char>>, order: Seq<usize>) -> bool {
    &&& order.len() == names.len()
    &&& forall|k: int| 0 <= k < order.len() ==> (#[trigger] order[k]) < names.len()
    &&& forall|j: usize| j < names.len() ==> order.contains(j)
    &&& forall|a: int, b: int|
        0 <= a < b < order.len() ==> listed_before(names, order[a] as int, order[b] as int)
}

/// Listing before is transitive.
pub proof fn lemma_listed_before_transitive(names: Seq<Seq<char>>, i: int, j: int, k: int)
    requires
        listed_before(names, i, j),
        listed_before(names, j, k),
    ensures
        listed_before(names, i, k),
{
    if name_before(names[i], names[j]) && name_before(names[j], names[k]) {
        lemma_name_before_transitive(names[i], names[j], names[k]);
    }
}

/// The places of `names` in the order in which a list shows them: sorted by
/// name, equal names in the order in which they came.
pub fn order_by_name(names: &Vec<String>) -> (order: Vec<usize>)
    ensures
        is_name_order(names_of(names@), order@),
{
    let ghost all = names_of(names@);
    let mut order: Vec<usize> = Vec::new();
    let mut i: usize = 0;
    while i < names.len()
        invariant
            all == names_of(names@),
            i <= names.len(),
            order.len() == i,
            forall|k: int| 0 <= k < order.len() ==> (#[trigger] order[k]) < i,
            forall|j: usize| j < i ==> order@.contains(j),
            forall|a: int, b: int|
                0 <= a < b < order.len() ==> listed_before(all, order[a] as int, order[b] as int),
        decreases names.len() - i,
    {
        let mut p: usize = i;
        while p > 0 && comes_before(names[i].as_str(), names[order[p - 1]].as_str())
            invariant
                all == names_of(names@),
                i < names.len(),
                p <= i,
                order.len() == i,
                forall|k: int| 0 <= k < order.len() ==> (#[trigger] order[k]) < i,
                forall|k: int|
                    p <= k < order.len() ==> name_before(all[i as int], all[order[k] as int]),
            decreases p,
        {
            p = p - 1;
        }
        let ghost before = order@;
        order.insert(p, i);
        proof {
            assert(order@[p as int] == i);
            assert forall|a: int, b: int| 0 <= a < b < order.len() implies listed_before(
                all,
                order[a] as int,
                order[b] as int,
            ) by {
                if b < p {
                    assert(order[a] == before[a] && order[b] == before[b]);
                } else if b == p {
                    assert(order[a] == before[a]);
                    let last = before[p - 1] as int;
                    lemma_name_before_total(all[i as int], all[last]);
                    assert(listed_before(all, last, i as int));
                    if a < p - 1 {
                        assert(listed_before(all, before[a] as int, last));
                        lemma_listed_before_transitive(all, before[a] as int, last, i as int);
                    }
                } else if a < p {
                    assert(order[a] == before[a] && order[b] == before[b - 1]);
                } else if a == p {
                    assert(order[b] == before[b - 1]);
                } else {
                    assert(order[a] == before[a - 1] && order[b] == before[b - 1]);
                }
            }
            assert forall|j: usize| j < i + 1 implies order@.contains(j) by {
                if j == i {
                    assert(order@[p as int] == j);
                } else {
                    assert(before.contains(j));
                    let at = choose|at: int| 0 <= at < before.len() && before[at] == j;
                    if at < p {
                        assert(order@[at] == j);
                    } else {
                        assert(order@[at + 1] == j);
                    }
                }
            }
            assert forall|k: int| 0 <= k < order.len() implies (#[trigger] order[k]) < i + 1 by {
                if k < p {
                    assert(order[k] == before[k]);
                } else if k > p {
                    assert(order[k] == before[k - 1]);
                }
            }
        }
        i = i + 1;
    }
    order
}

/// No two places are listed before each other, and none before itself.
pub proof fn lemma_listed_before_asymmetric(names: Seq<Seq<char>>, i: int, j: int)
    requires
        listed_before(names, i, j),
    ensures
        !listed_before(names, j, i),
        i != j,
{
    lemma_name_before_irreflexive(names[i]);
    if name_before(names[i], names[j]) {
        lemma_name_before_asymmetric(names[i], names[j]);
    }
}

proof fn lemma_name_order_agrees(
    names: Seq<Seq<char>>,
    first: Seq<usize>,
    second: Seq<usize>,
    upto: int,
)
    requires
        is_name_order(names, first),
        is_name_order(names, second),
        0 <= upto <= names.len(),
    ensures
        forall|k: int| 0 <= k < upto ==> first[k] == second[k],
    decreases upto,
{
    if upto > 0 {
        lemma_name_order_agrees(names, first, second, upto - 1);
        let k = upto - 1;
        let x = first[k];
        let y = second[k];
        if x != y {
            assert(second.contains(x));
            let q = choose|q: int| 0 <= q < second.len() && second[q] == x;
            assert(first.contains(y));
            let r = choose|r: int| 0 <= r < first.len() && first[r] == y;
            if q < k {
                assert(first[q] == x);
                lemma_listed_before_asymmetric(names, first[q] as int, first[k] as int);
            } else if r < k {
                assert(second[r] == y);
                lemma_listed_before_asymmetric(names, second[r] as int, second[k] as int);
            } else {
                assert(listed_before(names, second[k] as int, second[q] as int));
                assert(listed_before(names, first[k] as int, first[r] as int));
                lemma_listed_before_asymmetric(names, x as int, y as int);
            }
        }
    }
}

/// A list of names has one order only: two orders of the same names are equal.
pub proof fn lemma_name_order_unique(names: Seq<Seq<char>>, first: Seq<usize>, second: Seq<usize>)
    requires
        is_name_order(names, first),
        is_name_order(names, second),
    ensures
        first == second,
{
    lemma_name_order_agrees(names, first, second, names.len() as int);
    assert(first =~= second);
}

} // verus!

//! The tools above the views: which way the gizmo of the selected entity
//! works, in which frame, and whether it snaps.

use vstd::prelude::*;

verus! {

/// What dragging the gizmo changes.
#[derive(Clone, Copy, Debug, PartialEq, Eq, Hash, Structural)]
pub enum GizmoMode {
    Rotate,
    Translate,
    Scale,
}

/// The frame along whose axes the gizmo lies.
#[derive(Clone, Copy, Debug, PartialEq, Eq, Hash, Structural)]
pub enum GizmoOrientation {
    Global,
    Local,
}

impl GizmoMode {
    /// The letter on the mode's button.
    pub open spec fn label_text(self) -> Seq<char> {
        match self {
            GizmoMode::Translate => "T"@,
            GizmoMode::Rotate => "R"@,
            GizmoMode::Scale => "S"@,
        }
    }

    /// The key that picks the mode.
    pub open spec fn shortcut_key(self) -> char {
        match self {
            GizmoMode::Translate => 'E',
            GizmoMode::Rotate => 'R',
            GizmoMode::Scale => 'T',
        }
    }

    /// The letter on the mode's button.
    pub fn label(&self) -> (text: &'static str)
        ensures
            text@ == self.label_text(),
    {
        match self {
            GizmoMode::Translate => "T",
            GizmoMode::Rotate => "R",
            GizmoMode::Scale => "S",
        }
    }

    /// The key that picks the mode.
    pub fn shortcut(&self) -> (key: char)
        ensures
            key == self.shortcut_key(),
    {
        match self {
            GizmoMode::Translate => 'E',
            GizmoMode::Rotate => 'R',
            GizmoMode::Scale => 'T',
        }
    }

    /// The modes in the order of their buttons.
    pub fn buttons() -> (modes: Vec<GizmoMode>)
        ensures
            modes@ == seq![GizmoMode::Translate, GizmoMode::Rotate, GizmoMode::Scale],
    {
        vec![GizmoMode::Translate, GizmoMode::Rotate, GizmoMode::Scale]
    }
}

impl GizmoOrientation {
    /// The letter on the orientation's button.
    pub open spec fn label_text(self) -> Seq<char> {
        match self {
            GizmoOrientation::Global => "G"@,
            GizmoOrientation::Local => "L"@,
        }
    }

    /// The key that picks the orientation.
    pub open spec fn shortcut_key(self) -> char {
        match self {
            GizmoOrientation::Global => 'G',
            GizmoOrientation::Local => 'L',
        }
    }

    /// The letter on the orientation's button.
    pub fn label(&self) -> (text: &'static str)
        ensures
            text@ == self.label_text(),
    {
        match self {
            GizmoOrientation::Global => "G",
            GizmoOrientation::Local => "L",
        }
    }

    /// The key that picks the orientation.
    pub fn shortcut(&self) -> (key: char)
        ensures
            key == self.shortcut_key(),
    {
        match self {
            GizmoOrientation::Global => 'G',
            GizmoOrientation::Local => 'L',
        }
    }

    /// The orientations in the order of their buttons.
    pub fn buttons() -> (orientations: Vec<GizmoOrientation>)
        ensures
            orientations@ == seq![GizmoOrientation::Global, GizmoOrientation::Local],
    {
        vec![GizmoOrientation::Global, GizmoOrientation::Local]
    }
}

/// The keys that pick different modes differ, and so do those of the
/// orientations: no key stands for two buttons of one group.
pub proof fn lemma_shortcuts_differ(a: GizmoMode, b: GizmoMode, c: GizmoOrientation, d: GizmoOrientation)
    ensures
        a != b ==> a.shortcut_key() != b.shortcut_key(),
        c != d ==> c.shortcut_key() != d.shortcut_key(),
{
}

/// What the tools are set to.
#[derive(Clone, Copy, Debug, PartialEq, Eq, Structural)]
pub struct GizmoTools {
    pub mode: GizmoMode,
    pub orientation: GizmoOrientation,
    pub snap: bool,
}

/// What the user did in the row of tools.
#[derive(Clone, Copy, Debug, PartialEq, Eq, Structural)]
pub enum ToolEvent {
    /// A mode was picked, by its button or its key.
    Mode(GizmoMode),
    /// An orientation was picked, by its button or its key.
    Orientation(GizmoOrientation),
    /// The snap button was clicked.
    SnapClicked,
}

/// The tools after an event: a picked mode or orientation is taken over,
/// a click on the snap button turns snapping on or off.
pub open spec fn tools_after(tools: GizmoTools, event: ToolEvent) -> GizmoTools {
    match event {
        ToolEvent::Mode(mode) => GizmoTools { mode, ..tools },
        ToolEvent::Orientation(orientation) => GizmoTools { orientation, ..tools },
        ToolEvent::SnapClicked => GizmoTools { snap: !tools.snap, ..tools },
    }
}

impl Default for GizmoTools {
    /// The tools of a new editor: moving, in the entity's own frame, without
    /// snapping.
    fn default() -> (tools: GizmoTools)
        ensures
            tools == (GizmoTools {
                mode: GizmoMode::Translate,
                orientation: GizmoOrientation::Local,
                snap: false,
            }),
    {
        GizmoTools { mode: GizmoMode::Translate, orientation: GizmoOrientation::Local, snap: false }
    }
}

/// Applies what the user did in the row of tools.
pub fn tools_menu(tools: &mut GizmoTools, event: ToolEvent)
    ensures
        *final(tools) == tools_after(*old(tools), event),
{
    match event {
        ToolEvent::Mode(mode) => {
            tools.mode = mode;
        },
        ToolEvent::Orientation(orientation) => {
            tools.orientation = orientation;
        },
        ToolEvent::SnapClicked => {
            tools.snap = !tools.snap;
        },
    }
}

/// Clicking the snap button twice leaves the tools as they were.
pub proof fn lemma_snap_twice(tools: GizmoTools)
    ensures
        tools_after(tools_after(tools, ToolEvent::SnapClicked), ToolEvent::SnapClicked) == tools,
{
}

/// The entity that carries the gizmo: the selected one where exactly one is
/// selected.
pub open spec fn gizmo_entity(selected: Seq<u64>) -> Option<u64> {
    if selected.len() == 1 {
        Some(selected[0])
    } else {
        None
    }
}

/// The entity on which the gizmo is drawn, if any.
pub fn draw_gizmo(selected_entities: &[u64]) -> (target: Option<u64>)
    ensures
        target == gizmo_entity(selected_entities@),
{
    if selected_entities.len() != 1 {
        return None;
    }
    Some(selected_entities[0])
}

} // verus!

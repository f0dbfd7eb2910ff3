//! The kinds of panel, what each of them asks of the dock, and how the
//! panels lie when the editor starts.

use crate::inspector::ui::select::InspectorSelection;
use vstd::prelude::*;

verus! {

/// A panel that can be docked in the editor window.
#[derive(Clone, Copy, Debug, PartialEq, Eq, Hash, Structural)]
pub enum EguiWindow {
    SceneView,
    GameView,
    Hierarchy,
    Resources,
    RuntimeAssets,
    Assets,
    Inspector,
    Console,
}

impl EguiWindow {
    /// The text on the panel's tab: the name of the kind.
    pub open spec fn title_text(self) -> Seq<char> {
        match self {
            EguiWindow::SceneView => "SceneView"@,
            EguiWindow::GameView => "GameView"@,
            EguiWindow::Hierarchy => "Hierarchy"@,
            EguiWindow::Resources => "Resources"@,
            EguiWindow::RuntimeAssets => "RuntimeAssets"@,
            EguiWindow::Assets => "Assets"@,
            EguiWindow::Inspector => "Inspector"@,
            EguiWindow::Console => "Console"@,
        }
    }

    /// Whether the panel shows a rendered view of the world.
    pub open spec fn is_view(self) -> bool {
        self is SceneView || self is GameView
    }

    /// The text on the panel's tab.
    pub fn title(&self) -> (text: &'static str)
        ensures
            text@ == self.title_text(),
    {
        match self {
            EguiWindow::SceneView => "SceneView",
            EguiWindow::GameView => "GameView",
            EguiWindow::Hierarchy => "Hierarchy",
            EguiWindow::Resources => "Resources",
            EguiWindow::RuntimeAssets => "RuntimeAssets",
            EguiWindow::Assets => "Assets",
            EguiWindow::Inspector => "Inspector",
            EguiWindow::Console => "Console",
        }
    }

    /// Whether the dock paints a background behind the panel. The two views
    /// are drawn over the rendered image and get none.
    pub fn clear_background(&self) -> (clear: bool)
        ensures
            clear == !self.is_view(),
    {
        !matches!(self, EguiWindow::SceneView | EguiWindow::GameView)
    }
}

/// The panels in the order of the window menu.
pub open spec fn menu_order() -> Seq<EguiWindow> {
    seq![
        EguiWindow::SceneView,
        EguiWindow::GameView,
        EguiWindow::Hierarchy,
        EguiWindow::Inspector,
        EguiWindow::RuntimeAssets,
        EguiWindow::Resources,
        EguiWindow::Assets,
        EguiWindow::Console,
    ]
}

/// The entries of the window menu: every kind of panel once.
pub fn window_menu() -> (entries: Vec<EguiWindow>)
    ensures
        entries@ == menu_order(),
        entries@.no_duplicates(),
        forall|window: EguiWindow| entries@.contains(window),
{
    let entries = vec![
        EguiWindow::SceneView,
        EguiWindow::GameView,
        EguiWindow::Hierarchy,
        EguiWindow::Inspector,
        EguiWindow::RuntimeAssets,
        EguiWindow::Resources,
        EguiWindow::Assets,
        EguiWindow::Console,
    ];
    assert(entries@ =~= menu_order());
    proof {
        lemma_menu_holds_all();
    }
    entries
}

/// The window menu holds every kind of panel, and none twice.
pub proof fn lemma_menu_holds_all()
    ensures
        menu_order().no_duplicates(),
        forall|window: EguiWindow| menu_order().contains(window),
{
    let order = menu_order();
    assert forall|window: EguiWindow| order.contains(window) by {
        match window {
            EguiWindow::SceneView => assert(order[0] == window),
            EguiWindow::GameView => assert(order[1] == window),
            EguiWindow::Hierarchy => assert(order[2] == window),
            EguiWindow::Inspector => assert(order[3] == window),
            EguiWindow::RuntimeAssets => assert(order[4] == window),
            EguiWindow::Resources => assert(order[5] == window),
            EguiWindow::Assets => assert(order[6] == window),
            EguiWindow::Console => assert(order[7] == window),
        }
    }
}

/// The side of the views on which a group of panels is docked.
#[derive(Clone, Copy, Debug, PartialEq, Eq, Hash, Structural)]
pub enum Side {
    Left,
    Right,
    Above,
    Below,
}

/// A group of panels that is cut off from the area of the views.
#[derive(Debug)]
pub struct SidePanels {
    /// Where the group lies as seen from the views.
    pub side: Side,
    /// The share of the left or upper of the two parts, in hundredths of
    /// the area that is cut.
    pub fraction_percent: u8,
    /// The panels of the group, the first in front.
    pub tabs: Vec<EguiWindow>,
}

/// How the panels lie: the views in the middle, and the groups cut off from
/// them one after the other, each from what the cuts before it left.
#[derive(Debug)]
pub struct DockLayout {
    pub views: Vec<EguiWindow>,
    pub sides: Vec<SidePanels>,
}

impl DockLayout {
    /// All panels of the layout: the views, then the groups in the order of
    /// the cuts.
    pub open spec fn panels(self) -> Seq<EguiWindow> {
        self.views@ + self.sides@.map_values(|group: SidePanels| group.tabs@).flatten()
    }
}

/// The layout of a new editor.
pub open spec fn starting_layout(layout: DockLayout) -> bool {
    &&& layout.views@ == seq![EguiWindow::SceneView, EguiWindow::GameView]
    &&& layout.sides.len() == 3
    &&& layout.sides[0].side == Side::Right
    &&& layout.sides[0].fraction_percent == 75
    &&& layout.sides[0].tabs@ == seq![EguiWindow::Inspector]
    &&& layout.sides[1].side == Side::Left
    &&& layout.sides[1].fraction_percent == 20
    &&& layout.sides[1].tabs@ == seq![EguiWindow::Hierarchy, EguiWindow::RuntimeAssets]
    &&& layout.sides[2].side == Side::Below
    &&& layout.sides[2].fraction_percent == 80
    &&& layout.sides[2].tabs@ == seq![
        EguiWindow::Resources,
        EguiWindow::Assets,
        EguiWindow::Console,
    ]
}

/// A new editor shows every kind of panel once.
pub proof fn lemma_starting_layout_holds_all(layout: DockLayout)
    requires
        starting_layout(layout),
    ensures
        layout.panels().no_duplicates(),
        forall|window: EguiWindow| layout.panels().contains(window),
{
    let groups = layout.sides@.map_values(|group: SidePanels| group.tabs@);
    assert(groups =~= seq![layout.sides[0].tabs@, layout.sides[1].tabs@, layout.sides[2].tabs@]);
    reveal_with_fuel(Seq::flatten, 4);
    assert(groups.drop_first() =~= seq![layout.sides[1].tabs@, layout.sides[2].tabs@]);
    assert(groups.drop_first().drop_first() =~= seq![layout.sides[2].tabs@]);
    assert(groups.drop_first().drop_first().drop_first() =~= Seq::<Seq<EguiWindow>>::empty());
    let panels = layout.panels();
    assert(panels =~= seq![
        EguiWindow::SceneView,
        EguiWindow::GameView,
        EguiWindow::Inspector,
        EguiWindow::Hierarchy,
        EguiWindow::RuntimeAssets,
        EguiWindow::Resources,
        EguiWindow::Assets,
        EguiWindow::Console,
    ]);
    assert forall|window: EguiWindow| panels.contains(window) by {
        match window {
            EguiWindow::SceneView => assert(panels[0] == window),
            EguiWindow::GameView => assert(panels[1] == window),
            EguiWindow::Inspector => assert(panels[2] == window),
            EguiWindow::Hierarchy => assert(panels[3] == window),
            EguiWindow::RuntimeAssets => assert(panels[4] == window),
            EguiWindow::Resources => assert(panels[5] == window),
            EguiWindow::Assets => assert(panels[6] == window),
            EguiWindow::Console => assert(panels[7] == window),
        }
    }
}

/// The layout of a new editor: the two views in the middle, the inspector on
/// the right quarter, the hierarchy and the assets at run time on the left
/// fifth of the rest, and resources, asset files and console below.
pub fn default_layout() -> (layout: DockLayout)
    ensures
        starting_layout(layout),
{
    let mut sides: Vec<SidePanels> = Vec::new();
    sides.push(SidePanels { side: Side::Right, fraction_percent: 75, tabs: vec![EguiWindow::Inspector] });
    sides.push(
        SidePanels {
            side: Side::Left,
            fraction_percent: 20,
            tabs: vec![EguiWindow::Hierarchy, EguiWindow::RuntimeAssets],
        },
    );
    sides.push(
        SidePanels {
            side: Side::Below,
            fraction_percent: 80,
            tabs: vec![EguiWindow::Resources, EguiWindow::Assets, EguiWindow::Console],
        },
    );
    let layout = DockLayout { views: vec![EguiWindow::SceneView, EguiWindow::GameView], sides };
    assert(layout.views@ =~= seq![EguiWindow::SceneView, EguiWindow::GameView]);
    assert(layout.sides[0].tabs@ =~= seq![EguiWindow::Inspector]);
    assert(layout.sides[1].tabs@ =~= seq![EguiWindow::Hierarchy, EguiWindow::RuntimeAssets]);
    assert(layout.sides[2].tabs@ =~= seq![
        EguiWindow::Resources,
        EguiWindow::Assets,
        EguiWindow::Console,
    ]);
    layout
}

/// The height of the strip of tabs above a view, in points.
pub const TAB_STRIP: u32 = 32;

/// The size of the image that a view renders into, for a panel of this
/// width and height: the panel without its strip of tabs.
pub fn render_size(width: u32, height: u32) -> (size: (u32, u32))
    requires
        height >= TAB_STRIP,
    ensures
        size.0 == width,
        size.1 == height - TAB_STRIP,
{
    (width, height - TAB_STRIP)
}

/// What the inspector panel draws.
#[derive(Clone, Copy, Debug, PartialEq, Eq, Structural)]
pub enum InspectorContent {
    /// Nothing: entities are shown and none is selected.
    Empty,
    /// The one selected entity with its children.
    Entity(u64),
    /// The components that the selected entities share.
    SharedComponents,
    /// The selected resource under its name.
    Resource,
    /// The selected asset under the name of its type.
    Asset,
}

/// What the inspector panel draws for a selection.
pub open spec fn content_of(selection: InspectorSelection, selected: Seq<u64>) -> InspectorContent {
    match selection {
        InspectorSelection::Entities => if selected.len() == 0 {
            InspectorContent::Empty
        } else if selected.len() == 1 {
            InspectorContent::Entity(selected[0])
        } else {
            InspectorContent::SharedComponents
        },
        InspectorSelection::Resource(_, _) => InspectorContent::Resource,
        InspectorSelection::Asset(_, _, _) => InspectorContent::Asset,
    }
}

/// What the inspector panel draws: `selected_entities` are the entities
/// selected in the hierarchy.
pub fn inspector_content(selection: &InspectorSelection, selected_entities: &[u64]) -> (content:
    InspectorContent)
    ensures
        content == content_of(*selection, selected_entities@),
{
    match selection {
        InspectorSelection::Entities => {
            if selected_entities.len() == 0 {
                InspectorContent::Empty
            } else if selected_entities.len() == 1 {
                InspectorContent::Entity(selected_entities[0])
            } else {
                InspectorContent::SharedComponents
            }
        },
        InspectorSelection::Resource(_, _) => InspectorContent::Resource,
        InspectorSelection::Asset(_, _, _) => InspectorContent::Asset,
    }
}

/// After the hierarchy panel was drawn: where the user picked an entity in
/// it, the inspector shows the entities again.
pub fn after_hierarchy(selection: &mut InspectorSelection, picked: bool)
    ensures
        *final(selection) == if picked {
            InspectorSelection::Entities
        } else {
            *old(selection)
        },
{
    if picked {
        *selection = InspectorSelection::Entities;
    }
}

} // verus!

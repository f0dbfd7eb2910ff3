use bevy::asset::HandleId;
use bevy::utils::Uuid;
use scene_inspector::inspector::ui::select::InspectorSelection;
use scene_inspector::inspector::ui::tab_viewer::{
    after_hierarchy, default_layout, inspector_content, render_size, window_menu, EguiWindow,
    InspectorContent, Side, TAB_STRIP,
};
use std::any::TypeId;

fn all_windows() -> [EguiWindow; 8] {
    [
        EguiWindow::SceneView,
        EguiWindow::GameView,
        EguiWindow::Hierarchy,
        EguiWindow::Resources,
        EguiWindow::RuntimeAssets,
        EguiWindow::Assets,
        EguiWindow::Inspector,
        EguiWindow::Console,
    ]
}

#[test]
fn title_is_the_name_of_the_kind() {
    assert_eq!(EguiWindow::SceneView.title(), "SceneView");
    assert_eq!(EguiWindow::GameView.title(), "GameView");
    assert_eq!(EguiWindow::Hierarchy.title(), "Hierarchy");
    assert_eq!(EguiWindow::Resources.title(), "Resources");
    assert_eq!(EguiWindow::RuntimeAssets.title(), "RuntimeAssets");
    assert_eq!(EguiWindow::Assets.title(), "Assets");
    assert_eq!(EguiWindow::Inspector.title(), "Inspector");
    assert_eq!(EguiWindow::Console.title(), "Console");
}

#[test]
fn title_is_what_debug_prints() {
    for window in all_windows() {
        assert_eq!(window.title(), format!("{:?}", window));
    }
}

#[test]
fn views_have_no_background() {
    assert!(!EguiWindow::SceneView.clear_background());
    assert!(!EguiWindow::GameView.clear_background());
}

#[test]
fn other_panels_have_a_background() {
    assert!(EguiWindow::Hierarchy.clear_background());
    assert!(EguiWindow::Resources.clear_background());
    assert!(EguiWindow::RuntimeAssets.clear_background());
    assert!(EguiWindow::Assets.clear_background());
    assert!(EguiWindow::Inspector.clear_background());
    assert!(EguiWindow::Console.clear_background());
}

#[test]
fn window_menu_lists_the_panels_in_order() {
    assert_eq!(
        window_menu(),
        vec![
            EguiWindow::SceneView,
            EguiWindow::GameView,
            EguiWindow::Hierarchy,
            EguiWindow::Inspector,
            EguiWindow::RuntimeAssets,
            EguiWindow::Resources,
            EguiWindow::Assets,
            EguiWindow::Console,
        ]
    );
}

#[test]
fn window_menu_holds_every_panel_once() {
    let menu = window_menu();
    for window in all_windows() {
        assert_eq!(menu.iter().filter(|w| **w == window).count(), 1);
    }
}

#[test]
fn default_layout_has_the_views_in_the_middle() {
    let layout = default_layout();
    assert_eq!(layout.views, vec![EguiWindow::SceneView, EguiWindow::GameView]);
    assert_eq!(layout.sides.len(), 3);
}

#[test]
fn default_layout_cuts_the_inspector_off_on_the_right() {
    let layout = default_layout();
    assert_eq!(layout.sides[0].side, Side::Right);
    assert_eq!(layout.sides[0].fraction_percent, 75);
    assert_eq!(layout.sides[0].tabs, vec![EguiWindow::Inspector]);
}

#[test]
fn default_layout_cuts_the_hierarchy_off_on_the_left() {
    let layout = default_layout();
    assert_eq!(layout.sides[1].side, Side::Left);
    assert_eq!(layout.sides[1].fraction_percent, 20);
    assert_eq!(layout.sides[1].tabs, vec![EguiWindow::Hierarchy, EguiWindow::RuntimeAssets]);
}

#[test]
fn default_layout_cuts_the_lists_off_below() {
    let layout = default_layout();
    assert_eq!(layout.sides[2].side, Side::Below);
    assert_eq!(layout.sides[2].fraction_percent, 80);
    assert_eq!(
        layout.sides[2].tabs,
        vec![EguiWindow::Resources, EguiWindow::Assets, EguiWindow::Console]
    );
}

#[test]
fn default_layout_shows_every_panel_once() {
    let layout = default_layout();
    let mut panels = layout.views.clone();
    for group in &layout.sides {
        panels.extend(group.tabs.iter().copied());
    }
    assert_eq!(panels.len(), 8);
    for window in all_windows() {
        assert_eq!(panels.iter().filter(|w| **w == window).count(), 1);
    }
}

#[test]
fn render_size_leaves_the_tab_strip_out() {
    assert_eq!(TAB_STRIP, 32);
    assert_eq!(render_size(800, 632), (800, 600));
    assert_eq!(render_size(0, 32), (0, 0));
    assert_eq!(render_size(1920, 33), (1920, 1));
    assert_eq!(render_size(u32::MAX, u32::MAX), (u32::MAX, u32::MAX - 32));
}

#[test]
fn inspector_is_empty_without_a_selected_entity() {
    assert_eq!(inspector_content(&InspectorSelection::Entities, &[]), InspectorContent::Empty);
}

#[test]
fn inspector_shows_the_one_selected_entity() {
    assert_eq!(inspector_content(&InspectorSelection::Entities, &[42]), InspectorContent::Entity(42));
}

#[test]
fn inspector_shows_what_several_entities_share() {
    assert_eq!(
        inspector_content(&InspectorSelection::Entities, &[1, 2]),
        InspectorContent::SharedComponents
    );
    assert_eq!(
        inspector_content(&InspectorSelection::Entities, &[7, 7, 7]),
        InspectorContent::SharedComponents
    );
}

#[test]
fn inspector_shows_the_resource_or_asset_whatever_is_selected() {
    let resource = InspectorSelection::Resource(TypeId::of::<u8>(), "u8".to_string());
    let asset = InspectorSelection::Asset(
        TypeId::of::<u8>(),
        "u8".to_string(),
        HandleId::new(Uuid::from_u128(5), 1),
    );
    for selected in [vec![], vec![1u64], vec![1, 2]] {
        assert_eq!(inspector_content(&resource, &selected), InspectorContent::Resource);
        assert_eq!(inspector_content(&asset, &selected), InspectorContent::Asset);
    }
}

#[test]
fn picking_in_the_hierarchy_shows_the_entities() {
    let mut selection = InspectorSelection::Resource(TypeId::of::<u8>(), "u8".to_string());
    after_hierarchy(&mut selection, true);
    assert_eq!(selection, InspectorSelection::Entities);
    after_hierarchy(&mut selection, true);
    assert_eq!(selection, InspectorSelection::Entities);
}

#[test]
fn drawing_the_hierarchy_without_a_pick_changes_nothing() {
    let mut selection = InspectorSelection::Resource(TypeId::of::<u8>(), "u8".to_string());
    after_hierarchy(&mut selection, false);
    assert_eq!(selection, InspectorSelection::Resource(TypeId::of::<u8>(), "u8".to_string()));
    let mut entities = InspectorSelection::Entities;
    after_hierarchy(&mut entities, false);
    assert_eq!(entities, InspectorSelection::Entities);
}

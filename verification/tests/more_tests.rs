use bevy_editor::assets::listing_order;
use bevy_editor::components::{demo_cubes, PrimitiveShape, SpawnKind};
use bevy_editor::editor::{gameplay_runs, CompKind, EditorRequest, EditorState, PlayState};
use bevy_editor::ui::{
    attach_enabled, context_menu, trim_chars, visibility_change, ContextAction, EntityVisibility,
};

#[test]
fn listing_dirs_first_then_by_name() {
    let names: Vec<String> = ["b.png", "scenes", "a.scn.ron", "models", "B.txt", "a.scn.ron"]
        .iter()
        .map(|s| s.to_string())
        .collect();
    let is_dir = vec![false, true, false, true, false, false];
    let order = listing_order(&names, &is_dir);
    assert_eq!(order, vec![3, 1, 4, 2, 5, 0]);
}

#[test]
fn listing_empty() {
    let order = listing_order(&Vec::new(), &Vec::new());
    assert!(order.is_empty());
}

#[test]
fn demo_ring() {
    let cubes = demo_cubes();
    assert_eq!(cubes.len(), 8);
    assert_eq!(cubes[0].name, "Cube 0");
    assert_eq!(cubes[7].name, "Cube 7");
    assert_eq!(cubes[5].color_index, 1);
    assert!(cubes[0].rotates);
    assert!(!cubes[3].rotates);
    assert!(cubes[6].rotates);
}

#[test]
fn spawn_components() {
    assert!(SpawnKind::Empty.components().is_empty());
    assert_eq!(
        SpawnKind::Shape(PrimitiveShape::Sphere).components(),
        vec![CompKind::PrimitiveMesh, CompKind::PbrDef]
    );
    assert_eq!(SpawnKind::PointLight.components(), vec![CompKind::PointLight]);
    assert_eq!(SpawnKind::DirectionalLight.components(), vec![CompKind::DirectionalLight]);
    assert_eq!(SpawnKind::SpotLight.components(), vec![CompKind::SpotLight]);
}

#[test]
fn gameplay_only_while_playing() {
    assert!(gameplay_runs(PlayState::Playing));
    assert!(!gameplay_runs(PlayState::Paused));
    assert!(!gameplay_runs(PlayState::Stopped));
}

#[test]
fn context_menu_entries() {
    let mut s = EditorState::default();
    s.selected = Some(1);
    context_menu(&mut s, 2, ContextAction::AttachToSelected);
    assert_eq!(s.request, Some(EditorRequest::Reparent { child: 2, new_parent: Some(1) }));
    context_menu(&mut s, 2, ContextAction::DetachToRoot);
    assert_eq!(s.request, Some(EditorRequest::Reparent { child: 2, new_parent: None }));
    context_menu(&mut s, 2, ContextAction::CreateChild(SpawnKind::Empty));
    assert_eq!(s.request, Some(EditorRequest::SpawnChild(2, SpawnKind::Empty)));
    context_menu(&mut s, 2, ContextAction::Rename);
    assert_eq!(s.rename_target, Some(2));
    context_menu(&mut s, 2, ContextAction::Focus);
    assert_eq!(s.selected, Some(2));
    assert_eq!(s.focus_request, Some(2));
    assert!(!attach_enabled(&s, 2));
    assert!(attach_enabled(&s, 3));
    context_menu(&mut s, 3, ContextAction::Duplicate);
    assert_eq!(s.request, Some(EditorRequest::Duplicate(3)));
    context_menu(&mut s, 3, ContextAction::Delete);
    assert_eq!(s.request, Some(EditorRequest::Delete(3)));
}

#[test]
fn visibility_toggle() {
    assert_eq!(visibility_change(Some(EntityVisibility::Inherited), true), None);
    assert_eq!(
        visibility_change(Some(EntityVisibility::Inherited), false),
        Some(EntityVisibility::Hidden)
    );
    assert_eq!(
        visibility_change(Some(EntityVisibility::Hidden), true),
        Some(EntityVisibility::Visible)
    );
    assert_eq!(visibility_change(Some(EntityVisibility::Hidden), false), None);
    assert_eq!(visibility_change(None, false), Some(EntityVisibility::Hidden));
}

#[test]
fn name_buffers() {
    let mut s = EditorState::default();
    s.sync_name_buffer(4, Some("Sun"));
    assert_eq!(s.name_buf, "Sun");
    assert_eq!(s.name_buf_entity, Some(4));
    s.name_buf = "Moon".to_string();
    s.sync_name_buffer(4, Some("Sun"));
    assert_eq!(s.name_buf, "Moon");
    assert_eq!(s.name_edited(), "Moon");
    assert!(s.scene_dirty);
    s.sync_name_buffer(5, None);
    assert_eq!(s.name_buf, "");
    s.rename_target = Some(9);
    s.rename_buf = "New".to_string();
    assert_eq!(s.commit_rename(), "New");
    assert_eq!(s.rename_buf, "");
    assert_eq!(s.rename_target, None);
}

#[test]
fn trimming() {
    assert_eq!(trim_chars(&vec![' ', 'a', ' ', 'b', '\n']), vec!['a', ' ', 'b']);
    assert!(trim_chars(&vec![' ', '\t']).is_empty());
    assert!(trim_chars(&vec![]).is_empty());
    assert_eq!(trim_chars(&vec!['x']), vec!['x']);
}

use bevy_editor::editor::{tool_drag_decision, DragDecision, DragInput, Tool};

fn input(started: bool, dragging: bool, ended: bool) -> DragInput {
    DragInput { started, dragging, ended }
}

#[test]
fn drag_select_tool_or_no_selection_cancels() {
    let none = DragDecision { active: false, begin: false, apply: None };
    assert_eq!(tool_drag_decision(Tool::Select, true, true, true, true, input(true, true, false)), none);
    assert_eq!(tool_drag_decision(Tool::Move, false, true, true, true, input(true, true, false)), none);
}

#[test]
fn drag_without_camera_keeps_state() {
    assert_eq!(
        tool_drag_decision(Tool::Move, true, false, true, true, input(false, true, false)),
        DragDecision { active: true, begin: false, apply: None }
    );
}

#[test]
fn drag_begins_applies_and_ends() {
    assert_eq!(
        tool_drag_decision(Tool::Scale, true, true, true, false, input(true, true, false)),
        DragDecision { active: true, begin: true, apply: Some(Tool::Scale) }
    );
    assert_eq!(
        tool_drag_decision(Tool::Rotate, true, true, true, true, input(false, true, false)),
        DragDecision { active: true, begin: false, apply: Some(Tool::Rotate) }
    );
    assert_eq!(
        tool_drag_decision(Tool::Rotate, true, true, true, true, input(false, false, true)),
        DragDecision { active: false, begin: false, apply: None }
    );
    assert_eq!(
        tool_drag_decision(Tool::Rotate, true, true, true, true, input(false, false, false)),
        DragDecision { active: true, begin: false, apply: None }
    );
    assert_eq!(
        tool_drag_decision(Tool::Move, true, true, false, false, input(true, true, false)),
        DragDecision { active: false, begin: false, apply: None }
    );
}

use bevy_editor::log_layer::format_uptime_millis;
use bevy_editor::text::is_whitespace;
use bevy_editor::ui::{hierarchy_root_row, hierarchy_searchable};

#[test]
fn whitespace_set() {
    for c in ['\t', '\n', '\u{0B}', '\u{0C}', '\r', ' ', '\u{85}', '\u{A0}', '\u{1680}', '\u{2000}', '\u{200A}', '\u{2028}', '\u{2029}', '\u{202F}', '\u{205F}', '\u{3000}'] {
        assert!(is_whitespace(c), "{:?}", c);
        assert_eq!(is_whitespace(c), c.is_whitespace());
    }
    for c in ['a', '\u{08}', '\u{0E}', '\u{200B}', '\u{FEFF}', '_'] {
        assert!(!is_whitespace(c), "{:?}", c);
        assert_eq!(is_whitespace(c), c.is_whitespace());
    }
}

#[test]
fn whitespace_agrees_with_std_everywhere() {
    for u in 0u32..=0x10FFFF {
        if let Some(c) = char::from_u32(u) {
            assert_eq!(is_whitespace(c), c.is_whitespace(), "U+{:04X}", u);
        }
    }
}

#[test]
fn uptime_drops_whole_hours() {
    let ms: u128 = 2 * 60_000 + 3_045;
    assert_eq!(format_uptime_millis(ms + 3_600_000), format_uptime_millis(ms));
    assert_eq!(format_uptime_millis(ms + 5 * 3_600_000), "02:03.045");
    let d = std::time::Duration::new(61, 7_999_999);
    assert_eq!(bevy_editor::log_layer::format_uptime(d), "01:01.007");
}

#[test]
fn hierarchy_rows() {
    assert!(hierarchy_root_row(false, false, false));
    assert!(!hierarchy_root_row(true, false, false));
    assert!(!hierarchy_root_row(false, true, false));
    assert!(!hierarchy_root_row(false, false, true));
    assert!(hierarchy_searchable(false, false));
    assert!(!hierarchy_searchable(true, false));
    assert!(!hierarchy_searchable(false, true));
}

use bevy_editor::duplicate::{duplicate_plan, ChildLists, CopyStep};

#[test]
fn duplicate_plan_preorder() {
    // 1 has children [2, 3]; 2 has [4]; 5 is unrelated.
    let mut t = ChildLists::new();
    t.insert(1, vec![2, 3]);
    t.insert(2, vec![4]);
    t.insert(5, vec![6]);
    let plan = duplicate_plan(&t, 1);
    assert_eq!(
        plan,
        vec![
            CopyStep { source: 1, parent_step: None },
            CopyStep { source: 2, parent_step: Some(0) },
            CopyStep { source: 4, parent_step: Some(1) },
            CopyStep { source: 3, parent_step: Some(0) },
        ]
    );
}

#[test]
fn duplicate_plan_leaf_and_cycle() {
    let mut t = ChildLists::new();
    assert_eq!(duplicate_plan(&t, 9), vec![CopyStep { source: 9, parent_step: None }]);
    t.insert(1, vec![2]);
    t.insert(2, vec![1]);
    let plan = duplicate_plan(&t, 1);
    assert_eq!(
        plan,
        vec![CopyStep { source: 1, parent_step: None }, CopyStep { source: 2, parent_step: Some(0) }]
    );
}

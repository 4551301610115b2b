use bevy_editor::components::{PrimitiveShape, SpawnKind};
use bevy_editor::editor::{CompKind, EditorRequest, EditorState, PlayState, WorldAction};
use bevy_editor::hierarchy::SceneGraph;

fn graph() -> SceneGraph {
    // 1 -> 2 -> 3 (3 is a child of 2, 2 a child of 1), 4 is a root.
    let mut g = SceneGraph::new();
    g.insert(1, None);
    g.insert(2, Some(1));
    g.insert(3, Some(2));
    g.insert(4, None);
    g
}

#[test]
fn in_subtree_cases() {
    let g = graph();
    assert!(g.in_subtree(1, 3));
    assert!(g.in_subtree(2, 2));
    assert!(!g.in_subtree(3, 1));
    assert!(!g.in_subtree(4, 3));
    assert!(!g.in_subtree(1, 99));
}

#[test]
fn reparent_into_own_subtree_refused() {
    let g = graph();
    let mut s = EditorState::default();
    let a = s.handle_request(&g, EditorRequest::Reparent { child: 1, new_parent: Some(3) });
    assert_eq!(a, WorldAction::Nothing);
    assert!(!s.scene_dirty);
    let a = s.handle_request(&g, EditorRequest::Reparent { child: 2, new_parent: Some(2) });
    assert_eq!(a, WorldAction::Nothing);
}

#[test]
fn reparent_accepted() {
    let mut g = graph();
    let mut s = EditorState::default();
    let a = s.handle_request(&g, EditorRequest::Reparent { child: 3, new_parent: Some(4) });
    assert_eq!(
        a,
        WorldAction::Reparent { child: 3, detach_from: Some(2), attach_to: Some(4) }
    );
    assert!(s.scene_dirty);
    g.apply_reparent(3, Some(2), Some(4));
    assert_eq!(g.parent(3), Some(4));
    assert!(!g.in_subtree(1, 3));
}

#[test]
fn reparent_to_root() {
    let mut g = graph();
    let mut s = EditorState::default();
    let a = s.handle_request(&g, EditorRequest::Reparent { child: 2, new_parent: None });
    assert_eq!(a, WorldAction::Reparent { child: 2, detach_from: Some(1), attach_to: None });
    g.apply_reparent(2, Some(1), None);
    assert_eq!(g.parent(2), None);
}

#[test]
fn reparent_missing_child_refused() {
    let g = graph();
    let mut s = EditorState::default();
    let a = s.handle_request(&g, EditorRequest::Reparent { child: 42, new_parent: None });
    assert_eq!(a, WorldAction::Nothing);
}

#[test]
fn play_then_stop_restores() {
    let g = graph();
    let mut s = EditorState::default();
    s.selected = Some(3);
    assert_eq!(s.handle_request(&g, EditorRequest::Play), WorldAction::Snapshot);
    assert_eq!(s.play, PlayState::Playing);
    assert!(s.has_snapshot);
    assert_eq!(s.handle_request(&g, EditorRequest::TogglePause), WorldAction::Nothing);
    assert_eq!(s.play, PlayState::Paused);
    // Resuming does not take a second snapshot.
    assert_eq!(s.handle_request(&g, EditorRequest::Play), WorldAction::Nothing);
    assert_eq!(s.play, PlayState::Playing);
    assert_eq!(s.handle_request(&g, EditorRequest::Stop), WorldAction::Restore);
    assert_eq!(s.play, PlayState::Stopped);
    assert!(!s.has_snapshot);
    assert_eq!(s.selected, None);
}

#[test]
fn stop_without_snapshot_does_nothing_to_world() {
    let g = graph();
    let mut s = EditorState::default();
    assert_eq!(s.handle_request(&g, EditorRequest::Stop), WorldAction::Nothing);
    assert_eq!(s.play, PlayState::Stopped);
}

#[test]
fn toggle_pause_twice() {
    let g = graph();
    let mut s = EditorState::default();
    s.play = PlayState::Playing;
    s.handle_request(&g, EditorRequest::TogglePause);
    assert_eq!(s.play, PlayState::Paused);
    s.handle_request(&g, EditorRequest::TogglePause);
    assert_eq!(s.play, PlayState::Playing);
    s.play = PlayState::Stopped;
    s.handle_request(&g, EditorRequest::TogglePause);
    assert_eq!(s.play, PlayState::Stopped);
}

#[test]
fn delete_clears_selection() {
    let g = graph();
    let mut s = EditorState::default();
    s.selected = Some(3);
    assert_eq!(s.handle_request(&g, EditorRequest::Delete(3)), WorldAction::Despawn(3));
    assert_eq!(s.selected, None);
    assert!(s.scene_dirty);
}

#[test]
fn delete_other_keeps_selection_and_missing_is_noop() {
    let g = graph();
    let mut s = EditorState::default();
    s.selected = Some(1);
    assert_eq!(s.handle_request(&g, EditorRequest::Delete(77)), WorldAction::Nothing);
    assert_eq!(s.selected, Some(1));
    assert!(s.scene_dirty);
}

#[test]
fn spawn_and_child_spawn() {
    let g = graph();
    let mut s = EditorState::default();
    let kind = SpawnKind::Shape(PrimitiveShape::Torus);
    assert_eq!(
        s.handle_request(&g, EditorRequest::Spawn(kind)),
        WorldAction::Spawn { kind, parent: None, at_orbit_target: true }
    );
    assert_eq!(
        s.handle_request(&g, EditorRequest::SpawnChild(2, SpawnKind::PointLight)),
        WorldAction::Spawn { kind: SpawnKind::PointLight, parent: Some(2), at_orbit_target: false }
    );
    assert_eq!(
        s.handle_request(&g, EditorRequest::SpawnChild(50, SpawnKind::Empty)),
        WorldAction::Spawn { kind: SpawnKind::Empty, parent: None, at_orbit_target: false }
    );
    s.on_spawned(9);
    assert_eq!(s.selected, Some(9));
    assert!(s.scene_dirty);
}

#[test]
fn focus_selects() {
    let g = graph();
    let mut s = EditorState::default();
    assert_eq!(s.handle_request(&g, EditorRequest::Focus(4)), WorldAction::Nothing);
    assert_eq!(s.selected, Some(4));
    assert_eq!(s.focus_request, Some(4));
}

#[test]
fn components_only_on_existing_entities() {
    let g = graph();
    let mut s = EditorState::default();
    assert_eq!(
        s.handle_request(&g, EditorRequest::AddComponent(1, CompKind::Rotator)),
        WorldAction::AddComponent(1, CompKind::Rotator)
    );
    assert!(s.scene_dirty);
    let mut s2 = EditorState::default();
    assert_eq!(
        s2.handle_request(&g, EditorRequest::RemoveComponent(8, CompKind::Bobber)),
        WorldAction::Nothing
    );
    assert!(!s2.scene_dirty);
    assert_eq!(
        s2.handle_request(&g, EditorRequest::RemoveComponent(4, CompKind::Bobber)),
        WorldAction::RemoveComponent(4, CompKind::Bobber)
    );
}

#[test]
fn duplicate_selects_copy() {
    let g = graph();
    let mut s = EditorState::default();
    assert_eq!(s.handle_request(&g, EditorRequest::Duplicate(2)), WorldAction::Duplicate(2));
    s.on_duplicated(None);
    assert_eq!(s.selected, None);
    assert!(!s.scene_dirty);
    s.on_duplicated(Some(12));
    assert_eq!(s.selected, Some(12));
    assert!(s.scene_dirty);
}

#[test]
fn take_request_and_resets() {
    let mut s = EditorState::default();
    s.request = Some(EditorRequest::Play);
    assert_eq!(s.take_request(), Some(EditorRequest::Play));
    assert_eq!(s.take_request(), None);
    s.play = PlayState::Paused;
    s.has_snapshot = true;
    s.selected = Some(1);
    s.scene_dirty = true;
    s.reset_for_new_scene();
    assert_eq!(s.play, PlayState::Stopped);
    assert!(!s.has_snapshot);
    assert_eq!(s.selected, None);
    assert!(!s.scene_dirty);
    s.scene_dirty = true;
    s.mark_saved();
    assert!(!s.scene_dirty);
}

#[test]
fn labels() {
    assert_eq!(PrimitiveShape::Icosphere.label(), "Icosphere");
    assert_eq!(PrimitiveShape::ALL.len(), 8);
    assert_eq!(PrimitiveShape::default(), PrimitiveShape::Cube);
    assert_eq!(SpawnKind::Empty.label(), "Empty Entity");
    assert_eq!(SpawnKind::Shape(PrimitiveShape::Cone).label(), "Cone");
    assert_eq!(SpawnKind::SpotLight.label(), "Spot Light");
    assert_eq!(CompKind::PbrDef.label(), "PBR Material");
    assert_eq!(CompKind::Bobber.group(), "Gameplay");
    assert_eq!(CompKind::SpotLight.group(), "Lighting");
    assert_eq!(CompKind::PrimitiveMesh.group(), "Rendering");
    assert_eq!(CompKind::EDITABLE.len(), 7);
}

#[test]
fn in_subtree_follows_long_chains() {
    // 0 <- 1 <- 2 <- ... <- 10_005: the deepest entity is far below 0.
    let mut g = SceneGraph::new();
    g.insert(0, None);
    for i in 1..=10_005u64 {
        g.insert(i, Some(i - 1));
    }
    assert!(g.in_subtree(0, 10_005));
    assert!(!g.in_subtree(10_005, 0));
    let mut s = EditorState::default();
    // Moving the top of the chain under its deepest descendant is refused.
    assert_eq!(
        s.handle_request(&g, EditorRequest::Reparent { child: 0, new_parent: Some(10_005) }),
        WorldAction::Nothing
    );
    assert!(!s.scene_dirty);
}

#[test]
fn in_subtree_terminates_on_cycles() {
    let mut g = SceneGraph::new();
    g.insert(1, Some(3));
    g.insert(2, Some(1));
    g.insert(3, Some(2));
    g.insert(4, None);
    assert!(g.in_subtree(3, 1));
    assert!(g.in_subtree(1, 2));
    assert!(!g.in_subtree(4, 1));
    assert!(!g.in_subtree(9, 1));
}

#[test]
fn in_subtree_dangling_parent() {
    let mut g = SceneGraph::new();
    g.insert(1, Some(50));
    assert!(g.in_subtree(50, 1));
    assert!(!g.in_subtree(7, 1));
}

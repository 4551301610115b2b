use bevy_editor::assets::{asset_kind, descend_into, is_scene_file, starts_open, AssetKind};
use bevy_editor::editor::{CompKind, EditorRequest, EditorState, PlayState, Tool};
use bevy_editor::scene_io::{copy_attach_target, copy_name};
use bevy_editor::hierarchy::SceneGraph;
use bevy_editor::ui::{
    checklist_request, checklist_text, edit_selected, entity_label, hierarchy_filter_key,
    hierarchy_label_matches, play_status_label, shortcuts, toolbar, EditCommand, KeyPresses,
    ShortcutAction,
};

fn no_keys() -> KeyPresses {
    KeyPresses {
        s: false,
        o: false,
        d: false,
        q: false,
        w: false,
        e: false,
        r: false,
        f: false,
        escape: false,
        delete: false,
        space: false,
    }
}

#[test]
fn ctrl_s_saves_ctrl_o_opens() {
    let mut s = EditorState::default();
    let mut k = no_keys();
    k.s = true;
    k.o = true;
    assert_eq!(shortcuts(&mut s, false, true, k), ShortcutAction::Save);
    k.s = false;
    assert_eq!(shortcuts(&mut s, false, true, k), ShortcutAction::Open);
    assert_eq!(shortcuts(&mut s, true, true, k), ShortcutAction::Nothing);
}

#[test]
fn ctrl_d_duplicates_selection() {
    let mut s = EditorState::default();
    let mut k = no_keys();
    k.d = true;
    shortcuts(&mut s, false, true, k);
    assert_eq!(s.request, None);
    s.selected = Some(5);
    shortcuts(&mut s, false, true, k);
    assert_eq!(s.request, Some(EditorRequest::Duplicate(5)));
}

#[test]
fn tool_keys_last_wins() {
    let mut s = EditorState::default();
    let mut k = no_keys();
    k.w = true;
    k.e = true;
    shortcuts(&mut s, false, false, k);
    assert_eq!(s.tool, Tool::Rotate);
    let mut k = no_keys();
    k.q = true;
    shortcuts(&mut s, false, false, k);
    assert_eq!(s.tool, Tool::Select);
}

#[test]
fn escape_before_delete() {
    let mut s = EditorState::default();
    s.selected = Some(3);
    let mut k = no_keys();
    k.escape = true;
    k.delete = true;
    shortcuts(&mut s, false, false, k);
    assert_eq!(s.selected, None);
    assert_eq!(s.request, None);
}

#[test]
fn delete_and_focus_keys() {
    let mut s = EditorState::default();
    s.selected = Some(3);
    let mut k = no_keys();
    k.delete = true;
    k.f = true;
    shortcuts(&mut s, false, false, k);
    assert_eq!(s.request, Some(EditorRequest::Delete(3)));
    assert_eq!(s.focus_request, Some(3));
}

#[test]
fn space_plays_or_pauses() {
    let mut s = EditorState::default();
    let mut k = no_keys();
    k.space = true;
    k.delete = true;
    s.selected = Some(2);
    shortcuts(&mut s, false, false, k);
    assert_eq!(s.request, Some(EditorRequest::Play));
    s.play = PlayState::Playing;
    shortcuts(&mut s, false, false, k);
    assert_eq!(s.request, Some(EditorRequest::TogglePause));
}

#[test]
fn captured_keyboard_ignored() {
    let mut s = EditorState::default();
    let mut k = no_keys();
    k.r = true;
    shortcuts(&mut s, true, false, k);
    assert_eq!(s.tool, Tool::Select);
}

#[test]
fn edit_commands() {
    let mut s = EditorState::default();
    edit_selected(&mut s, EditCommand::Delete);
    assert_eq!(s.request, None);
    s.selected = Some(8);
    edit_selected(&mut s, EditCommand::Focus);
    assert_eq!(s.focus_request, Some(8));
    edit_selected(&mut s, EditCommand::Delete);
    assert_eq!(s.request, Some(EditorRequest::Delete(8)));
}

#[test]
fn toolbar_states() {
    let t = toolbar(PlayState::Stopped, Tool::Select);
    assert_eq!(t.play_label, "Play");
    assert_eq!(t.play_request, EditorRequest::Play);
    assert!(!t.show_pause);
    assert!(!t.stop_enabled);
    assert!(!t.show_tool_hint);
    assert_eq!(t.mode_label, "Editor mode");
    let t = toolbar(PlayState::Playing, Tool::Move);
    assert_eq!(t.play_label, "Playing");
    assert_eq!(t.play_request, EditorRequest::TogglePause);
    assert!(t.show_pause);
    assert!(t.stop_enabled);
    assert!(t.show_tool_hint);
    assert_eq!(t.mode_label, "PLAY MODE");
    let t = toolbar(PlayState::Paused, Tool::Scale);
    assert_eq!(t.play_label, "Resume");
    assert!(!t.show_pause);
    assert_eq!(t.mode_label, "PAUSED");
    assert_eq!(play_status_label(PlayState::Playing), "▶ PLAYING");
    assert_eq!(play_status_label(PlayState::Stopped), "Stopped");
}

#[test]
fn checklist() {
    assert_eq!(
        checklist_request(4, CompKind::Rotator, true),
        EditorRequest::RemoveComponent(4, CompKind::Rotator)
    );
    assert_eq!(
        checklist_request(4, CompKind::Rotator, false),
        EditorRequest::AddComponent(4, CompKind::Rotator)
    );
    assert_eq!(checklist_text(CompKind::PointLight, true), "✓ Point Light");
    assert_eq!(checklist_text(CompKind::PbrDef, false), "+ PBR Material");
}

#[test]
fn entity_labels() {
    assert_eq!(entity_label(17, Some("Sun")), "Sun");
    assert_eq!(entity_label(17, None), "Entity 17");
    assert_eq!(entity_label(0, None), "Entity 0");
    assert_eq!(entity_label(4_294_967_295, None), "Entity 4294967295");
}

#[test]
fn hierarchy_search() {
    let key = hierarchy_filter_key("  CuBe \t");
    assert_eq!(key, vec!['c', 'u', 'b', 'e']);
    assert!(hierarchy_label_matches("Cube 3", &key));
    assert!(!hierarchy_label_matches("Sphere", &key));
    assert!(hierarchy_filter_key("   ").is_empty());
}

#[test]
fn asset_kinds() {
    assert_eq!(asset_kind("level.scn.ron"), AssetKind::Scene);
    assert_eq!(asset_kind("tex.png"), AssetKind::Image);
    assert_eq!(asset_kind("tex.jpg"), AssetKind::Image);
    assert_eq!(asset_kind("notes.ron"), AssetKind::Other);
    assert!(is_scene_file("assets/scenes/a.scn.ron"));
    assert!(!is_scene_file("assets/scenes/a.ron"));
    assert!(descend_into(0, "scenes"));
    assert!(!descend_into(0, ".git"));
    assert!(descend_into(4, ".github"));
    assert!(!descend_into(5, "deep"));
    assert!(starts_open(7));
    assert!(!starts_open(8));
}

#[test]
fn copy_names() {
    assert_eq!(copy_name(Some("Cube 1"), true), "Cube 1 (copy)");
    assert_eq!(copy_name(Some("Child"), false), "Child");
    assert_eq!(copy_name(None, true), "Entity");
}

#[test]
fn copy_attach() {
    let mut g = SceneGraph::new();
    g.insert(1, None);
    g.insert(2, Some(1));
    g.insert(3, Some(99));
    assert_eq!(copy_attach_target(&g, 2, None), Some(1));
    assert_eq!(copy_attach_target(&g, 1, None), None);
    assert_eq!(copy_attach_target(&g, 2, Some(7)), None);
    g.insert(7, None);
    assert_eq!(copy_attach_target(&g, 2, Some(7)), Some(7));
    assert_eq!(copy_attach_target(&g, 3, None), None);
}

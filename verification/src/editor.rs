//! Editor state and the rules by which requests from the UI change it and
//! the scene.

use vstd::prelude::*;
use crate::components::SpawnKind;
use crate::hierarchy::{
    SceneGraph, acyclic, after_reparent, detach_target, lemma_reparent_accepts_ancestor,
    lemma_reparent_keeps_acyclic, reparent_allowed, within_subtree,
};

verus! {

/// The active transform tool.
#[derive(Clone, Copy, Debug, PartialEq, Eq, Structural)]
pub enum Tool {
    Select,
    Move,
    Rotate,
    Scale,
}

/// Whether gameplay is running.
#[derive(Clone, Copy, Debug, PartialEq, Eq, Structural)]
pub enum PlayState {
    Stopped,
    Playing,
    Paused,
}

/// Which dock panels are shown.
#[derive(Clone, Copy, Debug, PartialEq, Eq, Structural)]
pub struct Panels {
    pub hierarchy: bool,
    pub inspector: bool,
    pub assets: bool,
    pub console: bool,
}

impl Default for Panels {
    fn default() -> (r: Self)
        ensures
            r == (Panels { hierarchy: true, inspector: true, assets: true, console: true }),
    {
        Panels { hierarchy: true, inspector: true, assets: true, console: true }
    }
}

/// A component the inspector can add to or remove from an entity.
#[derive(Clone, Copy, Debug, PartialEq, Eq, Structural)]
pub enum CompKind {
    PrimitiveMesh,
    PbrDef,
    Rotator,
    Bobber,
    PointLight,
    DirectionalLight,
    SpotLight,
}

impl CompKind {
    /// Every editable component, in inspector order.
    pub const EDITABLE: [CompKind; 7] = [
        CompKind::PrimitiveMesh,
        CompKind::PbrDef,
        CompKind::PointLight,
        CompKind::DirectionalLight,
        CompKind::SpotLight,
        CompKind::Rotator,
        CompKind::Bobber,
    ];

    /// The component's display name.
    pub open spec fn spec_label(self) -> Seq<char> {
        match self {
            CompKind::PrimitiveMesh => "Primitive Mesh"@,
            CompKind::PbrDef => "PBR Material"@,
            CompKind::Rotator => "Rotator (gameplay)"@,
            CompKind::Bobber => "Bobber (gameplay)"@,
            CompKind::PointLight => "Point Light"@,
            CompKind::DirectionalLight => "Directional Light"@,
            CompKind::SpotLight => "Spot Light"@,
        }
    }

    /// The component's display name.
    pub fn label(&self) -> (r: &'static str)
        ensures
            r@ == self.spec_label(),
    {
        match self {
            CompKind::PrimitiveMesh => "Primitive Mesh",
            CompKind::PbrDef => "PBR Material",
            CompKind::Rotator => "Rotator (gameplay)",
            CompKind::Bobber => "Bobber (gameplay)",
            CompKind::PointLight => "Point Light",
            CompKind::DirectionalLight => "Directional Light",
            CompKind::SpotLight => "Spot Light",
        }
    }

    /// The heading the component is listed under in the add-component list.
    pub open spec fn spec_group(self) -> Seq<char> {
        match self {
            CompKind::PrimitiveMesh | CompKind::PbrDef => "Rendering"@,
            CompKind::PointLight | CompKind::DirectionalLight | CompKind::SpotLight => "Lighting"@,
            CompKind::Rotator | CompKind::Bobber => "Gameplay"@,
        }
    }

    /// The heading the component is listed under in the add-component list.
    pub fn group(&self) -> (r: &'static str)
        ensures
            r@ == self.spec_group(),
    {
        match self {
            CompKind::PrimitiveMesh | CompKind::PbrDef => "Rendering",
            CompKind::PointLight | CompKind::DirectionalLight | CompKind::SpotLight => "Lighting",
            CompKind::Rotator | CompKind::Bobber => "Gameplay",
        }
    }
}

/// A change to the scene or to play mode asked for by the UI; entities are
/// named by their id.
#[derive(Clone, Copy, Debug, PartialEq, Eq, Structural)]
pub enum EditorRequest {
    Spawn(SpawnKind),
    SpawnChild(u64, SpawnKind),
    Delete(u64),
    Duplicate(u64),
    Focus(u64),
    Reparent { child: u64, new_parent: Option<u64> },
    Play,
    Stop,
    TogglePause,
    AddComponent(u64, CompKind),
    RemoveComponent(u64, CompKind),
}

/// What the world has to do to carry out a request.
#[derive(Clone, Copy, Debug, PartialEq, Eq, Structural)]
pub enum WorldAction {
    /// Nothing to do in the world.
    Nothing,
    /// Spawn a new entity of `kind`, at the orbit target or (for a child)
    /// at the origin, and attach it to `parent` when there is one.
    Spawn { kind: SpawnKind, parent: Option<u64>, at_orbit_target: bool },
    /// Despawn the entity and everything below it.
    Despawn(u64),
    /// Deep-copy the entity's subtree.
    Duplicate(u64),
    /// Detach `child` from `detach_from` (when set) and attach it to
    /// `attach_to` (when set).
    Reparent { child: u64, detach_from: Option<u64>, attach_to: Option<u64> },
    /// Record a snapshot of the scene before gameplay starts.
    Snapshot,
    /// Replace the scene with the recorded snapshot.
    Restore,
    AddComponent(u64, CompKind),
    RemoveComponent(u64, CompKind),
}

/// The console panel's filter.
#[derive(Clone, Debug)]
pub struct ConsoleFilter {
    pub search: String,
    pub info: bool,
    pub warn: bool,
    pub error: bool,
    pub auto_scroll: bool,
}

impl Default for ConsoleFilter {
    fn default() -> (r: Self)
        ensures
            r.search@ == Seq::<char>::empty(),
            r.info && r.warn && r.error && r.auto_scroll,
    {
        ConsoleFilter { search: String::new(), info: true, warn: true, error: true, auto_scroll: true }
    }
}

/// Central editor state (the parts the editor's rules read and write).
pub struct EditorState {
    pub selected: Option<u64>,
    pub hovered_entity: Option<u64>,
    pub tool: Tool,
    pub play: PlayState,
    pub panels: Panels,
    pub show_grid: bool,
    pub show_selection_gizmo: bool,
    pub show_light_gizmos: bool,
    pub scene_dirty: bool,
    pub focus_request: Option<u64>,
    pub about_open: bool,
    pub rename_target: Option<u64>,
    pub rename_buf: String,
    pub name_buf: String,
    pub name_buf_entity: Option<u64>,
    pub hierarchy_filter: String,
    /// A scene snapshot is held, to be restored when play stops.
    pub has_snapshot: bool,
    pub request: Option<EditorRequest>,
    pub console: ConsoleFilter,
    pub refresh_assets: bool,
    pub theme_applied: bool,
}

impl Default for EditorState {
    fn default() -> (r: Self)
        ensures
            r.selected is None,
            r.hovered_entity is None,
            r.tool == Tool::Select,
            r.play == PlayState::Stopped,
            r.panels == (Panels { hierarchy: true, inspector: true, assets: true, console: true }),
            r.show_grid && r.show_selection_gizmo && r.show_light_gizmos,
            !r.scene_dirty,
            r.focus_request is None,
            !r.about_open,
            r.rename_target is None,
            r.rename_buf@ == Seq::<char>::empty(),
            r.name_buf@ == Seq::<char>::empty(),
            r.name_buf_entity is None,
            r.hierarchy_filter@ == Seq::<char>::empty(),
            !r.has_snapshot,
            r.request is None,
            r.console.search@ == Seq::<char>::empty(),
            r.console.info && r.console.warn && r.console.error && r.console.auto_scroll,
            !r.refresh_assets,
            !r.theme_applied,
    {
        EditorState {
            selected: None,
            hovered_entity: None,
            tool: Tool::Select,
            play: PlayState::Stopped,
            panels: Panels::default(),
            show_grid: true,
            show_selection_gizmo: true,
            show_light_gizmos: true,
            scene_dirty: false,
            focus_request: None,
            about_open: false,
            rename_target: None,
            rename_buf: String::new(),
            name_buf: String::new(),
            name_buf_entity: None,
            hierarchy_filter: String::new(),
            has_snapshot: false,
            request: None,
            console: ConsoleFilter::default(),
            refresh_assets: false,
            theme_applied: false,
        }
    }
}

/// Play state after a pause toggle: playing and paused swap, stopped stays.
pub open spec fn toggled(p: PlayState) -> PlayState {
    match p {
        PlayState::Playing => PlayState::Paused,
        PlayState::Paused => PlayState::Playing,
        PlayState::Stopped => PlayState::Stopped,
    }
}

/// The state and world action that handling `r` gives, for the scene
/// structure `g`.
pub open spec fn request_step(s: EditorState, g: Map<u64, Option<u64>>, r: EditorRequest) -> (
    EditorState,
    WorldAction,
) {
    match r {
        EditorRequest::Spawn(kind) => (s, WorldAction::Spawn { kind, parent: None, at_orbit_target: true }),
        EditorRequest::SpawnChild(p, kind) => (
            s,
            WorldAction::Spawn {
                kind,
                parent: if g.contains_key(p) {
                    Some(p)
                } else {
                    None
                },
                at_orbit_target: false,
            },
        ),
        EditorRequest::Delete(e) => (
            EditorState {
                selected: if s.selected == Some(e) {
                    None
                } else {
                    s.selected
                },
                scene_dirty: true,
                ..s
            },
            if g.contains_key(e) {
                WorldAction::Despawn(e)
            } else {
                WorldAction::Nothing
            },
        ),
        EditorRequest::Duplicate(e) => (s, WorldAction::Duplicate(e)),
        EditorRequest::Focus(e) => (
            EditorState { selected: Some(e), focus_request: Some(e), ..s },
            WorldAction::Nothing,
        ),
        EditorRequest::Reparent { child, new_parent } => if reparent_allowed(g, child, new_parent) {
            (
                EditorState { scene_dirty: true, ..s },
                WorldAction::Reparent { child, detach_from: detach_target(g, child), attach_to: new_parent },
            )
        } else {
            (s, WorldAction::Nothing)
        },
        EditorRequest::Play => if s.play == PlayState::Stopped {
            (EditorState { play: PlayState::Playing, has_snapshot: true, ..s }, WorldAction::Snapshot)
        } else {
            (EditorState { play: PlayState::Playing, ..s }, WorldAction::Nothing)
        },
        EditorRequest::Stop => (
            EditorState {
                play: PlayState::Stopped,
                selected: None,
                hovered_entity: None,
                has_snapshot: false,
                ..s
            },
            if s.has_snapshot {
                WorldAction::Restore
            } else {
                WorldAction::Nothing
            },
        ),
        EditorRequest::TogglePause => (EditorState { play: toggled(s.play), ..s }, WorldAction::Nothing),
        EditorRequest::AddComponent(e, kind) => if g.contains_key(e) {
            (EditorState { scene_dirty: true, ..s }, WorldAction::AddComponent(e, kind))
        } else {
            (s, WorldAction::Nothing)
        },
        EditorRequest::RemoveComponent(e, kind) => if g.contains_key(e) {
            (EditorState { scene_dirty: true, ..s }, WorldAction::RemoveComponent(e, kind))
        } else {
            (s, WorldAction::Nothing)
        },
    }
}

impl EditorState {
    /// Handles one request: updates the state and says what the world must
    /// do. Selection of a newly spawned or duplicated entity follows in
    /// `on_spawned` / `on_duplicated`, once the world has made it.
    #[verifier::rlimit(50)]
    #[verifier::spinoff_prover]
    pub fn handle_request(&mut self, graph: &SceneGraph, request: EditorRequest) -> (action: WorldAction)
        ensures
            (*final(self), action) == request_step(*old(self), graph@, request),
    {
        match request {
            EditorRequest::Spawn(kind) => WorldAction::Spawn { kind, parent: None, at_orbit_target: true },
            EditorRequest::SpawnChild(p, kind) => {
                let parent = if graph.contains(p) {
                    Some(p)
                } else {
                    None
                };
                WorldAction::Spawn { kind, parent, at_orbit_target: false }
            },
            EditorRequest::Delete(e) => {
                if self.selected == Some(e) {
                    self.selected = None;
                }
                self.scene_dirty = true;
                if graph.contains(e) {
                    WorldAction::Despawn(e)
                } else {
                    WorldAction::Nothing
                }
            },
            EditorRequest::Duplicate(e) => WorldAction::Duplicate(e),
            EditorRequest::Focus(e) => {
                self.selected = Some(e);
                self.focus_request = Some(e);
                WorldAction::Nothing
            },
            EditorRequest::Reparent { child, new_parent } => {
                if graph.reparent_allowed(child, new_parent) {
                    self.scene_dirty = true;
                    WorldAction::Reparent {
                        child,
                        detach_from: graph.detach_target(child),
                        attach_to: new_parent,
                    }
                } else {
                    WorldAction::Nothing
                }
            },
            EditorRequest::Play => {
                let action = if self.play == PlayState::Stopped {
                    self.has_snapshot = true;
                    WorldAction::Snapshot
                } else {
                    WorldAction::Nothing
                };
                self.play = PlayState::Playing;
                action
            },
            EditorRequest::Stop => {
                let action = if self.has_snapshot {
                    WorldAction::Restore
                } else {
                    WorldAction::Nothing
                };
                self.has_snapshot = false;
                self.play = PlayState::Stopped;
                self.selected = None;
                self.hovered_entity = None;
                action
            },
            EditorRequest::TogglePause => {
                self.play = match self.play {
                    PlayState::Playing => PlayState::Paused,
                    PlayState::Paused => PlayState::Playing,
                    PlayState::Stopped => PlayState::Stopped,
                };
                WorldAction::Nothing
            },
            EditorRequest::AddComponent(e, kind) => {
                if graph.contains(e) {
                    self.scene_dirty = true;
                    WorldAction::AddComponent(e, kind)
                } else {
                    WorldAction::Nothing
                }
            },
            EditorRequest::RemoveComponent(e, kind) => {
                if graph.contains(e) {
                    self.scene_dirty = true;
                    WorldAction::RemoveComponent(e, kind)
                } else {
                    WorldAction::Nothing
                }
            },
        }
    }
}

/// Gameplay systems (rotators, bobbers) run only while playing, not when
/// stopped or paused.
pub fn gameplay_runs(play: PlayState) -> (r: bool)
    ensures
        r == (play == PlayState::Playing),
{
    play == PlayState::Playing
}

/// Pointer-drag events of the game view in one frame.
#[derive(Clone, Copy, Debug, PartialEq, Eq, Structural)]
pub struct DragInput {
    /// A left-button drag began this frame.
    pub started: bool,
    /// The left button is dragging.
    pub dragging: bool,
    /// A left-button drag ended this frame.
    pub ended: bool,
}

/// What the transform tool does in a frame.
#[derive(Clone, Copy, Debug, PartialEq, Eq, Structural)]
pub struct DragDecision {
    /// A tool drag is in progress after this frame.
    pub active: bool,
    /// A new drag starts: record the target's transform and the pointer hit.
    pub begin: bool,
    /// Move, rotate or scale the target with this tool.
    pub apply: Option<Tool>,
}

/// The transform tool's decision: nothing (and no drag) with the select
/// tool or without a selection; nothing changes without a camera; a drag
/// begins when one starts on a target with a transform; an active drag is
/// applied while dragging and ends when the drag ends.
pub open spec fn drag_decision_spec(
    tool: Tool,
    has_selection: bool,
    camera_ready: bool,
    target_has_transform: bool,
    drag_active: bool,
    input: DragInput,
) -> DragDecision {
    if tool == Tool::Select || !has_selection {
        DragDecision { active: false, begin: false, apply: None }
    } else if !camera_ready {
        DragDecision { active: drag_active, begin: false, apply: None }
    } else {
        let begin = input.started && target_has_transform;
        let active = drag_active || begin;
        if !active {
            DragDecision { active: false, begin: false, apply: None }
        } else if !input.dragging {
            DragDecision { active: !input.ended, begin, apply: None }
        } else {
            DragDecision {
                active: true,
                begin,
                apply: if target_has_transform {
                    Some(tool)
                } else {
                    None
                },
            }
        }
    }
}

/// The transform tool's decision for one frame.
pub fn tool_drag_decision(
    tool: Tool,
    has_selection: bool,
    camera_ready: bool,
    target_has_transform: bool,
    drag_active: bool,
    input: DragInput,
) -> (r: DragDecision)
    ensures
        r == drag_decision_spec(tool, has_selection, camera_ready, target_has_transform, drag_active, input),
{
    if tool == Tool::Select || !has_selection {
        return DragDecision { active: false, begin: false, apply: None };
    }
    if !camera_ready {
        return DragDecision { active: drag_active, begin: false, apply: None };
    }
    let begin = input.started && target_has_transform;
    if !(drag_active || begin) {
        return DragDecision { active: false, begin: false, apply: None };
    }
    if !input.dragging {
        return DragDecision { active: !input.ended, begin, apply: None };
    }
    let apply = if target_has_transform {
        Some(tool)
    } else {
        None
    };
    DragDecision { active: true, begin, apply }
}

/// Law: the select tool never transforms anything and never keeps a drag.
pub proof fn lemma_select_tool_never_drags(
    has_selection: bool,
    camera_ready: bool,
    target_has_transform: bool,
    drag_active: bool,
    input: DragInput,
)
    ensures
        drag_decision_spec(Tool::Select, has_selection, camera_ready, target_has_transform, drag_active, input)
            == (DragDecision { active: false, begin: false, apply: None }),
{
}

/// A snapshot is held exactly while gameplay is running or paused.
pub open spec fn snapshot_consistent(s: EditorState) -> bool {
    s.has_snapshot <==> s.play != PlayState::Stopped
}

impl EditorState {
    /// Selects an entity the world has just spawned for a request, and
    /// marks the scene as changed.
    pub fn on_spawned(&mut self, entity: u64)
        ensures
            *final(self) == (EditorState { selected: Some(entity), scene_dirty: true, ..*old(self) }),
    {
        self.selected = Some(entity);
        self.scene_dirty = true;
    }

    /// Selects the copy the world made for a duplicate request, if it made
    /// one, and then marks the scene as changed.
    pub fn on_duplicated(&mut self, copy: Option<u64>)
        ensures
            *final(self) == match copy {
                Some(c) => EditorState { selected: Some(c), scene_dirty: true, ..*old(self) },
                None => *old(self),
            },
    {
        if let Some(c) = copy {
            self.selected = Some(c);
            self.scene_dirty = true;
        }
    }

    /// Takes the pending request, leaving none.
    pub fn take_request(&mut self) -> (r: Option<EditorRequest>)
        ensures
            r == old(self).request,
            *final(self) == (EditorState { request: None, ..*old(self) }),
    {
        let r = self.request;
        self.request = None;
        r
    }

    /// Forgets the current scene's session state before another scene
    /// replaces it (opened from disk or newly made): nothing selected,
    /// nothing unsaved, play stopped and no snapshot.
    pub fn reset_for_new_scene(&mut self)
        ensures
            *final(self) == (EditorState {
                selected: None,
                scene_dirty: false,
                play: PlayState::Stopped,
                has_snapshot: false,
                ..*old(self)
            }),
    {
        self.selected = None;
        self.scene_dirty = false;
        self.play = PlayState::Stopped;
        self.has_snapshot = false;
    }

    /// Records that the scene was just written to disk.
    pub fn mark_saved(&mut self)
        ensures
            *final(self) == (EditorState { scene_dirty: false, ..*old(self) }),
    {
        self.scene_dirty = false;
    }
}

/// Law: pausing twice gives back the play state one started with.
pub proof fn lemma_toggle_pause_twice(s: EditorState, g: Map<u64, Option<u64>>)
    ensures
        request_step(request_step(s, g, EditorRequest::TogglePause).0, g, EditorRequest::TogglePause).0
            == s,
{
    let s1 = request_step(s, g, EditorRequest::TogglePause).0;
    let s2 = request_step(s1, g, EditorRequest::TogglePause).0;
    assert(s2 == EditorState { play: toggled(toggled(s.play)), ..s });
}

/// Law: starting play from the stopped editor records a snapshot, and
/// stopping again restores it and leaves the editor stopped with nothing
/// selected.
pub proof fn lemma_play_then_stop_restores(s: EditorState, g: Map<u64, Option<u64>>)
    requires
        s.play == PlayState::Stopped,
    ensures
        ({
            let (s1, a1) = request_step(s, g, EditorRequest::Play);
            let (s2, a2) = request_step(s1, g, EditorRequest::Stop);
            &&& a1 == WorldAction::Snapshot
            &&& s1.play == PlayState::Playing
            &&& a2 == WorldAction::Restore
            &&& s2.play == PlayState::Stopped
            &&& !s2.has_snapshot
            &&& s2.selected is None
        }),
{
}

/// Law: while gameplay runs or is paused, no request takes a second
/// snapshot; the first one is the one that Stop restores.
pub proof fn lemma_no_second_snapshot(s: EditorState, g: Map<u64, Option<u64>>, r: EditorRequest)
    requires
        s.play != PlayState::Stopped,
        snapshot_consistent(s),
    ensures
        request_step(s, g, r).1 != WorldAction::Snapshot,
        r != EditorRequest::Stop ==> request_step(s, g, r).0.has_snapshot,
{
}

/// Law: every request keeps a snapshot held exactly while gameplay is
/// running or paused.
pub proof fn lemma_step_keeps_snapshot_consistent(s: EditorState, g: Map<u64, Option<u64>>, r: EditorRequest)
    requires
        snapshot_consistent(s),
    ensures
        snapshot_consistent(request_step(s, g, r).0),
{
}

/// Law: Stop restores the scene whenever a snapshot is held, whether play
/// is running or paused, and leaves the editor stopped without a snapshot.
pub proof fn lemma_stop_restores_held_snapshot(s: EditorState, g: Map<u64, Option<u64>>)
    requires
        s.has_snapshot,
    ensures
        request_step(s, g, EditorRequest::Stop).1 == WorldAction::Restore,
        request_step(s, g, EditorRequest::Stop).0.play == PlayState::Stopped,
        !request_step(s, g, EditorRequest::Stop).0.has_snapshot,
        request_step(s, g, EditorRequest::Stop).0.selected is None,
        request_step(s, g, EditorRequest::Stop).0.hovered_entity is None,
{
}

/// The state after `n` pause toggles.
pub open spec fn after_toggles(s: EditorState, g: Map<u64, Option<u64>>, n: nat) -> EditorState
    decreases n,
{
    if n == 0 {
        s
    } else {
        request_step(after_toggles(s, g, (n - 1) as nat), g, EditorRequest::TogglePause).0
    }
}

/// Pause toggles keep the snapshot and never stop play.
proof fn lemma_toggles_keep_snapshot(s: EditorState, g: Map<u64, Option<u64>>, n: nat)
    requires
        s.has_snapshot,
        s.play != PlayState::Stopped,
    ensures
        after_toggles(s, g, n).has_snapshot,
        after_toggles(s, g, n).play != PlayState::Stopped,
    decreases n,
{
    if n > 0 {
        lemma_toggles_keep_snapshot(s, g, (n - 1) as nat);
    }
}

/// Law: from the stopped editor, Play, any number of pause toggles, then
/// Stop: Play takes the snapshot and Stop restores it.
pub proof fn lemma_play_pauses_stop_restores(s: EditorState, g: Map<u64, Option<u64>>, n: nat)
    requires
        s.play == PlayState::Stopped,
    ensures
        request_step(s, g, EditorRequest::Play).1 == WorldAction::Snapshot,
        request_step(after_toggles(request_step(s, g, EditorRequest::Play).0, g, n), g, EditorRequest::Stop).1
            == WorldAction::Restore,
        request_step(after_toggles(request_step(s, g, EditorRequest::Play).0, g, n), g, EditorRequest::Stop).0.play
            == PlayState::Stopped,
{
    let s1 = request_step(s, g, EditorRequest::Play).0;
    assert(s1.has_snapshot && s1.play == PlayState::Playing);
    lemma_toggles_keep_snapshot(s1, g, n);
}

/// Law: deleting an entity that exists despawns it, whatever is selected;
/// deleting one that does not exist leaves the world alone.
pub proof fn lemma_delete_despawns_existing(s: EditorState, g: Map<u64, Option<u64>>, e: u64)
    ensures
        g.contains_key(e) ==> request_step(s, g, EditorRequest::Delete(e)).1 == WorldAction::Despawn(e),
        !g.contains_key(e) ==> request_step(s, g, EditorRequest::Delete(e)).1 == WorldAction::Nothing,
        s.selected != Some(e) ==> request_step(s, g, EditorRequest::Delete(e)).0.selected == s.selected,
{
}

/// Law: in a scene without cycles, moving an entity up under one of its
/// ancestors (its grandparent, say) is carried out: it is detached from its
/// current parent and attached to the ancestor, and the scene is marked
/// changed.
pub proof fn lemma_reparent_request_under_ancestor(
    s: EditorState,
    g: Map<u64, Option<u64>>,
    child: u64,
    p: u64,
)
    requires
        acyclic(g),
        g.contains_key(child),
        g.contains_key(p),
        p != child,
        within_subtree(g, p, child),
    ensures
        request_step(s, g, EditorRequest::Reparent { child, new_parent: Some(p) }).1
            == (WorldAction::Reparent { child, detach_from: detach_target(g, child), attach_to: Some(p) }),
        request_step(s, g, EditorRequest::Reparent { child, new_parent: Some(p) }).0.scene_dirty,
{
    lemma_reparent_accepts_ancestor(g, child, p);
}

/// Law: Play always leaves gameplay running; it takes a snapshot exactly
/// when play was stopped, and otherwise keeps the one it has.
pub proof fn lemma_play_starts(s: EditorState, g: Map<u64, Option<u64>>)
    ensures
        request_step(s, g, EditorRequest::Play).0.play == PlayState::Playing,
        s.play == PlayState::Stopped ==> request_step(s, g, EditorRequest::Play).1 == WorldAction::Snapshot
            && request_step(s, g, EditorRequest::Play).0.has_snapshot,
        s.play != PlayState::Stopped ==> request_step(s, g, EditorRequest::Play).1 == WorldAction::Nothing
            && request_step(s, g, EditorRequest::Play).0.has_snapshot == s.has_snapshot,
        request_step(s, g, EditorRequest::Play).0.selected == s.selected,
{
}

/// Law: a pause toggle pauses running play, resumes paused play, does
/// nothing when stopped, and never touches the world.
pub proof fn lemma_toggle_pause(s: EditorState, g: Map<u64, Option<u64>>)
    ensures
        s.play == PlayState::Playing ==> request_step(s, g, EditorRequest::TogglePause).0.play == PlayState::Paused,
        s.play == PlayState::Paused ==> request_step(s, g, EditorRequest::TogglePause).0.play == PlayState::Playing,
        s.play == PlayState::Stopped ==> request_step(s, g, EditorRequest::TogglePause).0.play == PlayState::Stopped,
        request_step(s, g, EditorRequest::TogglePause).1 == WorldAction::Nothing,
        request_step(s, g, EditorRequest::TogglePause).0.has_snapshot == s.has_snapshot,
{
}

/// Law: Stop without a snapshot leaves the world alone, and always ends
/// stopped with nothing selected or hovered.
pub proof fn lemma_stop_without_snapshot(s: EditorState, g: Map<u64, Option<u64>>)
    requires
        !s.has_snapshot,
    ensures
        request_step(s, g, EditorRequest::Stop).1 == WorldAction::Nothing,
        request_step(s, g, EditorRequest::Stop).0.play == PlayState::Stopped,
        request_step(s, g, EditorRequest::Stop).0.selected is None,
        request_step(s, g, EditorRequest::Stop).0.hovered_entity is None,
{
}

/// Law: a spawn request spawns one entity of the asked kind: a top-level
/// one at the orbit target, or a child at the origin attached to its parent
/// when that parent exists. The selection follows once it exists.
pub proof fn lemma_spawn_requests(s: EditorState, g: Map<u64, Option<u64>>, kind: SpawnKind, p: u64)
    ensures
        request_step(s, g, EditorRequest::Spawn(kind)).1 == (WorldAction::Spawn {
            kind,
            parent: None,
            at_orbit_target: true,
        }),
        g.contains_key(p) ==> request_step(s, g, EditorRequest::SpawnChild(p, kind)).1 == (WorldAction::Spawn {
            kind,
            parent: Some(p),
            at_orbit_target: false,
        }),
        !g.contains_key(p) ==> request_step(s, g, EditorRequest::SpawnChild(p, kind)).1 == (WorldAction::Spawn {
            kind,
            parent: None,
            at_orbit_target: false,
        }),
{
}

/// Law: focusing an entity selects it and asks the camera to frame it,
/// without touching the world; duplicating always asks the world for a copy
/// of that entity.
pub proof fn lemma_focus_and_duplicate(s: EditorState, g: Map<u64, Option<u64>>, e: u64)
    ensures
        request_step(s, g, EditorRequest::Focus(e)).0.selected == Some(e),
        request_step(s, g, EditorRequest::Focus(e)).0.focus_request == Some(e),
        request_step(s, g, EditorRequest::Focus(e)).1 == WorldAction::Nothing,
        request_step(s, g, EditorRequest::Duplicate(e)).1 == WorldAction::Duplicate(e),
{
}

/// Law: adding or removing a component acts on an existing entity and marks
/// the scene changed; for a missing entity nothing happens at all.
pub proof fn lemma_component_requests(s: EditorState, g: Map<u64, Option<u64>>, e: u64, kind: CompKind)
    ensures
        g.contains_key(e) ==> request_step(s, g, EditorRequest::AddComponent(e, kind)).1
            == WorldAction::AddComponent(e, kind) && request_step(s, g, EditorRequest::AddComponent(e, kind)).0.scene_dirty,
        g.contains_key(e) ==> request_step(s, g, EditorRequest::RemoveComponent(e, kind)).1
            == WorldAction::RemoveComponent(e, kind) && request_step(s, g, EditorRequest::RemoveComponent(e, kind)).0.scene_dirty,
        !g.contains_key(e) ==> request_step(s, g, EditorRequest::AddComponent(e, kind)) == (s, WorldAction::Nothing),
        !g.contains_key(e) ==> request_step(s, g, EditorRequest::RemoveComponent(e, kind)) == (s, WorldAction::Nothing),
{
}

/// Law: a refused reparent changes nothing, and detaching an existing
/// entity to the root level is always carried out.
pub proof fn lemma_reparent_refused_or_detached(s: EditorState, g: Map<u64, Option<u64>>, child: u64, np: Option<u64>)
    ensures
        !g.contains_key(child) ==> request_step(s, g, EditorRequest::Reparent { child, new_parent: np }) == (
            s,
            WorldAction::Nothing,
        ),
        np == Some(child) ==> request_step(s, g, EditorRequest::Reparent { child, new_parent: np }) == (
            s,
            WorldAction::Nothing,
        ),
        g.contains_key(child) ==> request_step(s, g, EditorRequest::Reparent { child, new_parent: None }).1
            == (WorldAction::Reparent { child, detach_from: detach_target(g, child), attach_to: None }),
{
}

/// Law: deleting the selected entity leaves nothing selected; the scene is
/// marked changed.
pub proof fn lemma_delete_clears_selection(s: EditorState, g: Map<u64, Option<u64>>, e: u64)
    requires
        s.selected == Some(e),
    ensures
        request_step(s, g, EditorRequest::Delete(e)).0.selected is None,
        request_step(s, g, EditorRequest::Delete(e)).0.scene_dirty,
{
}

/// Law: carrying out the world action of a reparent request never puts a
/// cycle into a scene that has none.
pub proof fn lemma_reparent_request_keeps_acyclic(
    s: EditorState,
    g: Map<u64, Option<u64>>,
    child: u64,
    new_parent: Option<u64>,
)
    requires
        acyclic(g),
    ensures
        match request_step(s, g, EditorRequest::Reparent { child, new_parent }).1 {
            WorldAction::Reparent { child: c, detach_from, attach_to } => acyclic(
                after_reparent(g, c, detach_from, attach_to),
            ),
            _ => true,
        },
{
    if reparent_allowed(g, child, new_parent) {
        lemma_reparent_keeps_acyclic(g, child, new_parent);
    }
}

} // verus!

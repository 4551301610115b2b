//! The decisions behind the editor's panels, menus and shortcuts: which
//! request a control makes, which label it shows and which console lines
//! and hierarchy entries pass the filters. Drawing is left to the caller.

use vstd::prelude::*;
use crate::components::SpawnKind;
use crate::editor::{CompKind, EditorRequest, EditorState, PlayState, Tool, ConsoleFilter};
use crate::log_layer::{LogLevel, LogLine, short_target};
use crate::text::{
    chars_of, contains_chars, decimal, is_whitespace, lowercase, occurs_in, pad_left, push_char,
    push_decimal, push_right_aligned, push_str, string_of, to_lowercase, trim_end, trim_start, trimmed,
};

verus! {

/// The request of the play button (and of the Space key): start play when
/// stopped, otherwise toggle pause.
pub open spec fn play_or_pause(play: PlayState) -> EditorRequest {
    match play {
        PlayState::Stopped => EditorRequest::Play,
        _ => EditorRequest::TogglePause,
    }
}

/// A command on the selected entity, from the Edit menu, the inspector or
/// a shortcut.
#[derive(Clone, Copy, Debug, PartialEq, Eq, Structural)]
pub enum EditCommand {
    Duplicate,
    Delete,
    Focus,
}

/// What an edit command on the selection does to the state.
pub open spec fn edit_step(s: EditorState, cmd: EditCommand) -> EditorState {
    match s.selected {
        Some(e) => match cmd {
            EditCommand::Duplicate => EditorState { request: Some(EditorRequest::Duplicate(e)), ..s },
            EditCommand::Delete => EditorState { request: Some(EditorRequest::Delete(e)), ..s },
            EditCommand::Focus => EditorState { focus_request: Some(e), ..s },
        },
        None => s,
    }
}

/// Applies an edit command to the selected entity; without a selection
/// nothing changes.
pub fn edit_selected(state: &mut EditorState, cmd: EditCommand)
    ensures
        *final(state) == edit_step(*old(state), cmd),
{
    if let Some(e) = state.selected {
        match cmd {
            EditCommand::Duplicate => {
                state.request = Some(EditorRequest::Duplicate(e));
            },
            EditCommand::Delete => {
                state.request = Some(EditorRequest::Delete(e));
            },
            EditCommand::Focus => {
                state.focus_request = Some(e);
            },
        }
    }
}

/// Keys pressed this frame that have a shortcut.
#[derive(Clone, Copy, Debug, PartialEq, Eq, Structural)]
pub struct KeyPresses {
    pub s: bool,
    pub o: bool,
    pub d: bool,
    pub q: bool,
    pub w: bool,
    pub e: bool,
    pub r: bool,
    pub f: bool,
    pub escape: bool,
    pub delete: bool,
    pub space: bool,
}

/// A file operation a shortcut asks for.
#[derive(Clone, Copy, Debug, PartialEq, Eq, Structural)]
pub enum ShortcutAction {
    Nothing,
    Save,
    Open,
}

/// The state and file operation that the keyboard shortcuts give.
/// Nothing happens while a text field has the keyboard. With Ctrl, S saves,
/// else O opens, else D duplicates the selection. Without Ctrl, the last
/// of Q/W/E/R pressed picks the tool, F focuses the selection, Escape
/// clears it, Delete deletes what is still selected, and Space starts or
/// pauses play (taking the place of a Delete request).
pub open spec fn shortcut_step(s: EditorState, keyboard_captured: bool, ctrl: bool, k: KeyPresses) -> (
    EditorState,
    ShortcutAction,
) {
    if keyboard_captured {
        (s, ShortcutAction::Nothing)
    } else if ctrl {
        if k.s {
            (s, ShortcutAction::Save)
        } else if k.o {
            (s, ShortcutAction::Open)
        } else if k.d {
            (edit_step(s, EditCommand::Duplicate), ShortcutAction::Nothing)
        } else {
            (s, ShortcutAction::Nothing)
        }
    } else {
        let tool = if k.r {
            Tool::Scale
        } else if k.e {
            Tool::Rotate
        } else if k.w {
            Tool::Move
        } else if k.q {
            Tool::Select
        } else {
            s.tool
        };
        let focus_request = if k.f && s.selected is Some {
            s.selected
        } else {
            s.focus_request
        };
        let selected = if k.escape {
            None
        } else {
            s.selected
        };
        let request = if k.space {
            Some(play_or_pause(s.play))
        } else if k.delete && selected is Some {
            Some(EditorRequest::Delete(selected.unwrap()))
        } else {
            s.request
        };
        (EditorState { tool, focus_request, selected, request, ..s }, ShortcutAction::Nothing)
    }
}

/// Law: each level has its own console toggle: an error line is shown only
/// with Error ticked, a warning only with Warn ticked, and info, debug and
/// trace lines only with Info ticked.
pub proof fn lemma_console_level_toggles(f: ConsoleFilter, line: LogLine)
    ensures
        line.level == LogLevel::Error && console_visible(f, line) ==> f.error,
        line.level == LogLevel::Warn && console_visible(f, line) ==> f.warn,
        (line.level == LogLevel::Info || line.level == LogLevel::Debug || line.level == LogLevel::Trace)
            && console_visible(f, line) ==> f.info,
{
}

/// Law: with the keyboard free and no Ctrl, a tool key picks its own tool:
/// Q the select tool, W move, E rotate, R scale (pressed alone among them).
pub proof fn lemma_tool_keys(s: EditorState, k: KeyPresses)
    ensures
        k.q && !k.w && !k.e && !k.r ==> shortcut_step(s, false, false, k).0.tool == Tool::Select,
        k.w && !k.q && !k.e && !k.r ==> shortcut_step(s, false, false, k).0.tool == Tool::Move,
        k.e && !k.q && !k.w && !k.r ==> shortcut_step(s, false, false, k).0.tool == Tool::Rotate,
        k.r && !k.q && !k.w && !k.e ==> shortcut_step(s, false, false, k).0.tool == Tool::Scale,
        !k.q && !k.w && !k.e && !k.r ==> shortcut_step(s, false, false, k).0.tool == s.tool,
{
}

/// Law: the other shortcuts. A captured keyboard changes nothing. Ctrl+S
/// saves, Ctrl+O (without S) opens, Ctrl+D (alone) duplicates the selection.
/// Without Ctrl, F focuses the selection, Delete deletes it (unless Escape
/// or Space is pressed too), and Space starts play when stopped and toggles
/// pause otherwise.
pub proof fn lemma_other_shortcuts(s: EditorState, ctrl: bool, k: KeyPresses)
    ensures
        shortcut_step(s, true, ctrl, k) == (s, ShortcutAction::Nothing),
        k.s ==> shortcut_step(s, false, true, k) == (s, ShortcutAction::Save),
        !k.s && k.o ==> shortcut_step(s, false, true, k) == (s, ShortcutAction::Open),
        !k.s && !k.o && k.d && s.selected is Some ==> shortcut_step(s, false, true, k).0.request == Some(
            EditorRequest::Duplicate(s.selected.unwrap()),
        ),
        k.f && s.selected is Some ==> shortcut_step(s, false, false, k).0.focus_request == s.selected,
        k.delete && !k.escape && !k.space && s.selected is Some ==> shortcut_step(s, false, false, k).0.request
            == Some(EditorRequest::Delete(s.selected.unwrap())),
        k.space && s.play == PlayState::Stopped ==> shortcut_step(s, false, false, k).0.request == Some(
            EditorRequest::Play,
        ),
        k.space && s.play != PlayState::Stopped ==> shortcut_step(s, false, false, k).0.request == Some(
            EditorRequest::TogglePause,
        ),
        shortcut_step(s, false, false, k).1 == ShortcutAction::Nothing,
        !k.escape ==> shortcut_step(s, false, false, k).0.selected == s.selected,
{
}

/// Law: the console search keeps a line exactly when its message or
/// target contains the search text (in lower case), among the lines whose
/// level is shown.
pub proof fn lemma_console_search(f: ConsoleFilter, line: LogLine)
    requires
        lowercase(f.search@).len() > 0,
    ensures
        console_visible(f, line) <==> level_shown(f, line.level) && (occurs_in(
            lowercase(f.search@),
            lowercase(line.message@),
        ) || occurs_in(lowercase(f.search@), lowercase(line.target@))),
{
}

/// Law: the toolbar's play button starts play when stopped and otherwise
/// toggles pause; the pause button shows only while playing and the stop
/// button is enabled unless stopped.
pub proof fn lemma_toolbar_buttons(play: PlayState)
    ensures
        play == PlayState::Stopped ==> play_or_pause(play) == EditorRequest::Play,
        play != PlayState::Stopped ==> play_or_pause(play) == EditorRequest::TogglePause,
        play == PlayState::Stopped ==> play_label_text(play) == "Play"@,
        play == PlayState::Paused ==> play_label_text(play) == "Resume"@,
{
}

/// Law: an add-component entry removes a component the entity has and adds
/// one it lacks; edit commands do nothing without a selection.
pub proof fn lemma_checklist_and_edit(s: EditorState, cmd: EditCommand)
    ensures
        s.selected is None ==> edit_step(s, cmd) == s,
        s.selected is Some && cmd == EditCommand::Delete ==> edit_step(s, cmd).request == Some(
            EditorRequest::Delete(s.selected.unwrap()),
        ),
        s.selected is Some && cmd == EditCommand::Duplicate ==> edit_step(s, cmd).request == Some(
            EditorRequest::Duplicate(s.selected.unwrap()),
        ),
        s.selected is Some && cmd == EditCommand::Focus ==> edit_step(s, cmd).focus_request == s.selected,
{
}

/// Law: Escape pressed together with Delete clears the selection and
/// deletes nothing.
pub proof fn lemma_escape_blocks_delete(s: EditorState, k: KeyPresses)
    requires
        k.escape,
        !k.space,
    ensures
        shortcut_step(s, false, false, k).0.selected is None,
        shortcut_step(s, false, false, k).0.request == s.request,
{
}

/// Law: the toolbar's play button and the Space key ask for the same thing.
pub proof fn lemma_space_matches_play_button(s: EditorState, k: KeyPresses)
    requires
        k.space,
    ensures
        shortcut_step(s, false, false, k).0.request == Some(play_or_pause(s.play)),
{
}

/// Keyboard shortcuts: updates the state and returns the file operation
/// the caller must carry out.
pub fn shortcuts(state: &mut EditorState, keyboard_captured: bool, ctrl: bool, keys: KeyPresses) -> (r:
    ShortcutAction)
    ensures
        (*final(state), r) == shortcut_step(*old(state), keyboard_captured, ctrl, keys),
{
    if keyboard_captured {
        return ShortcutAction::Nothing;
    }
    if ctrl && keys.s {
        ShortcutAction::Save
    } else if ctrl && keys.o {
        ShortcutAction::Open
    } else if ctrl && keys.d {
        edit_selected(state, EditCommand::Duplicate);
        ShortcutAction::Nothing
    } else if ctrl {
        ShortcutAction::Nothing
    } else {
        let tool = if keys.r {
            Tool::Scale
        } else if keys.e {
            Tool::Rotate
        } else if keys.w {
            Tool::Move
        } else if keys.q {
            Tool::Select
        } else {
            state.tool
        };
        let focus_request = if keys.f && state.selected.is_some() {
            state.selected
        } else {
            state.focus_request
        };
        // Escape clears the selection before Delete looks at it.
        let selected = if keys.escape {
            None
        } else {
            state.selected
        };
        let request = if keys.space {
            Some(
                match state.play {
                    PlayState::Stopped => EditorRequest::Play,
                    _ => EditorRequest::TogglePause,
                },
            )
        } else if keys.delete && selected.is_some() {
            Some(EditorRequest::Delete(selected.unwrap()))
        } else {
            state.request
        };
        state.tool = tool;
        state.focus_request = focus_request;
        state.selected = selected;
        state.request = request;
        ShortcutAction::Nothing
    }
}

/// What the toolbar shows and what its play controls ask for.
#[derive(Clone, Copy, Debug)]
pub struct ToolbarModel {
    /// Caption of the play button.
    pub play_label: &'static str,
    /// Request of the play button.
    pub play_request: EditorRequest,
    /// The separate pause button is shown.
    pub show_pause: bool,
    /// The stop button is enabled.
    pub stop_enabled: bool,
    /// The hint about dragging in the game view is shown.
    pub show_tool_hint: bool,
    /// Mode caption at the right end.
    pub mode_label: &'static str,
}

/// Caption of the play button for each play state.
pub open spec fn play_label_text(play: PlayState) -> Seq<char> {
    match play {
        PlayState::Stopped => "Play"@,
        PlayState::Playing => "Playing"@,
        PlayState::Paused => "Resume"@,
    }
}

/// Mode caption of the toolbar for each play state.
pub open spec fn mode_label_text(play: PlayState) -> Seq<char> {
    match play {
        PlayState::Stopped => "Editor mode"@,
        PlayState::Playing => "PLAY MODE"@,
        PlayState::Paused => "PAUSED"@,
    }
}

/// The toolbar for the given play state and tool.
pub fn toolbar(play: PlayState, tool: Tool) -> (m: ToolbarModel)
    ensures
        m.play_label@ == play_label_text(play),
        m.play_request == play_or_pause(play),
        m.show_pause == (play == PlayState::Playing),
        m.stop_enabled == (play != PlayState::Stopped),
        m.show_tool_hint == (tool != Tool::Select),
        m.mode_label@ == mode_label_text(play),
{
    let play_label = match play {
        PlayState::Stopped => "Play",
        PlayState::Playing => "Playing",
        PlayState::Paused => "Resume",
    };
    let mode_label = match play {
        PlayState::Stopped => "Editor mode",
        PlayState::Playing => "PLAY MODE",
        PlayState::Paused => "PAUSED",
    };
    let play_request = match play {
        PlayState::Stopped => EditorRequest::Play,
        _ => EditorRequest::TogglePause,
    };
    ToolbarModel {
        play_label,
        play_request,
        show_pause: play == PlayState::Playing,
        stop_enabled: play != PlayState::Stopped,
        show_tool_hint: tool != Tool::Select,
        mode_label,
    }
}

/// Caption of the game view's play-state label.
pub open spec fn play_status_text(play: PlayState) -> Seq<char> {
    match play {
        PlayState::Stopped => "Stopped"@,
        PlayState::Playing => "▶ PLAYING"@,
        PlayState::Paused => "PAUSED"@,
    }
}

/// Caption of the game view's play-state label.
pub fn play_status_label(play: PlayState) -> (r: &'static str)
    ensures
        r@ == play_status_text(play),
{
    match play {
        PlayState::Stopped => "Stopped",
        PlayState::Playing => "▶ PLAYING",
        PlayState::Paused => "PAUSED",
    }
}

/// The request of an add-component list entry: remove the component when
/// the entity has it, add it otherwise.
pub fn checklist_request(entity: u64, kind: CompKind, has: bool) -> (r: EditorRequest)
    ensures
        r == if has {
            EditorRequest::RemoveComponent(entity, kind)
        } else {
            EditorRequest::AddComponent(entity, kind)
        },
{
    if has {
        EditorRequest::RemoveComponent(entity, kind)
    } else {
        EditorRequest::AddComponent(entity, kind)
    }
}

/// Text of an add-component list entry: a check mark or a plus, then the
/// component's name.
pub fn checklist_text(kind: CompKind, has: bool) -> (r: String)
    ensures
        r@ == (if has {
            "✓"@
        } else {
            "+"@
        }) + seq![' '] + kind.spec_label(),
{
    let mut r = String::new();
    push_str(&mut r, if has { "✓" } else { "+" });
    push_char(&mut r, ' ');
    push_str(&mut r, kind.label());
    r
}

/// The name shown for an entity: its name, or `Entity <index>`.
pub fn entity_label(index: u32, name: Option<&str>) -> (r: String)
    ensures
        r@ == match name {
            Some(n) => n@,
            None => "Entity "@ + decimal(index as nat),
        },
{
    let mut r = String::new();
    match name {
        Some(n) => {
            push_str(&mut r, n);
        },
        None => {
            push_str(&mut r, "Entity ");
            push_decimal(&mut r, index as u64);
        },
    }
    r
}

/// The level flag of the console filter that shows lines of `level`:
/// errors and warnings have their own, everything else goes with info.
pub open spec fn level_shown(f: ConsoleFilter, level: LogLevel) -> bool {
    match level {
        LogLevel::Error => f.error,
        LogLevel::Warn => f.warn,
        _ => f.info,
    }
}

/// The console shows a line whose level is enabled and, when the search
/// text is not empty, whose message or target contains it, compared in
/// lower case.
pub open spec fn console_visible(f: ConsoleFilter, line: LogLine) -> bool {
    let needle = lowercase(f.search@);
    &&& level_shown(f, line.level)
    &&& (needle.len() == 0 || occurs_in(needle, lowercase(line.message@)) || occurs_in(
        needle,
        lowercase(line.target@),
    ))
}

/// Whether the console shows `line` under `filter`.
pub fn console_shows(filter: &ConsoleFilter, line: &LogLine) -> (r: bool)
    ensures
        r == console_visible(*filter, *line),
        filter.search@.len() == 0 ==> r == level_shown(*filter, line.level),
        line.level == LogLevel::Error ==> (r ==> filter.error),
        line.level == LogLevel::Warn ==> (r ==> filter.warn),
        line.level == LogLevel::Info || line.level == LogLevel::Debug || line.level == LogLevel::Trace ==> (r
            ==> filter.info),
        filter.search@.len() == 0 && line.level == LogLevel::Error ==> r == filter.error,
        filter.search@.len() == 0 && line.level == LogLevel::Warn ==> r == filter.warn,
        filter.search@.len() == 0 && (line.level == LogLevel::Info || line.level == LogLevel::Debug
            || line.level == LogLevel::Trace) ==> r == filter.info,
{
    let enabled = match line.level {
        LogLevel::Error => filter.error,
        LogLevel::Warn => filter.warn,
        _ => filter.info,
    };
    if !enabled {
        return false;
    }
    let needle_text = to_lowercase(filter.search.as_str());
    let needle = chars_of(needle_text.as_str());
    if needle.len() == 0 {
        return true;
    }
    let message_text = to_lowercase(line.message.as_str());
    let message = chars_of(message_text.as_str());
    if contains_chars(&message, &needle) {
        return true;
    }
    let target_text = to_lowercase(line.target.as_str());
    let target = chars_of(target_text.as_str());
    contains_chars(&target, &needle)
}

/// The console's text for a line: time, short target right-aligned in five
/// characters between brackets, then the message.
pub open spec fn console_text(line: LogLine) -> Seq<char> {
    line.time@ + " ["@ + pad_left(short_target(line.target@), 5, ' ') + "] "@ + line.message@
}

/// The console's text for a line.
pub fn console_line_text(line: &LogLine) -> (r: String)
    ensures
        r@ == console_text(*line),
{
    let short = line.target_short();
    let short_chars = chars_of(short.as_str());
    let mut r = String::new();
    push_str(&mut r, line.time.as_str());
    push_str(&mut r, " [");
    push_right_aligned(&mut r, &short_chars, 5);
    push_str(&mut r, "] ");
    push_str(&mut r, line.message.as_str());
    assert(r@ =~= console_text(*line));
    r
}

/// Whether the hierarchy lists an entity as a top-level row of its tree:
/// it has no parent and is neither editor-internal nor a window.
pub fn hierarchy_root_row(has_parent: bool, internal: bool, window: bool) -> (r: bool)
    ensures
        r == (!has_parent && !internal && !window),
{
    !has_parent && !internal && !window
}

/// Whether the hierarchy search considers an entity at all: editor-internal
/// entities and windows are never listed.
pub fn hierarchy_searchable(internal: bool, window: bool) -> (r: bool)
    ensures
        r == (!internal && !window),
{
    !internal && !window
}

/// The characters of `v` without leading and trailing whitespace.
pub fn trim_chars(v: &Vec<char>) -> (r: Vec<char>)
    ensures
        r@ == trimmed(v@),
{
    let n = v.len();
    let mut lo: usize = 0;
    assert(v@.skip(0) =~= v@);
    while lo < n && is_whitespace(v[lo])
        invariant
            n == v@.len(),
            lo <= n,
            trim_start(v@) == lo + trim_start(v@.skip(lo as int)),
        decreases n - lo,
    {
        assert(v@.skip(lo as int).drop_first() =~= v@.skip(lo + 1));
        assert(v@.skip(lo as int)[0] == v@[lo as int]);
        lo = lo + 1;
    }
    if lo == n {
        assert(v@.skip(n as int).len() == 0);
    }
    let mut hi: usize = n;
    assert(v@.take(n as int) =~= v@);
    while hi > 0 && is_whitespace(v[hi - 1])
        invariant
            n == v@.len(),
            hi <= n,
            trim_end(v@) == trim_end(v@.take(hi as int)),
        decreases hi,
    {
        assert(v@.take(hi as int).drop_last() =~= v@.take(hi - 1));
        hi = hi - 1;
    }
    if hi > 0 {
        assert(v@.take(hi as int).last() == v@[hi - 1]);
    }
    let mut r: Vec<char> = Vec::new();
    if lo < hi {
        let mut i = lo;
        while i < hi
            invariant
                lo <= i <= hi <= n,
                n == v@.len(),
                r@ == v@.subrange(lo as int, i as int),
            decreases hi - i,
        {
            r.push(v[i]);
            i = i + 1;
            assert(r@ =~= v@.subrange(lo as int, i as int));
        }
    }
    assert(r@ =~= trimmed(v@));
    r
}

/// The text the hierarchy search compares against: the search box trimmed
/// and in lower case.
pub fn hierarchy_filter_key(filter: &str) -> (r: Vec<char>)
    ensures
        r@ == lowercase(trimmed(filter@)),
        trimmed(filter@).len() == 0 ==> r@.len() == 0,
{
    let v = chars_of(filter);
    let t = trim_chars(&v);
    let s = string_of(&t);
    let lower = to_lowercase(s.as_str());
    chars_of(lower.as_str())
}

/// The hierarchy search shows an entity whose label, in lower case,
/// contains the search key.
pub fn hierarchy_label_matches(label: &str, key: &Vec<char>) -> (r: bool)
    ensures
        r == occurs_in(key@, lowercase(label@)),
{
    let lower = to_lowercase(label);
    let l = chars_of(lower.as_str());
    contains_chars(&l, key)
}

/// An entry of an entity's context menu in the hierarchy.
#[derive(Clone, Copy, Debug, PartialEq, Eq, Structural)]
pub enum ContextAction {
    CreateChild(SpawnKind),
    Focus,
    Rename,
    Duplicate,
    AttachToSelected,
    DetachToRoot,
    Delete,
}

/// What choosing a context-menu entry for `entity` does to the state.
pub open spec fn context_step(s: EditorState, entity: u64, action: ContextAction) -> EditorState {
    match action {
        ContextAction::CreateChild(kind) => EditorState {
            request: Some(EditorRequest::SpawnChild(entity, kind)),
            ..s
        },
        ContextAction::Focus => EditorState { focus_request: Some(entity), selected: Some(entity), ..s },
        ContextAction::Rename => EditorState { rename_target: Some(entity), ..s },
        ContextAction::Duplicate => EditorState { request: Some(EditorRequest::Duplicate(entity)), ..s },
        ContextAction::AttachToSelected => EditorState {
            request: Some(EditorRequest::Reparent { child: entity, new_parent: s.selected }),
            ..s
        },
        ContextAction::DetachToRoot => EditorState {
            request: Some(EditorRequest::Reparent { child: entity, new_parent: None }),
            ..s
        },
        ContextAction::Delete => EditorState { request: Some(EditorRequest::Delete(entity)), ..s },
    }
}

/// Whether "Attach to Selected" is offered for `entity`: not for the
/// selected entity itself.
pub fn attach_enabled(state: &EditorState, entity: u64) -> (r: bool)
    ensures
        r == (state.selected != Some(entity)),
{
    state.selected != Some(entity)
}

/// Carries out a context-menu entry for `entity`.
pub fn context_menu(state: &mut EditorState, entity: u64, action: ContextAction)
    ensures
        *final(state) == context_step(*old(state), entity, action),
{
    match action {
        ContextAction::CreateChild(kind) => {
            state.request = Some(EditorRequest::SpawnChild(entity, kind));
        },
        ContextAction::Focus => {
            state.focus_request = Some(entity);
            state.selected = Some(entity);
        },
        ContextAction::Rename => {
            state.rename_target = Some(entity);
        },
        ContextAction::Duplicate => {
            state.request = Some(EditorRequest::Duplicate(entity));
        },
        ContextAction::AttachToSelected => {
            state.request = Some(EditorRequest::Reparent { child: entity, new_parent: state.selected });
        },
        ContextAction::DetachToRoot => {
            state.request = Some(EditorRequest::Reparent { child: entity, new_parent: None });
        },
        ContextAction::Delete => {
            state.request = Some(EditorRequest::Delete(entity));
        },
    }
}

/// Law: attaching an entity to itself through its context menu is never
/// offered, so the request it would make is refused anyway.
pub proof fn lemma_attach_to_selected_not_self(s: EditorState, entity: u64)
    requires
        s.selected != Some(entity),
    ensures
        context_step(s, entity, ContextAction::AttachToSelected).request != Some(
            EditorRequest::Reparent { child: entity, new_parent: Some(entity) },
        ),
{
}

/// Visibility of an entity as the editor shows it.
#[derive(Clone, Copy, Debug, PartialEq, Eq, Structural)]
pub enum EntityVisibility {
    Inherited,
    Hidden,
    Visible,
}

/// The visibility to set after the user left the visibility checkbox
/// `shown`: the checkbox starts ticked unless the entity is hidden; when
/// it changed, the entity becomes visible or hidden accordingly; otherwise
/// nothing is set.
pub fn visibility_change(current: Option<EntityVisibility>, shown: bool) -> (r: Option<EntityVisibility>)
    ensures
        r == if shown == (current == Some(EntityVisibility::Hidden)) {
            Some(
                if shown {
                    EntityVisibility::Visible
                } else {
                    EntityVisibility::Hidden
                },
            )
        } else {
            None
        },
{
    let hidden = match current {
        Some(EntityVisibility::Hidden) => true,
        _ => false,
    };
    if shown == hidden {
        Some(
            if shown {
                EntityVisibility::Visible
            } else {
                EntityVisibility::Hidden
            },
        )
    } else {
        None
    }
}

impl EditorState {
    /// Loads the inspector's name field when the selection has changed:
    /// the selected entity's name, or empty when it has none.
    pub fn sync_name_buffer(&mut self, selected: u64, name: Option<&str>)
        ensures
            old(self).name_buf_entity != Some(selected) ==> {
                &&& final(self).name_buf@ == match name {
                    Some(n) => n@,
                    None => Seq::<char>::empty(),
                }
                &&& *final(self) == (EditorState {
                    name_buf: final(self).name_buf,
                    name_buf_entity: Some(selected),
                    ..*old(self)
                })
            },
            old(self).name_buf_entity == Some(selected) ==> *final(self) == *old(self),
    {
        if self.name_buf_entity != Some(selected) {
            let mut buf = String::new();
            if let Some(n) = name {
                crate::text::push_str(&mut buf, n);
            }
            assert(buf@ =~= match name {
                Some(n) => n@,
                None => Seq::<char>::empty(),
            });
            self.name_buf = buf;
            self.name_buf_entity = Some(selected);
        }
    }

    /// The inspector's name field was edited: returns the new name for the
    /// selected entity and marks the scene changed.
    pub fn name_edited(&mut self) -> (r: String)
        ensures
            r@ == old(self).name_buf@,
            *final(self) == (EditorState { scene_dirty: true, ..*old(self) }),
    {
        self.scene_dirty = true;
        self.name_buf.clone()
    }

    /// Ends an inline rename in the hierarchy: returns the typed name,
    /// empties the rename field and ends renaming.
    pub fn commit_rename(&mut self) -> (r: String)
        ensures
            r@ == old(self).rename_buf@,
            final(self).rename_buf@ == Seq::<char>::empty(),
            *final(self) == (EditorState {
                rename_buf: final(self).rename_buf,
                rename_target: None,
                ..*old(self)
            }),
    {
        let mut name = String::new();
        std::mem::swap(&mut name, &mut self.rename_buf);
        self.rename_target = None;
        name
    }
}

} // verus!

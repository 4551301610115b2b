# bevy_editor

A visual scene editor for the Bevy engine, split in two:

- `src/` — the editor's rules, verified with Verus:
  - `log_layer` — console log lines: uptime stamps, short targets, the
    newest-3000-lines buffer;
  - `editor` — editor state, the request pipeline (`handle_request` decides
    the state change and the world action), play/pause/stop with the scene
    snapshot, the transform tool's drag decisions;
  - `hierarchy` — the parent structure, the subtree test and the proof that
    an accepted reparent never creates a cycle in a hierarchy that has none;
  - `ui` — what menus, toolbar, context menu, inspector, shortcuts and the
    console/hierarchy filters decide;
  - `assets` — asset kinds and the order of the asset browser's listing;
  - `duplicate` — the plan for copying a subtree (each entity before its
    children, every copy under the copy of its parent), proved to mirror
    the source subtree exactly;
  - `components`, `scene_io` — spawn plans, demo ring, names and attach
    points of duplicated entities;
  - `text` — character-level string helpers with exact specifications.
- `app/` — the Bevy/egui program: rendering, windows, file dialogs, scene
  files, camera and picking (floating point), which carries out what the
  library decides.

`tests/` exercise the library on concrete values.

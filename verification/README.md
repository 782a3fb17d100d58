# nog

nog is a tiling window manager. This crate holds its core, verified with
Verus: every function in `src/` carries a contract that Verus proves, but
for three small trusted wrappers whose contracts Verus takes on trust:
`text::push_char` (`String::push`), `graph::node_slot` (`HashMap::get_mut`)
and `menu::fuzzy_score` (the fuzzy matcher of the `fuzzy-matcher` crate).

## Layout

- `src/graph.rs`, `graph_laws.rs`, `delete_laws.rs`, `graph_text.rs`: the
  layout tree of a workspace (groups and windows), what each operation does to
  it, which operations keep it a well-formed tree, and how it is printed.
- `src/workspace.rs`, `window_manager.rs`, `render.rs`, `render_laws.rs`:
  workspaces, the window manager of a display, and the layout of a workspace
  on the screen (every window inside the area, no two overlapping, each window
  of the workspace placed).
- `src/display.rs`, `state.rs`: displays and the lookups among them.
- `src/action.rs`, `event.rs`: requests to nog and the decisions of its event
  loop.
- `src/key.rs`, `modifiers.rs`, `key_combination.rs`, `key_laws.rs`,
  `keybinding.rs`, `keybinding_event_loop.rs`: keys, key combinations and their
  text form, and the bookkeeping of the keyboard hook.
- `src/protocol.rs`, `client.rs`, `server.rs`: the IPC messages, their framing
  and the replies.
- `src/session.rs`, `session_laws.rs`: saving and loading the workspaces.
- `src/menu.rs`: the launcher menu (filtering, ranking, selection).
- `src/notification.rs`, `bar.rs`, `config.rs`, `constants.rs`, `direction.rs`,
  `platform.rs`, `text.rs`, `window_event_loop.rs`: the smaller parts.
- `tests/`: tests on concrete values.
- `app/`: what Verus does not see: the command line client, sockets, files,
  threads and locks, and the serde copies of the protocol types.

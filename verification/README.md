# scrawler

Applications declare their screens, dialogs, state and actions in an XML
manifest. The manifest becomes a typed semantic tree that people use through
a native window and that agents use through the Model Context Protocol
(JSON-RPC over stdio or HTTP). Lua handlers answer actions with effects.

## Layout

- `src/` is the library, written in Verus. Its functions carry contracts,
  the calls into outside crates stand behind small trusted wrappers that
  state what those crates document, and the properties that span several
  functions stand as public proof functions named `law_*`.
  - `manifest`, `xml`, `literal`: reading and validating a manifest.
  - `tree`: finding and editing nodes of the semantic tree.
  - `mcp`, `mcp_tools`, `http`: the protocol server's decisions, from a
    request line or an HTTP request to the answer and the new state.
  - `runtime`: the effects that handlers return, and their validation.
  - `ui`: the window's state machine (screens, dialogs, forms, toasts).
  - `storage`: the key-value store and the sandboxed file area.
  - `config`, `shortcut`, `icons`, `font`, `bundle`, `connect`: settings,
    keyboard shortcuts, the icon font, packaging texts and connection
    snippets.
  - `json`, `collections`: JSON values and ordered association lists.
- `app/` is the program around it: the command line, the window (egui),
  the Lua runtime (mlua), file and network I/O, and packaging.
- `tests/` runs the library on concrete values.

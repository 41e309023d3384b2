# fogwatch

A terminal viewer for the live logs of Cloudflare Workers, built around a
library whose logic is verified with Verus.

- `src/` is the verified library:
  - `app.rs`: the interface state, its key bindings, the status filters and
    the status statistics, with the laws that relate them;
  - `filters.rs`: the server-side filters of a tail session;
  - `api.rs`: request addresses, the reading of API answers, error reports,
    and the keep-alive rule of the event stream;
  - `config.rs`: settings, their defaults, and the choice of settings file
    and credentials;
  - `render.rs` and `highlight.rs`: the text and colours that the screens
    show;
  - `json.rs`, `types.rs`, `text.rs`: the data model and text helpers.
- `app/` is the program: command line, settings file, HTTP and WebSocket
  I/O, and drawing with ratatui.
- `tests/` runs the library on concrete values.

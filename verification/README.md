# pake_notification

Decides what happens to the notifications of a web page that runs in desktop
windows: whether an id is acceptable, whether a message is another window's
repeat and is not shown again, and which window a click belongs to. The
decisions are executable Rust whose contracts Verus proves.

- `src/id.rs`: notification ids and the script that hands a click to the page
- `src/registry.rs`: the registry of messages, which collapses repeats
- `src/send.rs`: raising and closing a notification, step by step
- `src/native.rs`: the native notification center's identifiers and requests
- `src/click.rs`: the window that a click goes to
- `src/laws.rs`: what holds of these together
- `src/runs.rs`: what holds of a run of notifications
- `src/search.rs`, `src/text.rs`, `src/time.rs`: first matches, text, the clock

`app/` is the Tauri side: it shows banners, lists windows, evaluates scripts and
holds the one registry of the process. The native center exists on macOS only.

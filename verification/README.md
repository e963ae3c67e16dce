# rift

The decision core of a tiling window manager, written in Verus, with the system
around it in ordinary Rust.

## Layout

- `src/` is the library. Its functions are proved against their contracts, and
  laws that span several of them stand as public proof functions.
  - `collections`, `ids`, `common` — small maps and sets, identifiers, time, the
    debounce clock, text.
  - `sys` — plain-value counterparts of what the system hands over: geometry,
    keys, mouse state.
  - `model::hidden_window_placement` — where windows of inactive workspaces are
    parked.
  - `layout_engine` — which window sits where, and the snapshot of it.
  - `actor::event_tap` — what happens on each input event and request.
  - `actor::reactor` — the mirror of the desktop and the questions asked of it
    (`mod.rs`), the commands (`command`), saving and restoring the layout
    (`persistence`), and the border process (`border`).
- `app/` performs what the library asks for: the input run loop, the snapshot
  file, signals, delayed work, and the wire formats.
- `tests/` runs the library.

## Conventions

**Units.** Coordinates are whole numbers of units, 48 to a pixel. Halves, thirds
and quarters of pixels, and every point that a cursor warp can land on in a
whole-pixel frame, are exact. `app/geometry.rs` converts.

**Samples in, effects out.** The library reads no clock, cursor or window server.
What was sampled is a field or an argument, and what has to be done outside is
appended to an outbox in the order in which it is to be done. A driver that
reports back (a warp that succeeded, a tap that was installed) calls the method
that the action names.

**Models.** Each stateful type has a mathematical model as its view
(`StateModel`, `TapModel`, `EngineModel`, `ReactorModel`, ...). A method's
contract says which function of the old model the new one is: `after_event`,
`after_request`, `after_command`, `after_adoption` and so on. Functions whose
names begin with `law_` state what holds of these across calls.

# bezel

Edge gestures for Linux trackpads. Touches that start in an edge zone of the
trackpad are hidden from a virtual trackpad and turned into swipes or taps
that run shell commands; all other touches pass through.

- `src/` is the library, each function with its proven contract:
  - `events.rs`: input events as plain values, and predicates on event codes;
  - `gesture.rs`: zones, directions, gesture classification, display messages;
  - `config.rs`: device and display settings, the gesture binding table and
    its defaults, and the resolution of a gesture to a command;
  - `dispatcher.rs`: how a gesture's message is shown;
  - `tracker.rs`: the multitouch frame tracker, specified frame by frame;
  - `laws.rs`: properties of the tracker over every state and frame.
- `app/` is the daemon: configuration loading and hot reload, device access
  through evdev and uinput, the floating-point measurements, the async
  dispatcher, and `main`.
- `tests/` exercises the library on concrete values.

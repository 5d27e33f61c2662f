# OpenLogi

A configurator for Logitech mice: button and gesture bindings, per-application
profiles, DPI presets, an OS-level mouse hook and a background agent.

- `src/` is the library. Every rule the program follows is stated there as a
  contract and proved by Verus; what a rule promises across several calls stands
  beside it as a proof function named `law_...`.
- `app/` is the program around it: threads, device nodes, sockets, windows. It
  reads what the system says, asks the library, and does what it is told; it also
  picks the key a device's settings are filed under, and keeps the current DPI
  preset of a device that merely answered again.
- `tests/` runs the library on concrete values.

| module   | what it decides |
|----------|-----------------|
| `path`, `paths` | how paths are written, and the application directories |
| `config`, `binding` | which action a button or gesture has |
| `device` | what is known of receivers and devices |
| `hid`    | which HID nodes speak HID++, and what a receiver lists |
| `hook`   | what an input event means, and whether it reaches the desktop |
| `agent`  | the agent's runtime state, autostart and self-update |
| `gui`    | images, DPI presets, permissions, the single instance, updates |

Four calls into other crates and the standard library are taken on trust, each
behind a wrapper whose comment says what is claimed of it: the kind of an
`evdev` event, the states and the interface name of the wlroots toplevel
protocol, and UTF-8 decoding.

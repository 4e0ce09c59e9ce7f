# Qwerty

Turn the desk around a laptop into tap zones: Qwerty listens through the
microphone, recognises where on the desk a tap landed, and runs the actions that
were assigned to that spot.

The project has two parts.

- `src/` is the library, in Verus. It holds the rules of the application, each
  stated in a contract and proved: when a sound is a tap, how calibration samples
  become a classifier, what a classifier makes of a tap, how an evaluation is
  tallied and reported, what may be read from and written to disk, and how every
  screen moves from one state to the next.
- `app/` is the program around it: files, the microphone, the window and the
  services of the operating system, and all arithmetic on sound.

Numbers of sound are held in the library by their single-precision encoding
(`src/single.rs`). The library compares, orders and selects them exactly; what
needs rounding is measured in `app/` and handed in.

| Module | What it decides |
|---|---|
| `onset`, `features` | where a tap starts in the stream, and the layout of its features |
| `classifier` | training, validation, classification and rejection |
| `calibration` | judging the room and each tap, collecting samples, the leave-one-out check |
| `evaluation`, `soak` | tallies, reports and pass criteria |
| `profile`, `value`, `ids`, `clock`, `order`, `text`, `single` | stored data and what it is made of |
| `app_state` | profiles, settings and reports, step by step around file access |
| `audio`, `capture`, `capture_worker` | devices, buffers and what the listener tells |
| `platform`, `tray`, `hotkeys` | actions, keys, screenshots, tray and hotkey |
| `ui` | the screens |

The contracts of outside calls (`uuid`, `serde_json`, `chrono`, `png` and a few
functions of std) are taken on trust; each is a small function or declaration
whose doc comment says what is claimed.

Which calls an action or a chain of actions makes to the operating system, in
which order and how often, is proved against the log of `PlatformActions`
(`src/platform/mod.rs`); what the system does with a call is left to the
implementation in `app/`.

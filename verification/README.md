# crosslink

One keyboard and one mouse for two machines, Windows and macOS.

The library under `src/` decides; the program under `app/` touches sockets, files, screens and
input devices, hands plain values to the library and carries out the actions that come back.

The functions of the library state in contracts what they return, and Verus proves it of them. Two
parts are not proved. The functions of `net::primitives` call outside crates; what their contracts
say of those crates is taken on trust, and all other proofs rest on it.
`input::screen::set_cursor_pos`, which does nothing, returns nothing and has no contract.

| module | what it decides |
| --- | --- |
| `launch` | what the command line asks for |
| `switch` | edge switching: when the pointer passes to the other machine, and where it enters |
| `input::keycodes` | virtual keys of both platforms and USB HID usage ids |
| `input::capture` | which events a poll or a tapped event becomes; the logical cursor of seamless mode |
| `input::inject` | what a platform is asked to do for an event of the peer |
| `input::screen` | the screen of a platform without a backend |
| `net::primitives` | the cryptography that outside crates provide, and what is relied on of it |
| `net::crypto` | identity, handshake, frame encryption and replay protection |
| `net::protocol` | the messages |
| `net::transport` | frames, and what a message makes a side do |
| `net::course` | the course of a session: the greeting, what is sent when, what ends it |
| `binary64` | double precision arithmetic, computed with integers |
| `numeric`, `text` | integer conversions, numbers as text |

## Modes

- By default the server captures its keyboard and mouse and the client injects what it receives.
- `--switch`: the pointer roams. Each machine is used with its own devices; at the shared edge the
  pointer is handed to the other machine. No input travels.
- `--m4`: one logical cursor over both screens, driven by the mouse of the Windows server.

## Wire format

After the handshake every message is one frame: a length in four bytes, a counter in eight bytes,
both big endian, and the AES-256-GCM ciphertext with its tag. The nonce is four zero bytes and the
counter. A receiver takes a counter only if it is above the last one that it accepted.

## What is proved beyond single functions

Public proof functions state what holds of several calls together, for example
`switch::there_is_one_pointer`, `switch::pointer_does_not_rebound`,
`switch::transfers_alternate_with_arrivals`, `switch::crossing_back_needs_distance`,
`switch::there_and_back_is_exact`, `input::capture::seamless::one_cursor_is_visible`,
`input::capture::run::input_is_sent_on_visits_only`,
`input::capture::run::key_events_alternate`, `net::course::greeting_goes_first`,
`input::capture::seamless::stream_is_throttled`, `net::crypto::accepted_counters_increase`,
`net::crypto::nonces_are_distinct` and `net::transport::switch_mode_forwards_no_input`.

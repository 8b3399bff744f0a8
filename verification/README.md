# radio

The logic of an FM radio with a network connection, written in Verus: every
function of the library states what it does in a contract, and the contracts are
proved.

The radio has a Si4703 receiver on an I2C bus, a rotary knob with a push button,
a small colour display, a flash chip and a wireless interface. It decodes RDS,
follows alternative frequencies, keeps presets and a log of what was listened to,
serves a web console, answers for `esp-radio.local`, asks for the time, and
fetches firmware updates.

## Layout

| Path | What it holds |
|------|---------------|
| `src/si4703/` | registers of the receiver, tune, seek, scan and sweep, the RDS decoder |
| `src/tasks/` | what a command, a refresh, a probe of alternatives and the knob do |
| `src/state.rs`, `src/presets.rs`, `src/preset_codec.rs` | shared state, presets and their record on flash |
| `src/ota/` | download and staging of a firmware image |
| `src/wifi_provision/` | credentials, the captive portal, joining a network |
| `src/web.rs`, `src/ui.rs`, `src/display.rs` | the web console and the screen |
| `src/mdns*.rs`, `src/clock/`, `src/ntp.rs` | host name and time |
| `src/diagnostics/`, `src/listening_log.rs` | self-test, watchdog, log |
| `src/ota_serve.rs` | the development server that hands out a firmware image |
| `app/` | ordinary Rust around the library |
| `tests/` | tests, run against the compiled library |

The library does no input or output. Work that alternates between the bus, the
flash chip or a socket and a decision is a step machine: it is told what happened
and says what to do next, and `app/` does it.

Proof functions named `law_*` state what holds of several functions together, such
as that presets which were written are read back, that a probe of alternatives
ends on the station it started from or on another transmitter of the same
programme, or that an update which reports success has been selected for the next
boot.

## What is believed without proof

- `String::push`, `core::str::from_utf8` and `Vec::capacity` of the standard
  library, as far as their contracts say.
- `qrcode::QrCode::new` and its renderer: that the drawing is a function of the
  bytes. Which drawing that is, is not stated.

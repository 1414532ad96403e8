//! Bridge core between an MQTT broker and a blink(1) notification light:
//! decoding of JSON command payloads, encoding of status payloads, and the
//! connection-resilient command loop as an explicit state machine. All
//! broker and device I/O lives outside this crate; the library only decides.

pub mod command;
pub mod config;
pub mod json;
pub mod machine;

pub use command::{Blink, Color, Command, DecodeError, DecodeErrorKind, decode, status_payload};
pub use config::Args;
pub use machine::{Action, Event, Machine, Op, plan, RECONNECT_BUDGET, RECONNECT_INTERVAL_MS, KEEP_ALIVE_SECS};

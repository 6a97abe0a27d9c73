//! The client side of watchwoman, a file watching service that speaks the watchman protocol.
//!
//! The library decides and computes; it opens no socket and no file.
//!
//! - [`command`] holds the command line and what a run is to do;
//! - [`pdu`] turns commands into requests, with paths made absolute by [`paths`];
//! - [`json`] turns JSON text into the values of [`value`] and back, over the ordered maps of
//!   [`order`];
//! - [`session`] leads the conversation with the daemon;
//! - [`status`] writes the status report, in the units of [`human`] and with the columns of
//!   [`text`];
//! - [`agent`] describes the LaunchAgent of the daemon;
//! - [`clock`] tells the time, and [`error`] what went wrong.

pub mod agent;
pub mod clock;
pub mod command;
pub mod error;
pub mod human;
pub mod json;
pub mod order;
pub mod paths;
pub mod pdu;
pub mod session;
pub mod status;
pub mod text;
pub mod value;

pub use clock::now_unix;
pub use command::{Cli, Command, Encoding, Shell};
pub use error::CliError;
pub use human::{format_bytes, format_count, format_duration, format_duration_ms, truncate_left};
pub use paths::watchwoman_state_dir;
pub use value::{Members, Value};

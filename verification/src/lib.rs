//! The protocol core of Nearby Connections: the offline wire format, its validator,
//! and the bandwidth upgrade that moves a connection from one medium to another.
//!
//! - [`wire`] splits a message into its fields, [`message`] turns fields into typed
//!   values, and [`proto`] says which fields each message has. [`wire_laws`] states the
//!   numbers under which they are written.
//! - [`mediums`] names the mediums over which two devices connect.
//! - [`frames`] builds and parses frames, and [`validator`] tells whether a parsed
//!   frame is one that a peer may send. [`frame_laws`] states what a peer reads in them.
//! - [`bwu`] holds the bandwidth upgrade: its state machine, the channels and handlers
//!   that it works with, and the owner that applies events to it one by one.
//! - [`text`] holds what the others need of strings and addresses.

pub mod bwu;
pub mod frame_laws;
pub mod frames;
pub mod mediums;
pub mod message;
pub mod proto;
pub mod text;
pub mod validator;
pub mod wire;
pub mod wire_laws;

pub use frames::{from_bytes, get_frame_type, ConnectionInfo, Exception, ServiceAddress};
pub use mediums::{Medium, WifiDirectAuthType};
pub use validator::ensure_valid_offline_frame;

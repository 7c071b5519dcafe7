//! The bandwidth upgrade: moving a connection from one medium to a better one.
//!
//! One side offers a medium that it has set up, the other side joins it and introduces
//! itself over the new channel. Both sides then move to the new channel and tell each
//! other on the prior one, which is closed when both have finished with it.
//!
//! [`manager`] holds the state machine, and [`model`] what each of its steps does, given
//! what the channels and handlers gave. [`laws`] states what holds of all of them,
//! [`offer_laws`] what comes of an offer, [`exchange`] what the two sides see of each other,
//! and [`handshake_laws`] how they end the prior channel.

pub mod actor;
pub mod channel;
pub mod channel_manager;
pub mod client;
pub mod exchange;
pub mod handler;
pub mod handler_map;
pub mod handshake_laws;
pub mod laws;
pub mod manager;
pub mod model;
pub mod offer_laws;
pub mod service_id;
pub mod str_map;
pub mod stream_channel;
pub mod testing;
pub mod wifi_hotspot;
pub mod wifi_lan;

pub use actor::{BwuActor, BwuCommand, BwuReply};
pub use channel::{DisconnectionReason, EndpointChannel, SafeDisconnectionResult};
pub use channel_manager::EndpointChannelManager;
pub use client::ClientProxy;
pub use handler::{BaseBwuHandler, BwuHandler, IncomingSocketConnection, MediumBwuHandler};
pub use handler_map::HandlerMap;
pub use manager::{BwuConfig, BwuManager};
pub use stream_channel::{Cipher, DuplexStream, Pipe, StreamChannel};
pub use wifi_hotspot::{FakeSoftAp, HotspotCreds, SoftAp, WifiHotspotBwuHandler};
pub use wifi_lan::{DialTarget, WifiLanBwuHandler};

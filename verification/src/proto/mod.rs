//! The messages of the wire format.
//!
//! Each message is a struct of optional and repeated fields. Its view, the struct
//! of the same name with `View` at its end, holds the same fields as mathematical
//! values. The impl of [`crate::message::Message`] says under which number and in
//! which form each field is written; fields are written in the order of their
//! numbers.

pub mod authentication_frame;
pub mod auto_reconnect_frame;
pub mod auto_resume_frame;
pub mod bandwidth_upgrade_negotiation_frame;
pub mod bandwidth_upgrade_retry_frame;
pub mod connection_request_frame;
pub mod connection_response_frame;
pub mod connections_device;
pub mod disconnection_frame;
pub mod keep_alive_frame;
pub mod location_hint;
pub mod medium_metadata;
pub mod medium_role;
pub mod offline_frame;
pub mod os_info;
pub mod paired_key_encryption_frame;
pub mod payload_transfer_frame;
pub mod service_address;
pub mod usable_channels;
pub mod v1_frame;

pub use self::authentication_frame::{AuthenticationMessageFrame, AuthenticationMessageFrameView, AuthenticationResultFrame};
pub use self::auto_reconnect_frame::{AutoReconnectFrame, AutoReconnectFrameView};
pub use self::auto_resume_frame::AutoResumeFrame;
pub use self::bandwidth_upgrade_negotiation_frame::{BandwidthUpgradeNegotiationFrame, BandwidthUpgradeNegotiationFrameView};
pub use self::bandwidth_upgrade_retry_frame::{BandwidthUpgradeRetryFrame, BandwidthUpgradeRetryFrameView};
pub use self::connection_request_frame::{ConnectionRequestFrame, ConnectionRequestFrameView};
pub use self::connection_response_frame::{ConnectionResponseFrame, ConnectionResponseFrameView};
pub use self::connections_device::{ConnectionsDevice, ConnectionsDeviceView, EndpointType, PresenceDevice, PresenceDeviceView};
pub use self::disconnection_frame::DisconnectionFrame;
pub use self::keep_alive_frame::KeepAliveFrame;
pub use self::location_hint::{LocationHint, LocationHintView};
pub use self::medium_metadata::{MediumMetadata, MediumMetadataView};
pub use self::medium_role::MediumRole;
pub use self::offline_frame::{OfflineFrame, OfflineFrameView};
pub use self::os_info::OsInfo;
pub use self::paired_key_encryption_frame::{PairedKeyEncryptionFrame, PairedKeyEncryptionFrameView};
pub use self::payload_transfer_frame::{PayloadTransferFrame, PayloadTransferFrameView};
pub use self::service_address::{ServiceAddress, ServiceAddressView};
pub use self::usable_channels::{AvailableChannels, AvailableChannelsView, WifiAwareUsableChannels, WifiAwareUsableChannelsView, WifiDirectCliUsableChannels, WifiDirectCliUsableChannelsView, WifiHotspotStaUsableChannels, WifiHotspotStaUsableChannelsView, WifiLanUsableChannels, WifiLanUsableChannelsView};
pub use self::v1_frame::{V1Frame, V1FrameView};

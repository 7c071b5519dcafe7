//! Version 1 of the frame.

use vstd::prelude::*;

use crate::message;
use crate::message::{FieldWriter, Message, Part};
use crate::proto::authentication_frame::{
    AuthenticationMessageFrame, AuthenticationMessageFrameView, AuthenticationResultFrame,
};
use crate::proto::auto_reconnect_frame::{AutoReconnectFrame, AutoReconnectFrameView};
use crate::proto::auto_resume_frame::AutoResumeFrame;
use crate::proto::bandwidth_upgrade_negotiation_frame::{BandwidthUpgradeNegotiationFrame, BandwidthUpgradeNegotiationFrameView};
use crate::proto::bandwidth_upgrade_retry_frame::{
    BandwidthUpgradeRetryFrame, BandwidthUpgradeRetryFrameView,
};
use crate::proto::connection_request_frame::{ConnectionRequestFrame, ConnectionRequestFrameView};
use crate::proto::connection_response_frame::{ConnectionResponseFrame, ConnectionResponseFrameView};
use crate::proto::disconnection_frame::DisconnectionFrame;
use crate::proto::keep_alive_frame::KeepAliveFrame;
use crate::proto::paired_key_encryption_frame::{
    PairedKeyEncryptionFrame, PairedKeyEncryptionFrameView,
};
use crate::proto::payload_transfer_frame::{PayloadTransferFrame, PayloadTransferFrameView};
use crate::wire;
use crate::wire::{Field, FieldView};

verus! {

/// What a frame is for.
#[derive(Clone, Copy, Debug, PartialEq, Eq, Hash, Structural)]
pub enum FrameType {
    UnknownFrameType,
    ConnectionRequest,
    ConnectionResponse,
    PayloadTransfer,
    BandwidthUpgradeNegotiation,
    KeepAlive,
    Disconnection,
    PairedKeyEncryption,
    AuthenticationMessage,
    AuthenticationResult,
    AutoResume,
    AutoReconnect,
    BandwidthUpgradeRetry,
}

impl FrameType {
    /// The number that stands for the variant on the wire.
    pub open spec fn spec_value(self) -> i32 {
        match self {
            FrameType::UnknownFrameType => 0,
            FrameType::ConnectionRequest => 1,
            FrameType::ConnectionResponse => 2,
            FrameType::PayloadTransfer => 3,
            FrameType::BandwidthUpgradeNegotiation => 4,
            FrameType::KeepAlive => 5,
            FrameType::Disconnection => 6,
            FrameType::PairedKeyEncryption => 7,
            FrameType::AuthenticationMessage => 8,
            FrameType::AuthenticationResult => 9,
            FrameType::AutoResume => 10,
            FrameType::AutoReconnect => 11,
            FrameType::BandwidthUpgradeRetry => 12,
        }
    }

    /// The variant that a number stands for.
    pub open spec fn spec_from_i32(value: i32) -> Option<FrameType> {
        match value {
            0 => Some(FrameType::UnknownFrameType),
            1 => Some(FrameType::ConnectionRequest),
            2 => Some(FrameType::ConnectionResponse),
            3 => Some(FrameType::PayloadTransfer),
            4 => Some(FrameType::BandwidthUpgradeNegotiation),
            5 => Some(FrameType::KeepAlive),
            6 => Some(FrameType::Disconnection),
            7 => Some(FrameType::PairedKeyEncryption),
            8 => Some(FrameType::AuthenticationMessage),
            9 => Some(FrameType::AuthenticationResult),
            10 => Some(FrameType::AutoResume),
            11 => Some(FrameType::AutoReconnect),
            12 => Some(FrameType::BandwidthUpgradeRetry),
            _ => None,
        }
    }

    #[verifier::when_used_as_spec(spec_value)]
    pub fn value(self) -> (r: i32)
        ensures
            r == self.spec_value(),
    {
        match self {
            FrameType::UnknownFrameType => 0,
            FrameType::ConnectionRequest => 1,
            FrameType::ConnectionResponse => 2,
            FrameType::PayloadTransfer => 3,
            FrameType::BandwidthUpgradeNegotiation => 4,
            FrameType::KeepAlive => 5,
            FrameType::Disconnection => 6,
            FrameType::PairedKeyEncryption => 7,
            FrameType::AuthenticationMessage => 8,
            FrameType::AuthenticationResult => 9,
            FrameType::AutoResume => 10,
            FrameType::AutoReconnect => 11,
            FrameType::BandwidthUpgradeRetry => 12,
        }
    }

    #[verifier::when_used_as_spec(spec_from_i32)]
    pub fn from_i32(value: i32) -> (r: Option<FrameType>)
        ensures
            r == FrameType::spec_from_i32(value),
    {
        match value {
            0 => Some(FrameType::UnknownFrameType),
            1 => Some(FrameType::ConnectionRequest),
            2 => Some(FrameType::ConnectionResponse),
            3 => Some(FrameType::PayloadTransfer),
            4 => Some(FrameType::BandwidthUpgradeNegotiation),
            5 => Some(FrameType::KeepAlive),
            6 => Some(FrameType::Disconnection),
            7 => Some(FrameType::PairedKeyEncryption),
            8 => Some(FrameType::AuthenticationMessage),
            9 => Some(FrameType::AuthenticationResult),
            10 => Some(FrameType::AutoResume),
            11 => Some(FrameType::AutoReconnect),
            12 => Some(FrameType::BandwidthUpgradeRetry),
            _ => None,
        }
    }

    /// A number stands for a variant if and only if it is the number of that variant.
    pub proof fn lemma_number(self, value: i32)
        ensures
            FrameType::from_i32(value) == Some(self) <==> value == self.value(),
    {
    }
}

/// A frame: its type, and the sub-frame that goes with the type.
#[derive(Debug, PartialEq, Eq)]
pub struct V1Frame {
    pub type_: Option<i32>,
    pub connection_request: Option<ConnectionRequestFrame>,
    pub connection_response: Option<ConnectionResponseFrame>,
    pub payload_transfer: Option<PayloadTransferFrame>,
    pub bandwidth_upgrade_negotiation: Option<BandwidthUpgradeNegotiationFrame>,
    pub keep_alive: Option<KeepAliveFrame>,
    pub disconnection: Option<DisconnectionFrame>,
    pub paired_key_encryption: Option<PairedKeyEncryptionFrame>,
    pub authentication_message: Option<AuthenticationMessageFrame>,
    pub authentication_result: Option<AuthenticationResultFrame>,
    pub auto_resume: Option<AutoResumeFrame>,
    pub auto_reconnect: Option<AutoReconnectFrame>,
    pub bandwidth_upgrade_retry: Option<BandwidthUpgradeRetryFrame>,
}

/// What [`V1Frame`] stands for.
pub struct V1FrameView {
    pub type_: Option<i32>,
    pub connection_request: Option<ConnectionRequestFrameView>,
    pub connection_response: Option<ConnectionResponseFrameView>,
    pub payload_transfer: Option<PayloadTransferFrameView>,
    pub bandwidth_upgrade_negotiation: Option<BandwidthUpgradeNegotiationFrameView>,
    pub keep_alive: Option<KeepAliveFrame>,
    pub disconnection: Option<DisconnectionFrame>,
    pub paired_key_encryption: Option<PairedKeyEncryptionFrameView>,
    pub authentication_message: Option<AuthenticationMessageFrameView>,
    pub authentication_result: Option<AuthenticationResultFrame>,
    pub auto_resume: Option<AutoResumeFrame>,
    pub auto_reconnect: Option<AutoReconnectFrameView>,
    pub bandwidth_upgrade_retry: Option<BandwidthUpgradeRetryFrameView>,
}

impl V1FrameView {
    /// The message with nothing in it.
    pub open spec fn unset() -> V1FrameView {
        V1FrameView {
            type_: None,
            connection_request: None,
            connection_response: None,
            payload_transfer: None,
            bandwidth_upgrade_negotiation: None,
            keep_alive: None,
            disconnection: None,
            paired_key_encryption: None,
            authentication_message: None,
            authentication_result: None,
            auto_resume: None,
            auto_reconnect: None,
            bandwidth_upgrade_retry: None,
        }
    }
}

impl View for V1Frame {
    type V = V1FrameView;

    open spec fn view(&self) -> V1FrameView {
        V1FrameView {
            type_: self.type_,
            connection_request: wire::opt_view(self.connection_request),
            connection_response: wire::opt_view(self.connection_response),
            payload_transfer: wire::opt_view(self.payload_transfer),
            bandwidth_upgrade_negotiation: wire::opt_view(self.bandwidth_upgrade_negotiation),
            keep_alive: wire::opt_view(self.keep_alive),
            disconnection: wire::opt_view(self.disconnection),
            paired_key_encryption: wire::opt_view(self.paired_key_encryption),
            authentication_message: wire::opt_view(self.authentication_message),
            authentication_result: wire::opt_view(self.authentication_result),
            auto_resume: wire::opt_view(self.auto_resume),
            auto_reconnect: wire::opt_view(self.auto_reconnect),
            bandwidth_upgrade_retry: wire::opt_view(self.bandwidth_upgrade_retry),
        }
    }
}

impl Default for V1Frame {
    fn default() -> (r: V1Frame)
        ensures
            r@ == V1FrameView::unset(),
    {
        V1Frame {
            type_: None,
            connection_request: None,
            connection_response: None,
            payload_transfer: None,
            bandwidth_upgrade_negotiation: None,
            keep_alive: None,
            disconnection: None,
            paired_key_encryption: None,
            authentication_message: None,
            authentication_result: None,
            auto_resume: None,
            auto_reconnect: None,
            bandwidth_upgrade_retry: None,
        }
    }
}

impl Clone for V1Frame {
    fn clone(&self) -> (r: V1Frame)
        ensures
            r@ == self@,
    {
        self.copy()
    }
}

impl Message for V1Frame {
    open spec fn depth() -> nat {
        5
    }

    open spec fn parts(v: V1FrameView) -> Seq<Part> {
        seq![
            (1, message::int32_values(v.type_)),
            (2, message::message_values::<ConnectionRequestFrame>(v.connection_request)),
            (3, message::message_values::<ConnectionResponseFrame>(v.connection_response)),
            (4, message::message_values::<PayloadTransferFrame>(v.payload_transfer)),
            (5, message::message_values::<BandwidthUpgradeNegotiationFrame>(v.bandwidth_upgrade_negotiation)),
            (6, message::message_values::<KeepAliveFrame>(v.keep_alive)),
            (7, message::message_values::<DisconnectionFrame>(v.disconnection)),
            (8, message::message_values::<PairedKeyEncryptionFrame>(v.paired_key_encryption)),
            (9, message::message_values::<AuthenticationMessageFrame>(v.authentication_message)),
            (10, message::message_values::<AuthenticationResultFrame>(v.authentication_result)),
            (11, message::message_values::<AutoResumeFrame>(v.auto_resume)),
            (12, message::message_values::<AutoReconnectFrame>(v.auto_reconnect)),
            (13, message::message_values::<BandwidthUpgradeRetryFrame>(v.bandwidth_upgrade_retry)),
        ]
    }

    open spec fn from_fields(fields: Seq<FieldView>, limit: nat) -> Option<V1FrameView> {
        let type_ = message::int32_of(message::values_of(fields, 1));
        let connection_request = message::message_of::<ConnectionRequestFrame>(message::values_of(fields, 2), limit);
        let connection_response = message::message_of::<ConnectionResponseFrame>(message::values_of(fields, 3), limit);
        let payload_transfer = message::message_of::<PayloadTransferFrame>(message::values_of(fields, 4), limit);
        let bandwidth_upgrade_negotiation = message::message_of::<BandwidthUpgradeNegotiationFrame>(message::values_of(fields, 5), limit);
        let keep_alive = message::message_of::<KeepAliveFrame>(message::values_of(fields, 6), limit);
        let disconnection = message::message_of::<DisconnectionFrame>(message::values_of(fields, 7), limit);
        let paired_key_encryption = message::message_of::<PairedKeyEncryptionFrame>(message::values_of(fields, 8), limit);
        let authentication_message = message::message_of::<AuthenticationMessageFrame>(message::values_of(fields, 9), limit);
        let authentication_result = message::message_of::<AuthenticationResultFrame>(message::values_of(fields, 10), limit);
        let auto_resume = message::message_of::<AutoResumeFrame>(message::values_of(fields, 11), limit);
        let auto_reconnect = message::message_of::<AutoReconnectFrame>(message::values_of(fields, 12), limit);
        let bandwidth_upgrade_retry = message::message_of::<BandwidthUpgradeRetryFrame>(message::values_of(fields, 13), limit);
        if type_ is None
            || connection_request is None
            || connection_response is None
            || payload_transfer is None
            || bandwidth_upgrade_negotiation is None
            || keep_alive is None
            || disconnection is None
            || paired_key_encryption is None
            || authentication_message is None
            || authentication_result is None
            || auto_resume is None
            || auto_reconnect is None
            || bandwidth_upgrade_retry is None {
            None
        } else {
            Some(
                V1FrameView {
                    type_: type_->0,
                    connection_request: connection_request->0,
                    connection_response: connection_response->0,
                    payload_transfer: payload_transfer->0,
                    bandwidth_upgrade_negotiation: bandwidth_upgrade_negotiation->0,
                    keep_alive: keep_alive->0,
                    disconnection: disconnection->0,
                    paired_key_encryption: paired_key_encryption->0,
                    authentication_message: authentication_message->0,
                    authentication_result: authentication_result->0,
                    auto_resume: auto_resume->0,
                    auto_reconnect: auto_reconnect->0,
                    bandwidth_upgrade_retry: bandwidth_upgrade_retry->0,
                },
            )
        }
    }

    proof fn lemma_round_trip(v: V1FrameView, limit: nat) {
        broadcast use message::group_round_trip;

        let parts = Self::parts(v);
        let fields = message::all_fields(parts);
        message::lemma_part(parts, 0);
        message::lemma_part(parts, 1);
        message::lemma_part(parts, 2);
        message::lemma_part(parts, 3);
        message::lemma_part(parts, 4);
        message::lemma_part(parts, 5);
        message::lemma_part(parts, 6);
        message::lemma_part(parts, 7);
        message::lemma_part(parts, 8);
        message::lemma_part(parts, 9);
        message::lemma_part(parts, 10);
        message::lemma_part(parts, 11);
        message::lemma_part(parts, 12);
        message::lemma_message_round_trip::<ConnectionRequestFrame>(v.connection_request, fields, 2, limit);
        message::lemma_message_round_trip::<ConnectionResponseFrame>(v.connection_response, fields, 3, limit);
        message::lemma_message_round_trip::<PayloadTransferFrame>(v.payload_transfer, fields, 4, limit);
        message::lemma_message_round_trip::<BandwidthUpgradeNegotiationFrame>(v.bandwidth_upgrade_negotiation, fields, 5, limit);
        message::lemma_message_round_trip::<KeepAliveFrame>(v.keep_alive, fields, 6, limit);
        message::lemma_message_round_trip::<DisconnectionFrame>(v.disconnection, fields, 7, limit);
        message::lemma_message_round_trip::<PairedKeyEncryptionFrame>(v.paired_key_encryption, fields, 8, limit);
        message::lemma_message_round_trip::<AuthenticationMessageFrame>(v.authentication_message, fields, 9, limit);
        message::lemma_message_round_trip::<AuthenticationResultFrame>(v.authentication_result, fields, 10, limit);
        message::lemma_message_round_trip::<AutoResumeFrame>(v.auto_resume, fields, 11, limit);
        message::lemma_message_round_trip::<AutoReconnectFrame>(v.auto_reconnect, fields, 12, limit);
        message::lemma_message_round_trip::<BandwidthUpgradeRetryFrame>(v.bandwidth_upgrade_retry, fields, 13, limit);
    }

    fn encode_to_vec(&self) -> Vec<u8> {
        let mut out = FieldWriter::new();
        out.put_int32(1, self.type_);
        out.put_message(2, &self.connection_request);
        out.put_message(3, &self.connection_response);
        out.put_message(4, &self.payload_transfer);
        out.put_message(5, &self.bandwidth_upgrade_negotiation);
        out.put_message(6, &self.keep_alive);
        out.put_message(7, &self.disconnection);
        out.put_message(8, &self.paired_key_encryption);
        out.put_message(9, &self.authentication_message);
        out.put_message(10, &self.authentication_result);
        out.put_message(11, &self.auto_resume);
        out.put_message(12, &self.auto_reconnect);
        out.put_message(13, &self.bandwidth_upgrade_retry);
        assert(out@ =~= Self::parts(self@));
        out.finish()
    }

    fn copy(&self) -> V1Frame {
        V1Frame {
            type_: self.type_,
            connection_request: message::copy_message(&self.connection_request),
            connection_response: message::copy_message(&self.connection_response),
            payload_transfer: message::copy_message(&self.payload_transfer),
            bandwidth_upgrade_negotiation: message::copy_message(&self.bandwidth_upgrade_negotiation),
            keep_alive: message::copy_message(&self.keep_alive),
            disconnection: message::copy_message(&self.disconnection),
            paired_key_encryption: message::copy_message(&self.paired_key_encryption),
            authentication_message: message::copy_message(&self.authentication_message),
            authentication_result: message::copy_message(&self.authentication_result),
            auto_resume: message::copy_message(&self.auto_resume),
            auto_reconnect: message::copy_message(&self.auto_reconnect),
            bandwidth_upgrade_retry: message::copy_message(&self.bandwidth_upgrade_retry),
        }
    }

    fn read(fields: &[Field], limit: u32) -> Option<V1Frame> {
        let type_ = message::read_int32(fields, 1)?;
        let connection_request = message::read_message::<ConnectionRequestFrame>(fields, 2, limit)?;
        let connection_response = message::read_message::<ConnectionResponseFrame>(fields, 3, limit)?;
        let payload_transfer = message::read_message::<PayloadTransferFrame>(fields, 4, limit)?;
        let bandwidth_upgrade_negotiation = message::read_message::<BandwidthUpgradeNegotiationFrame>(fields, 5, limit)?;
        let keep_alive = message::read_message::<KeepAliveFrame>(fields, 6, limit)?;
        let disconnection = message::read_message::<DisconnectionFrame>(fields, 7, limit)?;
        let paired_key_encryption = message::read_message::<PairedKeyEncryptionFrame>(fields, 8, limit)?;
        let authentication_message = message::read_message::<AuthenticationMessageFrame>(fields, 9, limit)?;
        let authentication_result = message::read_message::<AuthenticationResultFrame>(fields, 10, limit)?;
        let auto_resume = message::read_message::<AutoResumeFrame>(fields, 11, limit)?;
        let auto_reconnect = message::read_message::<AutoReconnectFrame>(fields, 12, limit)?;
        let bandwidth_upgrade_retry = message::read_message::<BandwidthUpgradeRetryFrame>(fields, 13, limit)?;
        Some(
            V1Frame {
                type_,
                connection_request,
                connection_response,
                payload_transfer,
                bandwidth_upgrade_negotiation,
                keep_alive,
                disconnection,
                paired_key_encryption,
                authentication_message,
                authentication_result,
                auto_resume,
                auto_reconnect,
                bandwidth_upgrade_retry,
            },
        )
    }
}

} // verus!

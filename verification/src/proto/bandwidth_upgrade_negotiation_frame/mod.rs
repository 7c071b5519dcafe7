//! The frame that negotiates a bandwidth upgrade.

pub mod client_introduction;
pub mod upgrade_path_info;

use vstd::prelude::*;

use crate::message;
use crate::message::{FieldWriter, Message, Part};
use crate::wire;
use crate::wire::{Field, FieldView};

pub use self::client_introduction::{ClientIntroduction, ClientIntroductionAck, ClientIntroductionView, SafeToClosePriorChannel};
pub use self::upgrade_path_info::{UpgradePathInfo, UpgradePathInfoView};

verus! {

/// The step of the negotiation.
#[derive(Clone, Copy, Debug, PartialEq, Eq, Hash, Structural)]
pub enum EventType {
    UnknownEventType,
    UpgradePathAvailable,
    LastWriteToPriorChannel,
    SafeToClosePriorChannel,
    ClientIntroduction,
    UpgradeFailure,
    ClientIntroductionAck,
    UpgradePathRequest,
}

impl EventType {
    /// The number that stands for the variant on the wire.
    pub open spec fn spec_value(self) -> i32 {
        match self {
            EventType::UnknownEventType => 0,
            EventType::UpgradePathAvailable => 1,
            EventType::LastWriteToPriorChannel => 2,
            EventType::SafeToClosePriorChannel => 3,
            EventType::ClientIntroduction => 4,
            EventType::UpgradeFailure => 5,
            EventType::ClientIntroductionAck => 6,
            EventType::UpgradePathRequest => 7,
        }
    }

    /// The variant that a number stands for.
    pub open spec fn spec_from_i32(value: i32) -> Option<EventType> {
        match value {
            0 => Some(EventType::UnknownEventType),
            1 => Some(EventType::UpgradePathAvailable),
            2 => Some(EventType::LastWriteToPriorChannel),
            3 => Some(EventType::SafeToClosePriorChannel),
            4 => Some(EventType::ClientIntroduction),
            5 => Some(EventType::UpgradeFailure),
            6 => Some(EventType::ClientIntroductionAck),
            7 => Some(EventType::UpgradePathRequest),
            _ => None,
        }
    }

    #[verifier::when_used_as_spec(spec_value)]
    pub fn value(self) -> (r: i32)
        ensures
            r == self.spec_value(),
    {
        match self {
            EventType::UnknownEventType => 0,
            EventType::UpgradePathAvailable => 1,
            EventType::LastWriteToPriorChannel => 2,
            EventType::SafeToClosePriorChannel => 3,
            EventType::ClientIntroduction => 4,
            EventType::UpgradeFailure => 5,
            EventType::ClientIntroductionAck => 6,
            EventType::UpgradePathRequest => 7,
        }
    }

    #[verifier::when_used_as_spec(spec_from_i32)]
    pub fn from_i32(value: i32) -> (r: Option<EventType>)
        ensures
            r == EventType::spec_from_i32(value),
    {
        match value {
            0 => Some(EventType::UnknownEventType),
            1 => Some(EventType::UpgradePathAvailable),
            2 => Some(EventType::LastWriteToPriorChannel),
            3 => Some(EventType::SafeToClosePriorChannel),
            4 => Some(EventType::ClientIntroduction),
            5 => Some(EventType::UpgradeFailure),
            6 => Some(EventType::ClientIntroductionAck),
            7 => Some(EventType::UpgradePathRequest),
            _ => None,
        }
    }

    /// A number stands for a variant if and only if it is the number of that variant.
    pub proof fn lemma_number(self, value: i32)
        ensures
            EventType::from_i32(value) == Some(self) <==> value == self.value(),
    {
    }
}

/// One step of a bandwidth upgrade.
#[derive(Debug, PartialEq, Eq)]
pub struct BandwidthUpgradeNegotiationFrame {
    pub event_type: Option<i32>,
    pub upgrade_path_info: Option<UpgradePathInfo>,
    pub client_introduction: Option<ClientIntroduction>,
    pub client_introduction_ack: Option<ClientIntroductionAck>,
    pub safe_to_close_prior_channel: Option<SafeToClosePriorChannel>,
}

/// What [`BandwidthUpgradeNegotiationFrame`] stands for.
pub struct BandwidthUpgradeNegotiationFrameView {
    pub event_type: Option<i32>,
    pub upgrade_path_info: Option<UpgradePathInfoView>,
    pub client_introduction: Option<ClientIntroductionView>,
    pub client_introduction_ack: Option<ClientIntroductionAck>,
    pub safe_to_close_prior_channel: Option<SafeToClosePriorChannel>,
}

impl BandwidthUpgradeNegotiationFrameView {
    /// The message with nothing in it.
    pub open spec fn unset() -> BandwidthUpgradeNegotiationFrameView {
        BandwidthUpgradeNegotiationFrameView {
            event_type: None,
            upgrade_path_info: None,
            client_introduction: None,
            client_introduction_ack: None,
            safe_to_close_prior_channel: None,
        }
    }
}

impl View for BandwidthUpgradeNegotiationFrame {
    type V = BandwidthUpgradeNegotiationFrameView;

    open spec fn view(&self) -> BandwidthUpgradeNegotiationFrameView {
        BandwidthUpgradeNegotiationFrameView {
            event_type: self.event_type,
            upgrade_path_info: wire::opt_view(self.upgrade_path_info),
            client_introduction: wire::opt_view(self.client_introduction),
            client_introduction_ack: wire::opt_view(self.client_introduction_ack),
            safe_to_close_prior_channel: wire::opt_view(self.safe_to_close_prior_channel),
        }
    }
}

impl Default for BandwidthUpgradeNegotiationFrame {
    fn default() -> (r: BandwidthUpgradeNegotiationFrame)
        ensures
            r@ == BandwidthUpgradeNegotiationFrameView::unset(),
    {
        BandwidthUpgradeNegotiationFrame {
            event_type: None,
            upgrade_path_info: None,
            client_introduction: None,
            client_introduction_ack: None,
            safe_to_close_prior_channel: None,
        }
    }
}

impl Clone for BandwidthUpgradeNegotiationFrame {
    fn clone(&self) -> (r: BandwidthUpgradeNegotiationFrame)
        ensures
            r@ == self@,
    {
        self.copy()
    }
}

impl Message for BandwidthUpgradeNegotiationFrame {
    open spec fn depth() -> nat {
        4
    }

    open spec fn parts(v: BandwidthUpgradeNegotiationFrameView) -> Seq<Part> {
        seq![
            (1, message::int32_values(v.event_type)),
            (2, message::message_values::<UpgradePathInfo>(v.upgrade_path_info)),
            (3, message::message_values::<ClientIntroduction>(v.client_introduction)),
            (4, message::message_values::<ClientIntroductionAck>(v.client_introduction_ack)),
            (5, message::message_values::<SafeToClosePriorChannel>(v.safe_to_close_prior_channel)),
        ]
    }

    open spec fn from_fields(fields: Seq<FieldView>, limit: nat) -> Option<BandwidthUpgradeNegotiationFrameView> {
        let event_type = message::int32_of(message::values_of(fields, 1));
        let upgrade_path_info = message::message_of::<UpgradePathInfo>(message::values_of(fields, 2), limit);
        let client_introduction = message::message_of::<ClientIntroduction>(message::values_of(fields, 3), limit);
        let client_introduction_ack = message::message_of::<ClientIntroductionAck>(message::values_of(fields, 4), limit);
        let safe_to_close_prior_channel = message::message_of::<SafeToClosePriorChannel>(message::values_of(fields, 5), limit);
        if event_type is None
            || upgrade_path_info is None
            || client_introduction is None
            || client_introduction_ack is None
            || safe_to_close_prior_channel is None {
            None
        } else {
            Some(
                BandwidthUpgradeNegotiationFrameView {
                    event_type: event_type->0,
                    upgrade_path_info: upgrade_path_info->0,
                    client_introduction: client_introduction->0,
                    client_introduction_ack: client_introduction_ack->0,
                    safe_to_close_prior_channel: safe_to_close_prior_channel->0,
                },
            )
        }
    }

    proof fn lemma_round_trip(v: BandwidthUpgradeNegotiationFrameView, limit: nat) {
        broadcast use message::group_round_trip;

        let parts = Self::parts(v);
        let fields = message::all_fields(parts);
        message::lemma_part(parts, 0);
        message::lemma_part(parts, 1);
        message::lemma_part(parts, 2);
        message::lemma_part(parts, 3);
        message::lemma_part(parts, 4);
        message::lemma_message_round_trip::<UpgradePathInfo>(v.upgrade_path_info, fields, 2, limit);
        message::lemma_message_round_trip::<ClientIntroduction>(v.client_introduction, fields, 3, limit);
        message::lemma_message_round_trip::<ClientIntroductionAck>(v.client_introduction_ack, fields, 4, limit);
        message::lemma_message_round_trip::<SafeToClosePriorChannel>(v.safe_to_close_prior_channel, fields, 5, limit);
    }

    fn encode_to_vec(&self) -> Vec<u8> {
        let mut out = FieldWriter::new();
        out.put_int32(1, self.event_type);
        out.put_message(2, &self.upgrade_path_info);
        out.put_message(3, &self.client_introduction);
        out.put_message(4, &self.client_introduction_ack);
        out.put_message(5, &self.safe_to_close_prior_channel);
        assert(out@ =~= Self::parts(self@));
        out.finish()
    }

    fn copy(&self) -> BandwidthUpgradeNegotiationFrame {
        BandwidthUpgradeNegotiationFrame {
            event_type: self.event_type,
            upgrade_path_info: message::copy_message(&self.upgrade_path_info),
            client_introduction: message::copy_message(&self.client_introduction),
            client_introduction_ack: message::copy_message(&self.client_introduction_ack),
            safe_to_close_prior_channel: message::copy_message(&self.safe_to_close_prior_channel),
        }
    }

    fn read(fields: &[Field], limit: u32) -> Option<BandwidthUpgradeNegotiationFrame> {
        let event_type = message::read_int32(fields, 1)?;
        let upgrade_path_info = message::read_message::<UpgradePathInfo>(fields, 2, limit)?;
        let client_introduction = message::read_message::<ClientIntroduction>(fields, 3, limit)?;
        let client_introduction_ack = message::read_message::<ClientIntroductionAck>(fields, 4, limit)?;
        let safe_to_close_prior_channel = message::read_message::<SafeToClosePriorChannel>(fields, 5, limit)?;
        Some(
            BandwidthUpgradeNegotiationFrame {
                event_type,
                upgrade_path_info,
                client_introduction,
                client_introduction_ack,
                safe_to_close_prior_channel,
            },
        )
    }
}

} // verus!

//! The frame that reconnects an endpoint.

use vstd::prelude::*;

use crate::message;
use crate::message::{FieldWriter, Message, Part};
use crate::wire;
use crate::wire::{Field, FieldView};

verus! {

/// A step of reconnecting.
#[derive(Clone, Copy, Debug, PartialEq, Eq, Hash, Structural)]
pub enum EventType {
    UnknownEventType,
    ClientIntroduction,
    ClientIntroductionAck,
}

impl EventType {
    /// The number that stands for the variant on the wire.
    pub open spec fn spec_value(self) -> i32 {
        match self {
            EventType::UnknownEventType => 0,
            EventType::ClientIntroduction => 1,
            EventType::ClientIntroductionAck => 2,
        }
    }

    /// The variant that a number stands for.
    pub open spec fn spec_from_i32(value: i32) -> Option<EventType> {
        match value {
            0 => Some(EventType::UnknownEventType),
            1 => Some(EventType::ClientIntroduction),
            2 => Some(EventType::ClientIntroductionAck),
            _ => None,
        }
    }

    #[verifier::when_used_as_spec(spec_value)]
    pub fn value(self) -> (r: i32)
        ensures
            r == self.spec_value(),
    {
        match self {
            EventType::UnknownEventType => 0,
            EventType::ClientIntroduction => 1,
            EventType::ClientIntroductionAck => 2,
        }
    }

    #[verifier::when_used_as_spec(spec_from_i32)]
    pub fn from_i32(value: i32) -> (r: Option<EventType>)
        ensures
            r == EventType::spec_from_i32(value),
    {
        match value {
            0 => Some(EventType::UnknownEventType),
            1 => Some(EventType::ClientIntroduction),
            2 => Some(EventType::ClientIntroductionAck),
            _ => None,
        }
    }

    /// A number stands for a variant if and only if it is the number of that variant.
    pub proof fn lemma_number(self, value: i32)
        ensures
            EventType::from_i32(value) == Some(self) <==> value == self.value(),
    {
    }
}

/// Reconnects an endpoint whose connection broke.
#[derive(Debug, PartialEq, Eq)]
pub struct AutoReconnectFrame {
    pub endpoint_id: Option<String>,
    pub event_type: Option<i32>,
    pub last_endpoint_id: Option<String>,
}

/// What [`AutoReconnectFrame`] stands for.
pub struct AutoReconnectFrameView {
    pub endpoint_id: Option<Seq<char>>,
    pub event_type: Option<i32>,
    pub last_endpoint_id: Option<Seq<char>>,
}

impl AutoReconnectFrameView {
    /// The message with nothing in it.
    pub open spec fn unset() -> AutoReconnectFrameView {
        AutoReconnectFrameView {
            endpoint_id: None,
            event_type: None,
            last_endpoint_id: None,
        }
    }
}

impl View for AutoReconnectFrame {
    type V = AutoReconnectFrameView;

    open spec fn view(&self) -> AutoReconnectFrameView {
        AutoReconnectFrameView {
            endpoint_id: wire::opt_view(self.endpoint_id),
            event_type: self.event_type,
            last_endpoint_id: wire::opt_view(self.last_endpoint_id),
        }
    }
}

impl Default for AutoReconnectFrame {
    fn default() -> (r: AutoReconnectFrame)
        ensures
            r@ == AutoReconnectFrameView::unset(),
    {
        AutoReconnectFrame {
            endpoint_id: None,
            event_type: None,
            last_endpoint_id: None,
        }
    }
}

impl Clone for AutoReconnectFrame {
    fn clone(&self) -> (r: AutoReconnectFrame)
        ensures
            r@ == self@,
    {
        self.copy()
    }
}

impl Message for AutoReconnectFrame {
    open spec fn depth() -> nat {
        0
    }

    open spec fn parts(v: AutoReconnectFrameView) -> Seq<Part> {
        seq![
            (1, message::string_values(v.endpoint_id)),
            (2, message::int32_values(v.event_type)),
            (3, message::string_values(v.last_endpoint_id)),
        ]
    }

    open spec fn from_fields(fields: Seq<FieldView>, limit: nat) -> Option<AutoReconnectFrameView> {
        let endpoint_id = message::string_of(message::values_of(fields, 1));
        let event_type = message::int32_of(message::values_of(fields, 2));
        let last_endpoint_id = message::string_of(message::values_of(fields, 3));
        if endpoint_id is None
            || event_type is None
            || last_endpoint_id is None {
            None
        } else {
            Some(
                AutoReconnectFrameView {
                    endpoint_id: endpoint_id->0,
                    event_type: event_type->0,
                    last_endpoint_id: last_endpoint_id->0,
                },
            )
        }
    }

    proof fn lemma_round_trip(v: AutoReconnectFrameView, limit: nat) {
        broadcast use message::group_round_trip;

        let parts = Self::parts(v);
        let fields = message::all_fields(parts);
        message::lemma_part(parts, 0);
        message::lemma_part(parts, 1);
        message::lemma_part(parts, 2);
    }

    fn encode_to_vec(&self) -> Vec<u8> {
        let mut out = FieldWriter::new();
        out.put_string(1, &self.endpoint_id);
        out.put_int32(2, self.event_type);
        out.put_string(3, &self.last_endpoint_id);
        assert(out@ =~= Self::parts(self@));
        out.finish()
    }

    fn copy(&self) -> AutoReconnectFrame {
        AutoReconnectFrame {
            endpoint_id: message::copy_string(&self.endpoint_id),
            event_type: self.event_type,
            last_endpoint_id: message::copy_string(&self.last_endpoint_id),
        }
    }

    fn read(fields: &[Field], limit: u32) -> Option<AutoReconnectFrame> {
        let endpoint_id = message::read_string(fields, 1)?;
        let event_type = message::read_int32(fields, 2)?;
        let last_endpoint_id = message::read_string(fields, 3)?;
        Some(
            AutoReconnectFrame {
                endpoint_id,
                event_type,
                last_endpoint_id,
            },
        )
    }
}

} // verus!

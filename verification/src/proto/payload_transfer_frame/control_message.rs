//! A message about a payload.

use vstd::prelude::*;

use crate::message;
use crate::message::{FieldWriter, Message, Part};
use crate::wire::{Field, FieldView};

verus! {

/// What happened to the payload.
#[derive(Clone, Copy, Debug, PartialEq, Eq, Hash, Structural)]
pub enum EventType {
    UnknownEventType,
    PayloadError,
    PayloadCanceled,
    PayloadReceivedAck,
}

impl EventType {
    /// The number that stands for the variant on the wire.
    pub open spec fn spec_value(self) -> i32 {
        match self {
            EventType::UnknownEventType => 0,
            EventType::PayloadError => 1,
            EventType::PayloadCanceled => 2,
            EventType::PayloadReceivedAck => 3,
        }
    }

    /// The variant that a number stands for.
    pub open spec fn spec_from_i32(value: i32) -> Option<EventType> {
        match value {
            0 => Some(EventType::UnknownEventType),
            1 => Some(EventType::PayloadError),
            2 => Some(EventType::PayloadCanceled),
            3 => Some(EventType::PayloadReceivedAck),
            _ => None,
        }
    }

    #[verifier::when_used_as_spec(spec_value)]
    pub fn value(self) -> (r: i32)
        ensures
            r == self.spec_value(),
    {
        match self {
            EventType::UnknownEventType => 0,
            EventType::PayloadError => 1,
            EventType::PayloadCanceled => 2,
            EventType::PayloadReceivedAck => 3,
        }
    }

    #[verifier::when_used_as_spec(spec_from_i32)]
    pub fn from_i32(value: i32) -> (r: Option<EventType>)
        ensures
            r == EventType::spec_from_i32(value),
    {
        match value {
            0 => Some(EventType::UnknownEventType),
            1 => Some(EventType::PayloadError),
            2 => Some(EventType::PayloadCanceled),
            3 => Some(EventType::PayloadReceivedAck),
            _ => None,
        }
    }

    /// A number stands for a variant if and only if it is the number of that variant.
    pub proof fn lemma_number(self, value: i32)
        ensures
            EventType::from_i32(value) == Some(self) <==> value == self.value(),
    {
    }
}

/// Tells what happened to a payload.
#[derive(Clone, Copy, Debug, PartialEq, Eq)]
pub struct ControlMessage {
    pub event: Option<i32>,
    pub offset: Option<i64>,
}

impl ControlMessage {
    /// The message with nothing in it.
    pub open spec fn unset() -> ControlMessage {
        ControlMessage {
            event: None,
            offset: None,
        }
    }
}

impl View for ControlMessage {
    type V = ControlMessage;

    open spec fn view(&self) -> ControlMessage {
        *self
    }
}

impl Default for ControlMessage {
    fn default() -> (r: ControlMessage)
        ensures
            r@ == ControlMessage::unset(),
    {
        ControlMessage {
            event: None,
            offset: None,
        }
    }
}

impl Message for ControlMessage {
    open spec fn depth() -> nat {
        0
    }

    open spec fn parts(v: ControlMessage) -> Seq<Part> {
        seq![
            (1, message::int32_values(v.event)),
            (2, message::int64_values(v.offset)),
        ]
    }

    open spec fn from_fields(fields: Seq<FieldView>, limit: nat) -> Option<ControlMessage> {
        let event = message::int32_of(message::values_of(fields, 1));
        let offset = message::int64_of(message::values_of(fields, 2));
        if event is None
            || offset is None {
            None
        } else {
            Some(
                ControlMessage {
                    event: event->0,
                    offset: offset->0,
                },
            )
        }
    }

    proof fn lemma_round_trip(v: ControlMessage, limit: nat) {
        broadcast use message::group_round_trip;

        let parts = Self::parts(v);
        let fields = message::all_fields(parts);
        message::lemma_part(parts, 0);
        message::lemma_part(parts, 1);
    }

    fn encode_to_vec(&self) -> Vec<u8> {
        let mut out = FieldWriter::new();
        out.put_int32(1, self.event);
        out.put_int64(2, self.offset);
        assert(out@ =~= Self::parts(self@));
        out.finish()
    }

    fn copy(&self) -> ControlMessage {
        *self
    }

    fn read(fields: &[Field], limit: u32) -> Option<ControlMessage> {
        let event = message::read_int32(fields, 1)?;
        let offset = message::read_int64(fields, 2)?;
        Some(
            ControlMessage {
                event,
                offset,
            },
        )
    }
}

} // verus!

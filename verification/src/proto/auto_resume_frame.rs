//! The frame that resumes a payload.

use vstd::prelude::*;

use crate::message;
use crate::message::{FieldWriter, Message, Part};
use crate::wire::{Field, FieldView};

verus! {

/// A step of resuming a payload.
#[derive(Clone, Copy, Debug, PartialEq, Eq, Hash, Structural)]
pub enum EventType {
    UnknownAutoResumeEventType,
    PayloadResumeTransferStart,
    PayloadResumeTransferAck,
}

impl EventType {
    /// The number that stands for the variant on the wire.
    pub open spec fn spec_value(self) -> i32 {
        match self {
            EventType::UnknownAutoResumeEventType => 0,
            EventType::PayloadResumeTransferStart => 1,
            EventType::PayloadResumeTransferAck => 2,
        }
    }

    /// The variant that a number stands for.
    pub open spec fn spec_from_i32(value: i32) -> Option<EventType> {
        match value {
            0 => Some(EventType::UnknownAutoResumeEventType),
            1 => Some(EventType::PayloadResumeTransferStart),
            2 => Some(EventType::PayloadResumeTransferAck),
            _ => None,
        }
    }

    #[verifier::when_used_as_spec(spec_value)]
    pub fn value(self) -> (r: i32)
        ensures
            r == self.spec_value(),
    {
        match self {
            EventType::UnknownAutoResumeEventType => 0,
            EventType::PayloadResumeTransferStart => 1,
            EventType::PayloadResumeTransferAck => 2,
        }
    }

    #[verifier::when_used_as_spec(spec_from_i32)]
    pub fn from_i32(value: i32) -> (r: Option<EventType>)
        ensures
            r == EventType::spec_from_i32(value),
    {
        match value {
            0 => Some(EventType::UnknownAutoResumeEventType),
            1 => Some(EventType::PayloadResumeTransferStart),
            2 => Some(EventType::PayloadResumeTransferAck),
            _ => None,
        }
    }

    /// A number stands for a variant if and only if it is the number of that variant.
    pub proof fn lemma_number(self, value: i32)
        ensures
            EventType::from_i32(value) == Some(self) <==> value == self.value(),
    {
    }
}

/// Resumes a payload that was broken off.
#[derive(Clone, Copy, Debug, PartialEq, Eq)]
pub struct AutoResumeFrame {
    pub event_type: Option<i32>,
    pub pending_payload_id: Option<i64>,
    pub next_payload_chunk_index: Option<i32>,
    pub version: Option<i32>,
}

impl AutoResumeFrame {
    /// The message with nothing in it.
    pub open spec fn unset() -> AutoResumeFrame {
        AutoResumeFrame {
            event_type: None,
            pending_payload_id: None,
            next_payload_chunk_index: None,
            version: None,
        }
    }
}

impl View for AutoResumeFrame {
    type V = AutoResumeFrame;

    open spec fn view(&self) -> AutoResumeFrame {
        *self
    }
}

impl Default for AutoResumeFrame {
    fn default() -> (r: AutoResumeFrame)
        ensures
            r@ == AutoResumeFrame::unset(),
    {
        AutoResumeFrame {
            event_type: None,
            pending_payload_id: None,
            next_payload_chunk_index: None,
            version: None,
        }
    }
}

impl Message for AutoResumeFrame {
    open spec fn depth() -> nat {
        0
    }

    open spec fn parts(v: AutoResumeFrame) -> Seq<Part> {
        seq![
            (1, message::int32_values(v.event_type)),
            (2, message::int64_values(v.pending_payload_id)),
            (3, message::int32_values(v.next_payload_chunk_index)),
            (4, message::int32_values(v.version)),
        ]
    }

    open spec fn from_fields(fields: Seq<FieldView>, limit: nat) -> Option<AutoResumeFrame> {
        let event_type = message::int32_of(message::values_of(fields, 1));
        let pending_payload_id = message::int64_of(message::values_of(fields, 2));
        let next_payload_chunk_index = message::int32_of(message::values_of(fields, 3));
        let version = message::int32_of(message::values_of(fields, 4));
        if event_type is None
            || pending_payload_id is None
            || next_payload_chunk_index is None
            || version is None {
            None
        } else {
            Some(
                AutoResumeFrame {
                    event_type: event_type->0,
                    pending_payload_id: pending_payload_id->0,
                    next_payload_chunk_index: next_payload_chunk_index->0,
                    version: version->0,
                },
            )
        }
    }

    proof fn lemma_round_trip(v: AutoResumeFrame, limit: nat) {
        broadcast use message::group_round_trip;

        let parts = Self::parts(v);
        let fields = message::all_fields(parts);
        message::lemma_part(parts, 0);
        message::lemma_part(parts, 1);
        message::lemma_part(parts, 2);
        message::lemma_part(parts, 3);
    }

    fn encode_to_vec(&self) -> Vec<u8> {
        let mut out = FieldWriter::new();
        out.put_int32(1, self.event_type);
        out.put_int64(2, self.pending_payload_id);
        out.put_int32(3, self.next_payload_chunk_index);
        out.put_int32(4, self.version);
        assert(out@ =~= Self::parts(self@));
        out.finish()
    }

    fn copy(&self) -> AutoResumeFrame {
        *self
    }

    fn read(fields: &[Field], limit: u32) -> Option<AutoResumeFrame> {
        let event_type = message::read_int32(fields, 1)?;
        let pending_payload_id = message::read_int64(fields, 2)?;
        let next_payload_chunk_index = message::read_int32(fields, 3)?;
        let version = message::read_int32(fields, 4)?;
        Some(
            AutoResumeFrame {
                event_type,
                pending_payload_id,
                next_payload_chunk_index,
                version,
            },
        )
    }
}

} // verus!

//! The frame that carries payload data.

pub mod control_message;
pub mod payload_chunk;
pub mod payload_header;

use vstd::prelude::*;

use crate::message;
use crate::message::{FieldWriter, Message, Part};
use crate::wire;
use crate::wire::{Field, FieldView};

pub use self::control_message::ControlMessage;
pub use self::payload_chunk::{PayloadChunk, PayloadChunkView};
pub use self::payload_header::{PayloadHeader, PayloadHeaderView};

verus! {

/// What a payload transfer carries.
#[derive(Clone, Copy, Debug, PartialEq, Eq, Hash, Structural)]
pub enum PacketType {
    UnknownPacketType,
    Data,
    Control,
    PayloadAck,
}

impl PacketType {
    /// The number that stands for the variant on the wire.
    pub open spec fn spec_value(self) -> i32 {
        match self {
            PacketType::UnknownPacketType => 0,
            PacketType::Data => 1,
            PacketType::Control => 2,
            PacketType::PayloadAck => 3,
        }
    }

    /// The variant that a number stands for.
    pub open spec fn spec_from_i32(value: i32) -> Option<PacketType> {
        match value {
            0 => Some(PacketType::UnknownPacketType),
            1 => Some(PacketType::Data),
            2 => Some(PacketType::Control),
            3 => Some(PacketType::PayloadAck),
            _ => None,
        }
    }

    #[verifier::when_used_as_spec(spec_value)]
    pub fn value(self) -> (r: i32)
        ensures
            r == self.spec_value(),
    {
        match self {
            PacketType::UnknownPacketType => 0,
            PacketType::Data => 1,
            PacketType::Control => 2,
            PacketType::PayloadAck => 3,
        }
    }

    #[verifier::when_used_as_spec(spec_from_i32)]
    pub fn from_i32(value: i32) -> (r: Option<PacketType>)
        ensures
            r == PacketType::spec_from_i32(value),
    {
        match value {
            0 => Some(PacketType::UnknownPacketType),
            1 => Some(PacketType::Data),
            2 => Some(PacketType::Control),
            3 => Some(PacketType::PayloadAck),
            _ => None,
        }
    }

    /// A number stands for a variant if and only if it is the number of that variant.
    pub proof fn lemma_number(self, value: i32)
        ensures
            PacketType::from_i32(value) == Some(self) <==> value == self.value(),
    {
    }
}

/// Carries a chunk of a payload, or a message about one.
#[derive(Debug, PartialEq, Eq)]
pub struct PayloadTransferFrame {
    pub packet_type: Option<i32>,
    pub payload_header: Option<PayloadHeader>,
    pub payload_chunk: Option<PayloadChunk>,
    pub control_message: Option<ControlMessage>,
}

/// What [`PayloadTransferFrame`] stands for.
pub struct PayloadTransferFrameView {
    pub packet_type: Option<i32>,
    pub payload_header: Option<PayloadHeaderView>,
    pub payload_chunk: Option<PayloadChunkView>,
    pub control_message: Option<ControlMessage>,
}

impl PayloadTransferFrameView {
    /// The message with nothing in it.
    pub open spec fn unset() -> PayloadTransferFrameView {
        PayloadTransferFrameView {
            packet_type: None,
            payload_header: None,
            payload_chunk: None,
            control_message: None,
        }
    }
}

impl View for PayloadTransferFrame {
    type V = PayloadTransferFrameView;

    open spec fn view(&self) -> PayloadTransferFrameView {
        PayloadTransferFrameView {
            packet_type: self.packet_type,
            payload_header: wire::opt_view(self.payload_header),
            payload_chunk: wire::opt_view(self.payload_chunk),
            control_message: wire::opt_view(self.control_message),
        }
    }
}

impl Default for PayloadTransferFrame {
    fn default() -> (r: PayloadTransferFrame)
        ensures
            r@ == PayloadTransferFrameView::unset(),
    {
        PayloadTransferFrame {
            packet_type: None,
            payload_header: None,
            payload_chunk: None,
            control_message: None,
        }
    }
}

impl Clone for PayloadTransferFrame {
    fn clone(&self) -> (r: PayloadTransferFrame)
        ensures
            r@ == self@,
    {
        self.copy()
    }
}

impl Message for PayloadTransferFrame {
    open spec fn depth() -> nat {
        1
    }

    open spec fn parts(v: PayloadTransferFrameView) -> Seq<Part> {
        seq![
            (1, message::int32_values(v.packet_type)),
            (2, message::message_values::<PayloadHeader>(v.payload_header)),
            (3, message::message_values::<PayloadChunk>(v.payload_chunk)),
            (4, message::message_values::<ControlMessage>(v.control_message)),
        ]
    }

    open spec fn from_fields(fields: Seq<FieldView>, limit: nat) -> Option<PayloadTransferFrameView> {
        let packet_type = message::int32_of(message::values_of(fields, 1));
        let payload_header = message::message_of::<PayloadHeader>(message::values_of(fields, 2), limit);
        let payload_chunk = message::message_of::<PayloadChunk>(message::values_of(fields, 3), limit);
        let control_message = message::message_of::<ControlMessage>(message::values_of(fields, 4), limit);
        if packet_type is None
            || payload_header is None
            || payload_chunk is None
            || control_message is None {
            None
        } else {
            Some(
                PayloadTransferFrameView {
                    packet_type: packet_type->0,
                    payload_header: payload_header->0,
                    payload_chunk: payload_chunk->0,
                    control_message: control_message->0,
                },
            )
        }
    }

    proof fn lemma_round_trip(v: PayloadTransferFrameView, limit: nat) {
        broadcast use message::group_round_trip;

        let parts = Self::parts(v);
        let fields = message::all_fields(parts);
        message::lemma_part(parts, 0);
        message::lemma_part(parts, 1);
        message::lemma_part(parts, 2);
        message::lemma_part(parts, 3);
        message::lemma_message_round_trip::<PayloadHeader>(v.payload_header, fields, 2, limit);
        message::lemma_message_round_trip::<PayloadChunk>(v.payload_chunk, fields, 3, limit);
        message::lemma_message_round_trip::<ControlMessage>(v.control_message, fields, 4, limit);
    }

    fn encode_to_vec(&self) -> Vec<u8> {
        let mut out = FieldWriter::new();
        out.put_int32(1, self.packet_type);
        out.put_message(2, &self.payload_header);
        out.put_message(3, &self.payload_chunk);
        out.put_message(4, &self.control_message);
        assert(out@ =~= Self::parts(self@));
        out.finish()
    }

    fn copy(&self) -> PayloadTransferFrame {
        PayloadTransferFrame {
            packet_type: self.packet_type,
            payload_header: message::copy_message(&self.payload_header),
            payload_chunk: message::copy_message(&self.payload_chunk),
            control_message: message::copy_message(&self.control_message),
        }
    }

    fn read(fields: &[Field], limit: u32) -> Option<PayloadTransferFrame> {
        let packet_type = message::read_int32(fields, 1)?;
        let payload_header = message::read_message::<PayloadHeader>(fields, 2, limit)?;
        let payload_chunk = message::read_message::<PayloadChunk>(fields, 3, limit)?;
        let control_message = message::read_message::<ControlMessage>(fields, 4, limit)?;
        Some(
            PayloadTransferFrame {
                packet_type,
                payload_header,
                payload_chunk,
                control_message,
            },
        )
    }
}

} // verus!

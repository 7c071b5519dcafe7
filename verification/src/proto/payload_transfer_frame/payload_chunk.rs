//! A piece of a payload.

use vstd::prelude::*;

use crate::message;
use crate::message::{FieldWriter, Message, Part};
use crate::wire;
use crate::wire::{Field, FieldView};

verus! {

/// The bits of a chunk's flags.
#[derive(Clone, Copy, Debug, PartialEq, Eq, Hash, Structural)]
pub enum Flags {
    LastChunk,
}

impl Flags {
    /// The number that stands for the variant on the wire.
    pub open spec fn spec_value(self) -> i32 {
        match self {
            Flags::LastChunk => 1,
        }
    }

    /// The variant that a number stands for.
    pub open spec fn spec_from_i32(value: i32) -> Option<Flags> {
        match value {
            1 => Some(Flags::LastChunk),
            _ => None,
        }
    }

    #[verifier::when_used_as_spec(spec_value)]
    pub fn value(self) -> (r: i32)
        ensures
            r == self.spec_value(),
    {
        match self {
            Flags::LastChunk => 1,
        }
    }

    #[verifier::when_used_as_spec(spec_from_i32)]
    pub fn from_i32(value: i32) -> (r: Option<Flags>)
        ensures
            r == Flags::spec_from_i32(value),
    {
        match value {
            1 => Some(Flags::LastChunk),
            _ => None,
        }
    }

    /// A number stands for a variant if and only if it is the number of that variant.
    pub proof fn lemma_number(self, value: i32)
        ensures
            Flags::from_i32(value) == Some(self) <==> value == self.value(),
    {
    }
}

/// A piece of a payload.
#[derive(Debug, PartialEq, Eq)]
pub struct PayloadChunk {
    pub flags: Option<i32>,
    pub offset: Option<i64>,
    pub body: Option<Vec<u8>>,
    pub index: Option<i32>,
}

/// What [`PayloadChunk`] stands for.
pub struct PayloadChunkView {
    pub flags: Option<i32>,
    pub offset: Option<i64>,
    pub body: Option<Seq<u8>>,
    pub index: Option<i32>,
}

impl PayloadChunkView {
    /// The message with nothing in it.
    pub open spec fn unset() -> PayloadChunkView {
        PayloadChunkView {
            flags: None,
            offset: None,
            body: None,
            index: None,
        }
    }
}

impl View for PayloadChunk {
    type V = PayloadChunkView;

    open spec fn view(&self) -> PayloadChunkView {
        PayloadChunkView {
            flags: self.flags,
            offset: self.offset,
            body: wire::opt_view(self.body),
            index: self.index,
        }
    }
}

impl Default for PayloadChunk {
    fn default() -> (r: PayloadChunk)
        ensures
            r@ == PayloadChunkView::unset(),
    {
        PayloadChunk {
            flags: None,
            offset: None,
            body: None,
            index: None,
        }
    }
}

impl Clone for PayloadChunk {
    fn clone(&self) -> (r: PayloadChunk)
        ensures
            r@ == self@,
    {
        self.copy()
    }
}

impl Message for PayloadChunk {
    open spec fn depth() -> nat {
        0
    }

    open spec fn parts(v: PayloadChunkView) -> Seq<Part> {
        seq![
            (1, message::int32_values(v.flags)),
            (2, message::int64_values(v.offset)),
            (3, message::bytes_values(v.body)),
            (4, message::int32_values(v.index)),
        ]
    }

    open spec fn from_fields(fields: Seq<FieldView>, limit: nat) -> Option<PayloadChunkView> {
        let flags = message::int32_of(message::values_of(fields, 1));
        let offset = message::int64_of(message::values_of(fields, 2));
        let body = message::bytes_of(message::values_of(fields, 3));
        let index = message::int32_of(message::values_of(fields, 4));
        if flags is None
            || offset is None
            || body is None
            || index is None {
            None
        } else {
            Some(
                PayloadChunkView {
                    flags: flags->0,
                    offset: offset->0,
                    body: body->0,
                    index: index->0,
                },
            )
        }
    }

    proof fn lemma_round_trip(v: PayloadChunkView, limit: nat) {
        broadcast use message::group_round_trip;

        let parts = Self::parts(v);
        let fields = message::all_fields(parts);
        message::lemma_part(parts, 0);
        message::lemma_part(parts, 1);
        message::lemma_part(parts, 2);
        message::lemma_part(parts, 3);
    }

    fn encode_to_vec(&self) -> Vec<u8> {
        let mut out = FieldWriter::new();
        out.put_int32(1, self.flags);
        out.put_int64(2, self.offset);
        out.put_bytes(3, &self.body);
        out.put_int32(4, self.index);
        assert(out@ =~= Self::parts(self@));
        out.finish()
    }

    fn copy(&self) -> PayloadChunk {
        PayloadChunk {
            flags: self.flags,
            offset: self.offset,
            body: message::copy_bytes(&self.body),
            index: self.index,
        }
    }

    fn read(fields: &[Field], limit: u32) -> Option<PayloadChunk> {
        let flags = message::read_int32(fields, 1)?;
        let offset = message::read_int64(fields, 2)?;
        let body = message::read_bytes(fields, 3)?;
        let index = message::read_int32(fields, 4)?;
        Some(
            PayloadChunk {
                flags,
                offset,
                body,
                index,
            },
        )
    }
}

} // verus!

//! The frame that keeps a connection open.

use vstd::prelude::*;

use crate::message;
use crate::message::{FieldWriter, Message, Part};
use crate::wire::{Field, FieldView};

verus! {

/// Keeps a connection open.
#[derive(Clone, Copy, Debug, PartialEq, Eq)]
pub struct KeepAliveFrame {
    pub ack: Option<bool>,
    pub seq_num: Option<u32>,
}

impl KeepAliveFrame {
    /// The message with nothing in it.
    pub open spec fn unset() -> KeepAliveFrame {
        KeepAliveFrame {
            ack: None,
            seq_num: None,
        }
    }
}

impl View for KeepAliveFrame {
    type V = KeepAliveFrame;

    open spec fn view(&self) -> KeepAliveFrame {
        *self
    }
}

impl Default for KeepAliveFrame {
    fn default() -> (r: KeepAliveFrame)
        ensures
            r@ == KeepAliveFrame::unset(),
    {
        KeepAliveFrame {
            ack: None,
            seq_num: None,
        }
    }
}

impl Message for KeepAliveFrame {
    open spec fn depth() -> nat {
        0
    }

    open spec fn parts(v: KeepAliveFrame) -> Seq<Part> {
        seq![
            (1, message::bool_values(v.ack)),
            (2, message::uint32_values(v.seq_num)),
        ]
    }

    open spec fn from_fields(fields: Seq<FieldView>, limit: nat) -> Option<KeepAliveFrame> {
        let ack = message::bool_of(message::values_of(fields, 1));
        let seq_num = message::uint32_of(message::values_of(fields, 2));
        if ack is None
            || seq_num is None {
            None
        } else {
            Some(
                KeepAliveFrame {
                    ack: ack->0,
                    seq_num: seq_num->0,
                },
            )
        }
    }

    proof fn lemma_round_trip(v: KeepAliveFrame, limit: nat) {
        broadcast use message::group_round_trip;

        let parts = Self::parts(v);
        let fields = message::all_fields(parts);
        message::lemma_part(parts, 0);
        message::lemma_part(parts, 1);
    }

    fn encode_to_vec(&self) -> Vec<u8> {
        let mut out = FieldWriter::new();
        out.put_bool(1, self.ack);
        out.put_uint32(2, self.seq_num);
        assert(out@ =~= Self::parts(self@));
        out.finish()
    }

    fn copy(&self) -> KeepAliveFrame {
        *self
    }

    fn read(fields: &[Field], limit: u32) -> Option<KeepAliveFrame> {
        let ack = message::read_bool(fields, 1)?;
        let seq_num = message::read_uint32(fields, 2)?;
        Some(
            KeepAliveFrame {
                ack,
                seq_num,
            },
        )
    }
}

} // verus!

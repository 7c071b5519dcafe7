//! The frame of a paired key.

use vstd::prelude::*;

use crate::message;
use crate::message::{FieldWriter, Message, Part};
use crate::wire;
use crate::wire::{Field, FieldView};

verus! {

/// Proves that the peer holds a key that both sides know.
#[derive(Debug, PartialEq, Eq)]
pub struct PairedKeyEncryptionFrame {
    pub signed_data: Option<Vec<u8>>,
}

/// What [`PairedKeyEncryptionFrame`] stands for.
pub struct PairedKeyEncryptionFrameView {
    pub signed_data: Option<Seq<u8>>,
}

impl PairedKeyEncryptionFrameView {
    /// The message with nothing in it.
    pub open spec fn unset() -> PairedKeyEncryptionFrameView {
        PairedKeyEncryptionFrameView {
            signed_data: None,
        }
    }
}

impl View for PairedKeyEncryptionFrame {
    type V = PairedKeyEncryptionFrameView;

    open spec fn view(&self) -> PairedKeyEncryptionFrameView {
        PairedKeyEncryptionFrameView {
            signed_data: wire::opt_view(self.signed_data),
        }
    }
}

impl Default for PairedKeyEncryptionFrame {
    fn default() -> (r: PairedKeyEncryptionFrame)
        ensures
            r@ == PairedKeyEncryptionFrameView::unset(),
    {
        PairedKeyEncryptionFrame {
            signed_data: None,
        }
    }
}

impl Clone for PairedKeyEncryptionFrame {
    fn clone(&self) -> (r: PairedKeyEncryptionFrame)
        ensures
            r@ == self@,
    {
        self.copy()
    }
}

impl Message for PairedKeyEncryptionFrame {
    open spec fn depth() -> nat {
        0
    }

    open spec fn parts(v: PairedKeyEncryptionFrameView) -> Seq<Part> {
        seq![
            (1, message::bytes_values(v.signed_data)),
        ]
    }

    open spec fn from_fields(fields: Seq<FieldView>, limit: nat) -> Option<PairedKeyEncryptionFrameView> {
        let signed_data = message::bytes_of(message::values_of(fields, 1));
        if signed_data is None {
            None
        } else {
            Some(
                PairedKeyEncryptionFrameView {
                    signed_data: signed_data->0,
                },
            )
        }
    }

    proof fn lemma_round_trip(v: PairedKeyEncryptionFrameView, limit: nat) {
        broadcast use message::group_round_trip;

        let parts = Self::parts(v);
        let fields = message::all_fields(parts);
        message::lemma_part(parts, 0);
    }

    fn encode_to_vec(&self) -> Vec<u8> {
        let mut out = FieldWriter::new();
        out.put_bytes(1, &self.signed_data);
        assert(out@ =~= Self::parts(self@));
        out.finish()
    }

    fn copy(&self) -> PairedKeyEncryptionFrame {
        PairedKeyEncryptionFrame {
            signed_data: message::copy_bytes(&self.signed_data),
        }
    }

    fn read(fields: &[Field], limit: u32) -> Option<PairedKeyEncryptionFrame> {
        let signed_data = message::read_bytes(fields, 1)?;
        Some(
            PairedKeyEncryptionFrame {
                signed_data,
            },
        )
    }
}

} // verus!

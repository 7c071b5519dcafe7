//! The frame that ends a connection.

use vstd::prelude::*;

use crate::message;
use crate::message::{FieldWriter, Message, Part};
use crate::wire::{Field, FieldView};

verus! {

/// Ends a connection.
#[derive(Clone, Copy, Debug, PartialEq, Eq)]
pub struct DisconnectionFrame {
    pub request_safe_to_disconnect: Option<bool>,
    pub ack_safe_to_disconnect: Option<bool>,
}

impl DisconnectionFrame {
    /// The message with nothing in it.
    pub open spec fn unset() -> DisconnectionFrame {
        DisconnectionFrame {
            request_safe_to_disconnect: None,
            ack_safe_to_disconnect: None,
        }
    }
}

impl View for DisconnectionFrame {
    type V = DisconnectionFrame;

    open spec fn view(&self) -> DisconnectionFrame {
        *self
    }
}

impl Default for DisconnectionFrame {
    fn default() -> (r: DisconnectionFrame)
        ensures
            r@ == DisconnectionFrame::unset(),
    {
        DisconnectionFrame {
            request_safe_to_disconnect: None,
            ack_safe_to_disconnect: None,
        }
    }
}

impl Message for DisconnectionFrame {
    open spec fn depth() -> nat {
        0
    }

    open spec fn parts(v: DisconnectionFrame) -> Seq<Part> {
        seq![
            (1, message::bool_values(v.request_safe_to_disconnect)),
            (2, message::bool_values(v.ack_safe_to_disconnect)),
        ]
    }

    open spec fn from_fields(fields: Seq<FieldView>, limit: nat) -> Option<DisconnectionFrame> {
        let request_safe_to_disconnect = message::bool_of(message::values_of(fields, 1));
        let ack_safe_to_disconnect = message::bool_of(message::values_of(fields, 2));
        if request_safe_to_disconnect is None
            || ack_safe_to_disconnect is None {
            None
        } else {
            Some(
                DisconnectionFrame {
                    request_safe_to_disconnect: request_safe_to_disconnect->0,
                    ack_safe_to_disconnect: ack_safe_to_disconnect->0,
                },
            )
        }
    }

    proof fn lemma_round_trip(v: DisconnectionFrame, limit: nat) {
        broadcast use message::group_round_trip;

        let parts = Self::parts(v);
        let fields = message::all_fields(parts);
        message::lemma_part(parts, 0);
        message::lemma_part(parts, 1);
    }

    fn encode_to_vec(&self) -> Vec<u8> {
        let mut out = FieldWriter::new();
        out.put_bool(1, self.request_safe_to_disconnect);
        out.put_bool(2, self.ack_safe_to_disconnect);
        assert(out@ =~= Self::parts(self@));
        out.finish()
    }

    fn copy(&self) -> DisconnectionFrame {
        *self
    }

    fn read(fields: &[Field], limit: u32) -> Option<DisconnectionFrame> {
        let request_safe_to_disconnect = message::read_bool(fields, 1)?;
        let ack_safe_to_disconnect = message::read_bool(fields, 2)?;
        Some(
            DisconnectionFrame {
                request_safe_to_disconnect,
                ack_safe_to_disconnect,
            },
        )
    }
}

} // verus!

//! The frame that asks for another bandwidth upgrade.

use vstd::prelude::*;

use crate::message;
use crate::message::{FieldWriter, Message, Part};
use crate::wire;
use crate::wire::{Field, FieldView};

verus! {

/// Tells the mediums to which a connection can be upgraded now, and may ask the peer for
/// its own.
#[derive(Debug, PartialEq, Eq)]
pub struct BandwidthUpgradeRetryFrame {
    pub supported_medium: Vec<i32>,
    pub is_request: Option<bool>,
}

/// What [`BandwidthUpgradeRetryFrame`] stands for.
pub struct BandwidthUpgradeRetryFrameView {
    pub supported_medium: Seq<i32>,
    pub is_request: Option<bool>,
}

impl BandwidthUpgradeRetryFrameView {
    /// The message with nothing in it.
    pub open spec fn unset() -> BandwidthUpgradeRetryFrameView {
        BandwidthUpgradeRetryFrameView {
            supported_medium: Seq::empty(),
            is_request: None,
        }
    }
}

impl View for BandwidthUpgradeRetryFrame {
    type V = BandwidthUpgradeRetryFrameView;

    open spec fn view(&self) -> BandwidthUpgradeRetryFrameView {
        BandwidthUpgradeRetryFrameView {
            supported_medium: self.supported_medium@,
            is_request: self.is_request,
        }
    }
}

impl Default for BandwidthUpgradeRetryFrame {
    fn default() -> (r: BandwidthUpgradeRetryFrame)
        ensures
            r@ == BandwidthUpgradeRetryFrameView::unset(),
    {
        BandwidthUpgradeRetryFrame {
            supported_medium: Vec::new(),
            is_request: None,
        }
    }
}

impl Clone for BandwidthUpgradeRetryFrame {
    fn clone(&self) -> (r: BandwidthUpgradeRetryFrame)
        ensures
            r@ == self@,
    {
        self.copy()
    }
}

impl Message for BandwidthUpgradeRetryFrame {
    open spec fn depth() -> nat {
        0
    }

    open spec fn parts(v: BandwidthUpgradeRetryFrameView) -> Seq<Part> {
        seq![
            (1, message::ints_values(v.supported_medium)),
            (2, message::bool_values(v.is_request)),
        ]
    }

    open spec fn from_fields(fields: Seq<FieldView>, limit: nat) -> Option<BandwidthUpgradeRetryFrameView> {
        let supported_medium = message::ints_of(message::values_of(fields, 1));
        let is_request = message::bool_of(message::values_of(fields, 2));
        if supported_medium is None
            || is_request is None {
            None
        } else {
            Some(
                BandwidthUpgradeRetryFrameView {
                    supported_medium: supported_medium->0,
                    is_request: is_request->0,
                },
            )
        }
    }

    proof fn lemma_round_trip(v: BandwidthUpgradeRetryFrameView, limit: nat) {
        broadcast use message::group_round_trip;

        let parts = Self::parts(v);
        let fields = message::all_fields(parts);
        message::lemma_part(parts, 0);
        message::lemma_part(parts, 1);
    }

    fn encode_to_vec(&self) -> Vec<u8> {
        let mut out = FieldWriter::new();
        out.put_ints(1, &self.supported_medium);
        out.put_bool(2, self.is_request);
        assert(out@ =~= Self::parts(self@));
        out.finish()
    }

    fn copy(&self) -> BandwidthUpgradeRetryFrame {
        BandwidthUpgradeRetryFrame {
            supported_medium: message::copy_ints(&self.supported_medium),
            is_request: self.is_request,
        }
    }

    fn read(fields: &[Field], limit: u32) -> Option<BandwidthUpgradeRetryFrame> {
        let supported_medium = message::read_ints(fields, 1)?;
        let is_request = message::read_bool(fields, 2)?;
        Some(
            BandwidthUpgradeRetryFrame {
                supported_medium,
                is_request,
            },
        )
    }
}

} // verus!

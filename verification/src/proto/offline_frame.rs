//! The outermost frame.

use vstd::prelude::*;

use crate::message;
use crate::message::{FieldWriter, Message, Part};
use crate::proto::v1_frame::{V1Frame, V1FrameView};
use crate::wire;
use crate::wire::{Field, FieldView};

verus! {

/// The version of the frame format.
#[derive(Clone, Copy, Debug, PartialEq, Eq, Hash, Structural)]
pub enum Version {
    UnknownVersion,
    V1,
}

impl Version {
    /// The number that stands for the variant on the wire.
    pub open spec fn spec_value(self) -> i32 {
        match self {
            Version::UnknownVersion => 0,
            Version::V1 => 1,
        }
    }

    /// The variant that a number stands for.
    pub open spec fn spec_from_i32(value: i32) -> Option<Version> {
        match value {
            0 => Some(Version::UnknownVersion),
            1 => Some(Version::V1),
            _ => None,
        }
    }

    #[verifier::when_used_as_spec(spec_value)]
    pub fn value(self) -> (r: i32)
        ensures
            r == self.spec_value(),
    {
        match self {
            Version::UnknownVersion => 0,
            Version::V1 => 1,
        }
    }

    #[verifier::when_used_as_spec(spec_from_i32)]
    pub fn from_i32(value: i32) -> (r: Option<Version>)
        ensures
            r == Version::spec_from_i32(value),
    {
        match value {
            0 => Some(Version::UnknownVersion),
            1 => Some(Version::V1),
            _ => None,
        }
    }

    /// A number stands for a variant if and only if it is the number of that variant.
    pub proof fn lemma_number(self, value: i32)
        ensures
            Version::from_i32(value) == Some(self) <==> value == self.value(),
    {
    }
}

/// One frame on the wire.
#[derive(Debug, PartialEq, Eq)]
pub struct OfflineFrame {
    pub version: Option<i32>,
    pub v1: Option<V1Frame>,
}

/// What [`OfflineFrame`] stands for.
pub struct OfflineFrameView {
    pub version: Option<i32>,
    pub v1: Option<V1FrameView>,
}

impl OfflineFrameView {
    /// The message with nothing in it.
    pub open spec fn unset() -> OfflineFrameView {
        OfflineFrameView {
            version: None,
            v1: None,
        }
    }
}

impl View for OfflineFrame {
    type V = OfflineFrameView;

    open spec fn view(&self) -> OfflineFrameView {
        OfflineFrameView {
            version: self.version,
            v1: wire::opt_view(self.v1),
        }
    }
}

impl Default for OfflineFrame {
    fn default() -> (r: OfflineFrame)
        ensures
            r@ == OfflineFrameView::unset(),
    {
        OfflineFrame {
            version: None,
            v1: None,
        }
    }
}

impl Clone for OfflineFrame {
    fn clone(&self) -> (r: OfflineFrame)
        ensures
            r@ == self@,
    {
        self.copy()
    }
}

impl Message for OfflineFrame {
    open spec fn depth() -> nat {
        6
    }

    open spec fn parts(v: OfflineFrameView) -> Seq<Part> {
        seq![
            (1, message::int32_values(v.version)),
            (2, message::message_values::<V1Frame>(v.v1)),
        ]
    }

    open spec fn from_fields(fields: Seq<FieldView>, limit: nat) -> Option<OfflineFrameView> {
        let version = message::int32_of(message::values_of(fields, 1));
        let v1 = message::message_of::<V1Frame>(message::values_of(fields, 2), limit);
        if version is None
            || v1 is None {
            None
        } else {
            Some(
                OfflineFrameView {
                    version: version->0,
                    v1: v1->0,
                },
            )
        }
    }

    proof fn lemma_round_trip(v: OfflineFrameView, limit: nat) {
        broadcast use message::group_round_trip;

        let parts = Self::parts(v);
        let fields = message::all_fields(parts);
        message::lemma_part(parts, 0);
        message::lemma_part(parts, 1);
        message::lemma_message_round_trip::<V1Frame>(v.v1, fields, 2, limit);
    }

    fn encode_to_vec(&self) -> Vec<u8> {
        let mut out = FieldWriter::new();
        out.put_int32(1, self.version);
        out.put_message(2, &self.v1);
        assert(out@ =~= Self::parts(self@));
        out.finish()
    }

    fn copy(&self) -> OfflineFrame {
        OfflineFrame {
            version: self.version,
            v1: message::copy_message(&self.v1),
        }
    }

    fn read(fields: &[Field], limit: u32) -> Option<OfflineFrame> {
        let version = message::read_int32(fields, 1)?;
        let v1 = message::read_message::<V1Frame>(fields, 2, limit)?;
        Some(
            OfflineFrame {
                version,
                v1,
            },
        )
    }
}

impl OfflineFrame {
    /// Parses a frame, or gives `None` if the bytes are not one.
    pub fn decode(bytes: &[u8]) -> (r: Option<OfflineFrame>)
        ensures
            wire::opt_view(r) == message::decoded::<OfflineFrame>(bytes@),
    {
        message::decode::<OfflineFrame>(bytes)
    }
}

/// Decoding an encoded frame gives the frame back.
pub proof fn lemma_decoded_encoded_frame(v: OfflineFrameView)
    requires
        message::encoded::<OfflineFrame>(v).len() <= u64::MAX,
    ensures
        message::decoded::<OfflineFrame>(message::encoded::<OfflineFrame>(v)) == Some(v),
{
    message::lemma_decoded_encoded::<OfflineFrame>(v);
}

} // verus!

//! Where a device is.

use vstd::prelude::*;

use crate::message;
use crate::message::{FieldWriter, Message, Part};
use crate::wire;
use crate::wire::{Field, FieldView};

verus! {

/// The form in which a location is given.
#[derive(Clone, Copy, Debug, PartialEq, Eq, Hash, Structural)]
pub enum Format {
    Unknown,
    E164Calling,
    Iso31661Alpha2,
}

impl Format {
    /// The number that stands for the variant on the wire.
    pub open spec fn spec_value(self) -> i32 {
        match self {
            Format::Unknown => 0,
            Format::E164Calling => 1,
            Format::Iso31661Alpha2 => 2,
        }
    }

    /// The variant that a number stands for.
    pub open spec fn spec_from_i32(value: i32) -> Option<Format> {
        match value {
            0 => Some(Format::Unknown),
            1 => Some(Format::E164Calling),
            2 => Some(Format::Iso31661Alpha2),
            _ => None,
        }
    }

    #[verifier::when_used_as_spec(spec_value)]
    pub fn value(self) -> (r: i32)
        ensures
            r == self.spec_value(),
    {
        match self {
            Format::Unknown => 0,
            Format::E164Calling => 1,
            Format::Iso31661Alpha2 => 2,
        }
    }

    #[verifier::when_used_as_spec(spec_from_i32)]
    pub fn from_i32(value: i32) -> (r: Option<Format>)
        ensures
            r == Format::spec_from_i32(value),
    {
        match value {
            0 => Some(Format::Unknown),
            1 => Some(Format::E164Calling),
            2 => Some(Format::Iso31661Alpha2),
            _ => None,
        }
    }

    /// A number stands for a variant if and only if it is the number of that variant.
    pub proof fn lemma_number(self, value: i32)
        ensures
            Format::from_i32(value) == Some(self) <==> value == self.value(),
    {
    }
}

/// Where a device is.
#[derive(Debug, PartialEq, Eq)]
pub struct LocationHint {
    pub location: Option<String>,
    pub format: Option<i32>,
}

/// What [`LocationHint`] stands for.
pub struct LocationHintView {
    pub location: Option<Seq<char>>,
    pub format: Option<i32>,
}

impl LocationHintView {
    /// The message with nothing in it.
    pub open spec fn unset() -> LocationHintView {
        LocationHintView {
            location: None,
            format: None,
        }
    }
}

impl View for LocationHint {
    type V = LocationHintView;

    open spec fn view(&self) -> LocationHintView {
        LocationHintView {
            location: wire::opt_view(self.location),
            format: self.format,
        }
    }
}

impl Default for LocationHint {
    fn default() -> (r: LocationHint)
        ensures
            r@ == LocationHintView::unset(),
    {
        LocationHint {
            location: None,
            format: None,
        }
    }
}

impl Clone for LocationHint {
    fn clone(&self) -> (r: LocationHint)
        ensures
            r@ == self@,
    {
        self.copy()
    }
}

impl Message for LocationHint {
    open spec fn depth() -> nat {
        0
    }

    open spec fn parts(v: LocationHintView) -> Seq<Part> {
        seq![
            (1, message::string_values(v.location)),
            (2, message::int32_values(v.format)),
        ]
    }

    open spec fn from_fields(fields: Seq<FieldView>, limit: nat) -> Option<LocationHintView> {
        let location = message::string_of(message::values_of(fields, 1));
        let format = message::int32_of(message::values_of(fields, 2));
        if location is None
            || format is None {
            None
        } else {
            Some(
                LocationHintView {
                    location: location->0,
                    format: format->0,
                },
            )
        }
    }

    proof fn lemma_round_trip(v: LocationHintView, limit: nat) {
        broadcast use message::group_round_trip;

        let parts = Self::parts(v);
        let fields = message::all_fields(parts);
        message::lemma_part(parts, 0);
        message::lemma_part(parts, 1);
    }

    fn encode_to_vec(&self) -> Vec<u8> {
        let mut out = FieldWriter::new();
        out.put_string(1, &self.location);
        out.put_int32(2, self.format);
        assert(out@ =~= Self::parts(self@));
        out.finish()
    }

    fn copy(&self) -> LocationHint {
        LocationHint {
            location: message::copy_string(&self.location),
            format: self.format,
        }
    }

    fn read(fields: &[Field], limit: u32) -> Option<LocationHint> {
        let location = message::read_string(fields, 1)?;
        let format = message::read_int32(fields, 2)?;
        Some(
            LocationHint {
                location,
                format,
            },
        )
    }
}

} // verus!

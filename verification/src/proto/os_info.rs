//! The operating system of a device.

use vstd::prelude::*;

use crate::message;
use crate::message::{FieldWriter, Message, Part};
use crate::wire::{Field, FieldView};

verus! {

/// An operating system.
#[derive(Clone, Copy, Debug, PartialEq, Eq, Hash, Structural)]
pub enum OsType {
    UnknownOsType,
    Android,
    ChromeOs,
    Windows,
    Apple,
    Linux,
}

impl OsType {
    /// The number that stands for the variant on the wire.
    pub open spec fn spec_value(self) -> i32 {
        match self {
            OsType::UnknownOsType => 0,
            OsType::Android => 1,
            OsType::ChromeOs => 2,
            OsType::Windows => 3,
            OsType::Apple => 4,
            OsType::Linux => 100,
        }
    }

    /// The variant that a number stands for.
    pub open spec fn spec_from_i32(value: i32) -> Option<OsType> {
        match value {
            0 => Some(OsType::UnknownOsType),
            1 => Some(OsType::Android),
            2 => Some(OsType::ChromeOs),
            3 => Some(OsType::Windows),
            4 => Some(OsType::Apple),
            100 => Some(OsType::Linux),
            _ => None,
        }
    }

    #[verifier::when_used_as_spec(spec_value)]
    pub fn value(self) -> (r: i32)
        ensures
            r == self.spec_value(),
    {
        match self {
            OsType::UnknownOsType => 0,
            OsType::Android => 1,
            OsType::ChromeOs => 2,
            OsType::Windows => 3,
            OsType::Apple => 4,
            OsType::Linux => 100,
        }
    }

    #[verifier::when_used_as_spec(spec_from_i32)]
    pub fn from_i32(value: i32) -> (r: Option<OsType>)
        ensures
            r == OsType::spec_from_i32(value),
    {
        match value {
            0 => Some(OsType::UnknownOsType),
            1 => Some(OsType::Android),
            2 => Some(OsType::ChromeOs),
            3 => Some(OsType::Windows),
            4 => Some(OsType::Apple),
            100 => Some(OsType::Linux),
            _ => None,
        }
    }

    /// A number stands for a variant if and only if it is the number of that variant.
    pub proof fn lemma_number(self, value: i32)
        ensures
            OsType::from_i32(value) == Some(self) <==> value == self.value(),
    {
    }
}

/// The operating system of a device.
#[derive(Clone, Copy, Debug, PartialEq, Eq)]
pub struct OsInfo {
    pub type_: Option<i32>,
}

impl OsInfo {
    /// The message with nothing in it.
    pub open spec fn unset() -> OsInfo {
        OsInfo {
            type_: None,
        }
    }
}

impl View for OsInfo {
    type V = OsInfo;

    open spec fn view(&self) -> OsInfo {
        *self
    }
}

impl Default for OsInfo {
    fn default() -> (r: OsInfo)
        ensures
            r@ == OsInfo::unset(),
    {
        OsInfo {
            type_: None,
        }
    }
}

impl Message for OsInfo {
    open spec fn depth() -> nat {
        0
    }

    open spec fn parts(v: OsInfo) -> Seq<Part> {
        seq![
            (1, message::int32_values(v.type_)),
        ]
    }

    open spec fn from_fields(fields: Seq<FieldView>, limit: nat) -> Option<OsInfo> {
        let type_ = message::int32_of(message::values_of(fields, 1));
        if type_ is None {
            None
        } else {
            Some(
                OsInfo {
                    type_: type_->0,
                },
            )
        }
    }

    proof fn lemma_round_trip(v: OsInfo, limit: nat) {
        broadcast use message::group_round_trip;

        let parts = Self::parts(v);
        let fields = message::all_fields(parts);
        message::lemma_part(parts, 0);
    }

    fn encode_to_vec(&self) -> Vec<u8> {
        let mut out = FieldWriter::new();
        out.put_int32(1, self.type_);
        assert(out@ =~= Self::parts(self@));
        out.finish()
    }

    fn copy(&self) -> OsInfo {
        *self
    }

    fn read(fields: &[Field], limit: u32) -> Option<OsInfo> {
        let type_ = message::read_int32(fields, 1)?;
        Some(
            OsInfo {
                type_,
            },
        )
    }
}

} // verus!

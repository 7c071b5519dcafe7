//! What is known of a payload before its data.

use vstd::prelude::*;

use crate::message;
use crate::message::{FieldWriter, Message, Part};
use crate::wire;
use crate::wire::{Field, FieldView};

verus! {

/// The form of a payload.
#[derive(Clone, Copy, Debug, PartialEq, Eq, Hash, Structural)]
pub enum PayloadType {
    UnknownPayloadType,
    Bytes,
    File,
    Stream,
}

impl PayloadType {
    /// The number that stands for the variant on the wire.
    pub open spec fn spec_value(self) -> i32 {
        match self {
            PayloadType::UnknownPayloadType => 0,
            PayloadType::Bytes => 1,
            PayloadType::File => 2,
            PayloadType::Stream => 3,
        }
    }

    /// The variant that a number stands for.
    pub open spec fn spec_from_i32(value: i32) -> Option<PayloadType> {
        match value {
            0 => Some(PayloadType::UnknownPayloadType),
            1 => Some(PayloadType::Bytes),
            2 => Some(PayloadType::File),
            3 => Some(PayloadType::Stream),
            _ => None,
        }
    }

    #[verifier::when_used_as_spec(spec_value)]
    pub fn value(self) -> (r: i32)
        ensures
            r == self.spec_value(),
    {
        match self {
            PayloadType::UnknownPayloadType => 0,
            PayloadType::Bytes => 1,
            PayloadType::File => 2,
            PayloadType::Stream => 3,
        }
    }

    #[verifier::when_used_as_spec(spec_from_i32)]
    pub fn from_i32(value: i32) -> (r: Option<PayloadType>)
        ensures
            r == PayloadType::spec_from_i32(value),
    {
        match value {
            0 => Some(PayloadType::UnknownPayloadType),
            1 => Some(PayloadType::Bytes),
            2 => Some(PayloadType::File),
            3 => Some(PayloadType::Stream),
            _ => None,
        }
    }

    /// A number stands for a variant if and only if it is the number of that variant.
    pub proof fn lemma_number(self, value: i32)
        ensures
            PayloadType::from_i32(value) == Some(self) <==> value == self.value(),
    {
    }
}

/// Describes a payload.
#[derive(Debug, PartialEq, Eq)]
pub struct PayloadHeader {
    pub id: Option<i64>,
    pub type_: Option<i32>,
    pub total_size: Option<i64>,
    pub is_sensitive: Option<bool>,
    pub file_name: Option<String>,
    pub parent_folder: Option<String>,
    pub last_modified_timestamp_millis: Option<i64>,
}

/// What [`PayloadHeader`] stands for.
pub struct PayloadHeaderView {
    pub id: Option<i64>,
    pub type_: Option<i32>,
    pub total_size: Option<i64>,
    pub is_sensitive: Option<bool>,
    pub file_name: Option<Seq<char>>,
    pub parent_folder: Option<Seq<char>>,
    pub last_modified_timestamp_millis: Option<i64>,
}

impl PayloadHeaderView {
    /// The message with nothing in it.
    pub open spec fn unset() -> PayloadHeaderView {
        PayloadHeaderView {
            id: None,
            type_: None,
            total_size: None,
            is_sensitive: None,
            file_name: None,
            parent_folder: None,
            last_modified_timestamp_millis: None,
        }
    }
}

impl View for PayloadHeader {
    type V = PayloadHeaderView;

    open spec fn view(&self) -> PayloadHeaderView {
        PayloadHeaderView {
            id: self.id,
            type_: self.type_,
            total_size: self.total_size,
            is_sensitive: self.is_sensitive,
            file_name: wire::opt_view(self.file_name),
            parent_folder: wire::opt_view(self.parent_folder),
            last_modified_timestamp_millis: self.last_modified_timestamp_millis,
        }
    }
}

impl Default for PayloadHeader {
    fn default() -> (r: PayloadHeader)
        ensures
            r@ == PayloadHeaderView::unset(),
    {
        PayloadHeader {
            id: None,
            type_: None,
            total_size: None,
            is_sensitive: None,
            file_name: None,
            parent_folder: None,
            last_modified_timestamp_millis: None,
        }
    }
}

impl Clone for PayloadHeader {
    fn clone(&self) -> (r: PayloadHeader)
        ensures
            r@ == self@,
    {
        self.copy()
    }
}

impl Message for PayloadHeader {
    open spec fn depth() -> nat {
        0
    }

    open spec fn parts(v: PayloadHeaderView) -> Seq<Part> {
        seq![
            (1, message::int64_values(v.id)),
            (2, message::int32_values(v.type_)),
            (3, message::int64_values(v.total_size)),
            (4, message::bool_values(v.is_sensitive)),
            (5, message::string_values(v.file_name)),
            (6, message::string_values(v.parent_folder)),
            (7, message::int64_values(v.last_modified_timestamp_millis)),
        ]
    }

    open spec fn from_fields(fields: Seq<FieldView>, limit: nat) -> Option<PayloadHeaderView> {
        let id = message::int64_of(message::values_of(fields, 1));
        let type_ = message::int32_of(message::values_of(fields, 2));
        let total_size = message::int64_of(message::values_of(fields, 3));
        let is_sensitive = message::bool_of(message::values_of(fields, 4));
        let file_name = message::string_of(message::values_of(fields, 5));
        let parent_folder = message::string_of(message::values_of(fields, 6));
        let last_modified_timestamp_millis = message::int64_of(message::values_of(fields, 7));
        if id is None
            || type_ is None
            || total_size is None
            || is_sensitive is None
            || file_name is None
            || parent_folder is None
            || last_modified_timestamp_millis is None {
            None
        } else {
            Some(
                PayloadHeaderView {
                    id: id->0,
                    type_: type_->0,
                    total_size: total_size->0,
                    is_sensitive: is_sensitive->0,
                    file_name: file_name->0,
                    parent_folder: parent_folder->0,
                    last_modified_timestamp_millis: last_modified_timestamp_millis->0,
                },
            )
        }
    }

    proof fn lemma_round_trip(v: PayloadHeaderView, limit: nat) {
        broadcast use message::group_round_trip;

        let parts = Self::parts(v);
        let fields = message::all_fields(parts);
        message::lemma_part(parts, 0);
        message::lemma_part(parts, 1);
        message::lemma_part(parts, 2);
        message::lemma_part(parts, 3);
        message::lemma_part(parts, 4);
        message::lemma_part(parts, 5);
        message::lemma_part(parts, 6);
    }

    fn encode_to_vec(&self) -> Vec<u8> {
        let mut out = FieldWriter::new();
        out.put_int64(1, self.id);
        out.put_int32(2, self.type_);
        out.put_int64(3, self.total_size);
        out.put_bool(4, self.is_sensitive);
        out.put_string(5, &self.file_name);
        out.put_string(6, &self.parent_folder);
        out.put_int64(7, self.last_modified_timestamp_millis);
        assert(out@ =~= Self::parts(self@));
        out.finish()
    }

    fn copy(&self) -> PayloadHeader {
        PayloadHeader {
            id: self.id,
            type_: self.type_,
            total_size: self.total_size,
            is_sensitive: self.is_sensitive,
            file_name: message::copy_string(&self.file_name),
            parent_folder: message::copy_string(&self.parent_folder),
            last_modified_timestamp_millis: self.last_modified_timestamp_millis,
        }
    }

    fn read(fields: &[Field], limit: u32) -> Option<PayloadHeader> {
        let id = message::read_int64(fields, 1)?;
        let type_ = message::read_int32(fields, 2)?;
        let total_size = message::read_int64(fields, 3)?;
        let is_sensitive = message::read_bool(fields, 4)?;
        let file_name = message::read_string(fields, 5)?;
        let parent_folder = message::read_string(fields, 6)?;
        let last_modified_timestamp_millis = message::read_int64(fields, 7)?;
        Some(
            PayloadHeader {
                id,
                type_,
                total_size,
                is_sensitive,
                file_name,
                parent_folder,
                last_modified_timestamp_millis,
            },
        )
    }
}

} // verus!

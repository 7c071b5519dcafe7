//! The tag-length-value layer of the wire format.
//!
//! A message on the wire is a run of fields. Each field starts with a key, a
//! varint that holds the field number and a wire type, and is followed by its
//! value. This module splits a message into its fields and writes fields out;
//! what the fields of each message mean is said in [`crate::proto`].

use vstd::prelude::*;
use vstd::utf8::*;

verus! {

/// How deep a message may nest: the limit that is handed to the outermost
/// message. Every nested message, and every nested group, lowers it by one.
pub const NESTING_LIMIT: u32 = 100;

/// The largest field number that a key can hold.
pub const MAX_FIELD_NUMBER: u32 = 0x1fff_ffff;

pub const VARINT: u8 = 0;

pub const FIXED64: u8 = 1;

pub const LEN: u8 = 2;

pub const START_GROUP: u8 = 3;

pub const END_GROUP: u8 = 4;

pub const FIXED32: u8 = 5;

// ---------------------------------------------------------------------------
// Varints
// ---------------------------------------------------------------------------

/// The varint of `value`: seven bits per byte, low bits first, the high bit set
/// on every byte but the last.
pub open spec fn varint_bytes(value: nat) -> Seq<u8>
    decreases value,
{
    if value < 128 {
        seq![value as u8]
    } else {
        seq![(value % 128 + 128) as u8] + varint_bytes(value / 128)
    }
}

/// The number that the varint at the start of `bytes` stands for, and its width,
/// if it ends within `width` bytes.
pub open spec fn varint_prefix(bytes: Seq<u8>, width: nat) -> Option<(nat, nat)>
    decreases width,
{
    if width == 0 || bytes.len() == 0 {
        None
    } else if bytes[0] < 128 {
        Some((bytes[0] as nat, 1))
    } else {
        match varint_prefix(bytes.skip(1), (width - 1) as nat) {
            Some((high, n)) => Some(((bytes[0] - 128) as nat + 128 * high, n + 1)),
            None => None,
        }
    }
}

/// The varint at the start of `bytes`: its value and its width. A varint is at
/// most ten bytes wide and its value fits 64 bits.
pub open spec fn varint_at(bytes: Seq<u8>) -> Option<(u64, nat)> {
    match varint_prefix(bytes, 10) {
        Some((value, n)) => if value <= u64::MAX {
            Some((value as u64, n))
        } else {
            None
        },
        None => None,
    }
}

pub open spec fn pow128(width: nat) -> nat
    decreases width,
{
    if width == 0 {
        1
    } else {
        128 * pow128((width - 1) as nat)
    }
}

proof fn lemma_varint_prefix_bounds(bytes: Seq<u8>, width: nat)
    ensures
        varint_prefix(bytes, width) matches Some((_, n)) ==> 0 < n <= bytes.len() && n <= width,
    decreases width,
{
    if width > 0 && bytes.len() > 0 && bytes[0] >= 128 {
        lemma_varint_prefix_bounds(bytes.skip(1), (width - 1) as nat);
    }
}

/// A varint that was read is one to ten bytes wide and lies within the input.
pub proof fn lemma_varint_at_bounds(bytes: Seq<u8>)
    ensures
        varint_at(bytes) matches Some((_, n)) ==> 0 < n <= bytes.len() && n <= 10,
{
    lemma_varint_prefix_bounds(bytes, 10);
}

proof fn lemma_varint_prefix_of_bytes(value: nat, width: nat, rest: Seq<u8>)
    requires
        0 < width,
        value < pow128(width),
    ensures
        varint_prefix(varint_bytes(value) + rest, width) == Some((value, varint_bytes(value).len())),
        varint_bytes(value).len() > 0,
    decreases value,
{
    let all = varint_bytes(value) + rest;
    if value < 128 {
        assert(all[0] == value as u8);
    } else {
        reveal_with_fuel(pow128, 2);
        lemma_varint_prefix_of_bytes(value / 128, (width - 1) as nat, rest);
        assert(all.skip(1) =~= varint_bytes(value / 128) + rest);
        assert(all[0] == (value % 128 + 128) as u8);
    }
}

/// Reading back a varint gives the value that was written, whatever follows it.
pub proof fn lemma_varint_round_trip(value: u64, rest: Seq<u8>)
    ensures
        varint_at(varint_bytes(value as nat) + rest) == Some(
            (value, varint_bytes(value as nat).len()),
        ),
        varint_bytes(value as nat).len() > 0,
{
    reveal_with_fuel(pow128, 11);
    lemma_varint_prefix_of_bytes(value as nat, 10, rest);
}

/// Calls `prost::encoding::encode_varint`, which appends the varint of `value`
/// to the buffer.
#[verifier::external_body]
pub(crate) fn encode_varint(value: u64, buf: &mut Vec<u8>)
    ensures
        final(buf)@ == old(buf)@ + varint_bytes(value as nat),
{
    prost::encoding::encode_varint(value, buf)
}

/// Calls `prost::encoding::decode_varint`, which reads one varint off the front
/// of the buffer and fails if the buffer ends before the varint does, if the
/// varint is wider than ten bytes or if its value does not fit 64 bits. Gives the
/// value and what follows it.
#[verifier::external_body]
pub(crate) fn decode_varint(bytes: &[u8]) -> (r: Option<(u64, &[u8])>)
    ensures
        match r {
            Some((value, rest)) => {
                &&& varint_at(bytes@) matches Some((v, n))
                &&& v == value
                &&& rest@ == bytes@.skip(n as int)
            },
            None => varint_at(bytes@) is None,
        },
{
    let mut rest = bytes;
    match prost::encoding::decode_varint(&mut rest) {
        Ok(value) => Some((value, rest)),
        Err(_) => None,
    }
}

// ---------------------------------------------------------------------------
// Fields
// ---------------------------------------------------------------------------

/// The value of a field, as far as this format has a use for it: it has none for
/// fixed-width values and groups.
pub enum Value {
    Varint(u64),
    Bytes(Vec<u8>),
    Other,
}

/// One field of a message.
pub struct Field {
    pub number: u32,
    pub value: Value,
}

/// What [`Value`] stands for.
pub enum ValueView {
    Varint(u64),
    Bytes(Seq<u8>),
    Other,
}

/// What [`Field`] stands for.
pub struct FieldView {
    pub number: u32,
    pub value: ValueView,
}

impl View for Value {
    type V = ValueView;

    open spec fn view(&self) -> ValueView {
        match self {
            Value::Varint(v) => ValueView::Varint(*v),
            Value::Bytes(b) => ValueView::Bytes(b@),
            Value::Other => ValueView::Other,
        }
    }
}

impl View for Field {
    type V = FieldView;

    open spec fn view(&self) -> FieldView {
        FieldView { number: self.number, value: self.value@ }
    }
}

/// What a sequence of values stands for.
pub open spec fn seq_view<T: View>(s: Seq<T>) -> Seq<T::V> {
    Seq::new(s.len(), |i: int| s[i]@)
}

/// What an optional value stands for.
pub open spec fn opt_view<T: View>(o: Option<T>) -> Option<T::V> {
    match o {
        Some(v) => Some(v@),
        None => None,
    }
}

/// The key at the start of `bytes`: the field number, the wire type and the width
/// of the key. Field number 0 and the wire types 6 and 7 do not exist.
pub open spec fn key_at(bytes: Seq<u8>) -> Option<(u32, u8, nat)> {
    match varint_at(bytes) {
        Some((key, n)) => if key > u32::MAX || key % 8 > FIXED32 || key / 8 == 0 {
            None
        } else {
            Some(((key / 8) as u32, (key % 8) as u8, n))
        },
        None => None,
    }
}

/// The width of the value at the start of `bytes`, which belongs to a field with
/// the given number and wire type.
pub open spec fn value_width(number: u32, wire_type: u8, bytes: Seq<u8>, limit: nat) -> Option<nat>
    decreases limit, bytes.len(), 1nat,
{
    if limit == 0 {
        None
    } else if wire_type == VARINT {
        match varint_at(bytes) {
            Some((_, n)) => Some(n),
            None => None,
        }
    } else if wire_type == FIXED32 {
        if bytes.len() >= 4 {
            Some(4)
        } else {
            None
        }
    } else if wire_type == FIXED64 {
        if bytes.len() >= 8 {
            Some(8)
        } else {
            None
        }
    } else if wire_type == LEN {
        match varint_at(bytes) {
            Some((len, n)) => if n + len <= bytes.len() {
                Some(n + len as nat)
            } else {
                None
            },
            None => None,
        }
    } else if wire_type == START_GROUP {
        group_width(number, bytes, limit)
    } else {
        None
    }
}

/// The width of the rest of a group: fields up to the end-group key that carries
/// the group's own number, and that key.
pub open spec fn group_width(number: u32, bytes: Seq<u8>, limit: nat) -> Option<nat>
    decreases limit, bytes.len(), 0nat,
{
    if limit == 0 {
        None
    } else {
        match key_at(bytes) {
            Some((inner, wire_type, k)) => if wire_type == END_GROUP {
                if inner == number {
                    Some(k)
                } else {
                    None
                }
            } else {
                match value_width(inner, wire_type, bytes.skip(k as int), (limit - 1) as nat) {
                    Some(n) => if 0 < k && k + n <= bytes.len() {
                        match group_width(number, bytes.skip((k + n) as int), limit) {
                            Some(rest) => Some(k + n + rest),
                            None => None,
                        }
                    } else {
                        None
                    },
                    None => None,
                }
            },
            None => None,
        }
    }
}

/// The field at the start of `bytes` and its width.
pub open spec fn field_at(bytes: Seq<u8>, limit: nat) -> Option<(FieldView, nat)> {
    match key_at(bytes) {
        Some((number, wire_type, k)) => {
            let rest = bytes.skip(k as int);
            if wire_type == VARINT {
                match varint_at(rest) {
                    Some((v, n)) => Some((FieldView { number, value: ValueView::Varint(v) }, k + n)),
                    None => None,
                }
            } else if wire_type == LEN {
                match varint_at(rest) {
                    Some((len, n)) => if n + len <= rest.len() {
                        Some(
                            (
                                FieldView {
                                    number,
                                    value: ValueView::Bytes(rest.subrange(n as int, n + len)),
                                },
                                k + n + len as nat,
                            ),
                        )
                    } else {
                        None
                    },
                    None => None,
                }
            } else {
                match value_width(number, wire_type, rest, limit) {
                    Some(n) => Some((FieldView { number, value: ValueView::Other }, k + n)),
                    None => None,
                }
            }
        },
        None => None,
    }
}

/// The fields that `bytes` is made of, in order, if it is made of whole fields.
pub open spec fn split(bytes: Seq<u8>, limit: nat) -> Option<Seq<FieldView>>
    decreases bytes.len(),
{
    if bytes.len() == 0 {
        Some(Seq::empty())
    } else {
        match field_at(bytes, limit) {
            Some((field, n)) => if 0 < n <= bytes.len() {
                match split(bytes.skip(n as int), limit) {
                    Some(rest) => Some(seq![field] + rest),
                    None => None,
                }
            } else {
                None
            },
            None => None,
        }
    }
}

/// The bytes of one field. A value of another kind is never written.
pub open spec fn field_bytes(field: FieldView) -> Seq<u8> {
    match field.value {
        ValueView::Varint(v) => varint_bytes((field.number * 8 + VARINT) as nat) + varint_bytes(
            v as nat,
        ),
        ValueView::Bytes(b) => varint_bytes((field.number * 8 + LEN) as nat) + varint_bytes(b.len())
            + b,
        ValueView::Other => Seq::empty(),
    }
}

/// The bytes of a run of fields.
pub open spec fn join(fields: Seq<FieldView>) -> Seq<u8>
    decreases fields.len(),
{
    if fields.len() == 0 {
        Seq::empty()
    } else {
        join(fields.drop_last()) + field_bytes(fields.last())
    }
}

/// A field that can be written: its number fits a key, and its value is a varint
/// or bytes whose length fits a varint.
pub open spec fn writable(field: FieldView) -> bool {
    &&& 0 < field.number <= MAX_FIELD_NUMBER
    &&& match field.value {
        ValueView::Varint(_) => true,
        ValueView::Bytes(b) => b.len() <= u64::MAX,
        ValueView::Other => false,
    }
}

proof fn lemma_key_at_bounds(bytes: Seq<u8>)
    ensures
        key_at(bytes) matches Some((number, wire_type, k)) ==> 0 < k <= bytes.len() && wire_type
            <= FIXED32 && number > 0,
{
    lemma_varint_at_bounds(bytes);
}

proof fn lemma_width_bounds(number: u32, wire_type: u8, bytes: Seq<u8>, limit: nat)
    ensures
        value_width(number, wire_type, bytes, limit) matches Some(n) ==> n <= bytes.len(),
    decreases limit, bytes.len(), 1nat,
{
    lemma_varint_at_bounds(bytes);
    if limit > 0 && wire_type == START_GROUP {
        lemma_group_width_bounds(number, bytes, limit);
    }
}

proof fn lemma_group_width_bounds(number: u32, bytes: Seq<u8>, limit: nat)
    ensures
        group_width(number, bytes, limit) matches Some(n) ==> n <= bytes.len(),
    decreases limit, bytes.len(), 0nat,
{
    lemma_key_at_bounds(bytes);
    if limit > 0 {
        if let Some((inner, wire_type, k)) = key_at(bytes) {
            if wire_type != END_GROUP {
                lemma_width_bounds(inner, wire_type, bytes.skip(k as int), (limit - 1) as nat);
                if let Some(n) = value_width(
                    inner,
                    wire_type,
                    bytes.skip(k as int),
                    (limit - 1) as nat,
                ) {
                    lemma_group_width_bounds(number, bytes.skip((k + n) as int), limit);
                }
            }
        }
    }
}

proof fn lemma_key_round_trip(number: u32, wire_type: u8, rest: Seq<u8>)
    requires
        0 < number <= MAX_FIELD_NUMBER,
        wire_type <= FIXED32,
    ensures
        key_at(varint_bytes((number * 8 + wire_type) as nat) + rest) == Some(
            (number, wire_type, varint_bytes((number * 8 + wire_type) as nat).len()),
        ),
        varint_bytes((number * 8 + wire_type) as nat).len() > 0,
{
    lemma_varint_round_trip((number * 8 + wire_type) as u64, rest);
}

proof fn lemma_field_round_trip(field: FieldView, rest: Seq<u8>, limit: nat)
    requires
        writable(field),
    ensures
        field_at(field_bytes(field) + rest, limit) == Some((field, field_bytes(field).len())),
        field_bytes(field).len() > 0,
{
    let all = field_bytes(field) + rest;
    match field.value {
        ValueView::Varint(v) => {
            let key = varint_bytes((field.number * 8 + VARINT) as nat);
            let val = varint_bytes(v as nat);
            lemma_key_round_trip(field.number, VARINT, val + rest);
            lemma_varint_round_trip(v, rest);
            assert(all =~= key + (val + rest));
            assert(all.skip(key.len() as int) =~= val + rest);
        },
        ValueView::Bytes(b) => {
            let key = varint_bytes((field.number * 8 + LEN) as nat);
            let len = varint_bytes(b.len());
            lemma_key_round_trip(field.number, LEN, len + b + rest);
            lemma_varint_round_trip(b.len() as u64, b + rest);
            assert(all =~= key + (len + b + rest));
            let tail = all.skip(key.len() as int);
            assert(tail =~= len + (b + rest));
            assert(tail.subrange(len.len() as int, (len.len() + b.len()) as int) =~= b);
        },
        ValueView::Other => {},
    }
}

proof fn lemma_join_first(fields: Seq<FieldView>)
    requires
        fields.len() > 0,
    ensures
        join(fields) == field_bytes(fields.first()) + join(fields.drop_first()),
    decreases fields.len(),
{
    if fields.len() == 1 {
        reveal_with_fuel(join, 2);
        assert(fields.drop_last() =~= Seq::empty());
        assert(fields.drop_first() =~= Seq::empty());
        assert(join(fields) =~= field_bytes(fields[0]) + join(fields.drop_first()));
    } else {
        lemma_join_first(fields.drop_last());
        assert(fields.drop_last().drop_first() =~= fields.drop_first().drop_last());
        assert(fields.drop_first().last() == fields.last());
        assert(join(fields) =~= field_bytes(fields.first()) + join(fields.drop_first()));
    }
}

/// Joining fields and splitting the bytes gives the fields back.
pub proof fn lemma_split_join(fields: Seq<FieldView>, limit: nat)
    requires
        forall|i: int| 0 <= i < fields.len() ==> writable(#[trigger] fields[i]),
    ensures
        split(join(fields), limit) == Some(fields),
    decreases fields.len(),
{
    if fields.len() > 0 {
        lemma_join_first(fields);
        let rest = fields.drop_first();
        assert forall|i: int| 0 <= i < rest.len() implies writable(#[trigger] rest[i]) by {
            assert(rest[i] == fields[i + 1]);
        }
        lemma_split_join(rest, limit);
        let first = field_bytes(fields.first());
        lemma_field_round_trip(fields.first(), join(rest), limit);
        assert(join(fields).skip(first.len() as int) =~= join(rest));
        assert(seq![fields.first()] + rest =~= fields);
    } else {
        assert(fields =~= Seq::empty());
    }
}

/// Joining two runs of fields one after the other joins both.
pub proof fn lemma_join_add(a: Seq<FieldView>, b: Seq<FieldView>)
    ensures
        join(a + b) == join(a) + join(b),
    decreases b.len(),
{
    if b.len() == 0 {
        assert(a + b =~= a);
        assert(join(a) + join(b) =~= join(a));
    } else {
        lemma_join_add(a, b.drop_last());
        assert((a + b).drop_last() =~= a + b.drop_last());
        assert((a + b).last() == b.last());
        assert(join(a + b) =~= join(a) + join(b));
    }
}

// ---------------------------------------------------------------------------
// Reading and writing fields
// ---------------------------------------------------------------------------

fn read_key(bytes: &[u8]) -> (r: Option<(u32, u8, &[u8])>)
    ensures
        match r {
            Some((number, wire_type, rest)) => {
                &&& key_at(bytes@) matches Some((n, w, k))
                &&& n == number
                &&& w == wire_type
                &&& rest@ == bytes@.skip(k as int)
            },
            None => key_at(bytes@) is None,
        },
{
    match decode_varint(bytes) {
        Some((key, rest)) => {
            if key > 0xffff_ffff || key % 8 > FIXED32 as u64 || key / 8 == 0 {
                None
            } else {
                Some(((key / 8) as u32, (key % 8) as u8, rest))
            }
        },
        None => None,
    }
}

/// Splits `n` bytes off the front.
fn take(bytes: &[u8], n: u64) -> (r: Option<(&[u8], &[u8])>)
    ensures
        match r {
            Some((front, rest)) => {
                &&& n <= bytes@.len()
                &&& front@ == bytes@.subrange(0, n as int)
                &&& rest@ == bytes@.skip(n as int)
            },
            None => n > bytes@.len(),
        },
{
    if n > bytes.len() as u64 {
        None
    } else {
        let (front, rest) = bytes.split_at(n as usize);
        assert(rest@ =~= bytes@.skip(n as int));
        Some((front, rest))
    }
}

/// Drops the value at the front of `bytes`; gives what follows it.
fn skip_value(number: u32, wire_type: u8, bytes: &[u8], limit: u32) -> (r: Option<&[u8]>)
    ensures
        match r {
            Some(rest) => {
                &&& value_width(number, wire_type, bytes@, limit as nat) matches Some(n)
                &&& rest@ == bytes@.skip(n as int)
            },
            None => value_width(number, wire_type, bytes@, limit as nat) is None,
        },
    decreases limit, bytes@.len(), 1nat,
{
    if limit == 0 {
        return None;
    }
    proof {
        lemma_varint_at_bounds(bytes@);
    }
    match wire_type {
        VARINT => match decode_varint(bytes) {
            Some((_, rest)) => Some(rest),
            None => None,
        },
        FIXED32 => match take(bytes, 4) {
            Some((_, rest)) => Some(rest),
            None => None,
        },
        FIXED64 => match take(bytes, 8) {
            Some((_, rest)) => Some(rest),
            None => None,
        },
        LEN => match decode_varint(bytes) {
            Some((len, after)) => match take(after, len) {
                Some((_, rest)) => {
                    assert(rest@ =~= bytes@.skip(
                        ((varint_at(bytes@)->0).1 + len) as int,
                    ));
                    Some(rest)
                },
                None => None,
            },
            None => None,
        },
        START_GROUP => skip_group(number, bytes, limit),
        _ => None,
    }
}

/// Drops the rest of a group; gives what follows it.
fn skip_group(number: u32, bytes: &[u8], limit: u32) -> (r: Option<&[u8]>)
    requires
        limit > 0,
    ensures
        match r {
            Some(rest) => {
                &&& group_width(number, bytes@, limit as nat) matches Some(n)
                &&& rest@ == bytes@.skip(n as int)
            },
            None => group_width(number, bytes@, limit as nat) is None,
        },
    decreases limit, bytes@.len(), 0nat,
{
    let mut rest = bytes;
    let ghost mut done: nat = 0;
    loop
        invariant
            limit > 0,
            done <= bytes@.len(),
            rest@ == bytes@.skip(done as int),
            group_width(number, bytes@, limit as nat) == match group_width(
                number,
                rest@,
                limit as nat,
            ) {
                Some(n) => Some(done + n),
                None => None,
            },
        decreases rest@.len(),
    {
        proof {
            lemma_key_at_bounds(rest@);
        }
        match read_key(rest) {
            Some((inner, wire_type, after)) => {
                let ghost k = (key_at(rest@)->0).2;
                if wire_type == END_GROUP {
                    if inner == number {
                        assert(after@ =~= bytes@.skip((done + k) as int));
                        return Some(after);
                    }
                    return None;
                }
                proof {
                    lemma_width_bounds(inner, wire_type, after@, (limit - 1) as nat);
                }
                match skip_value(inner, wire_type, after, limit - 1) {
                    Some(next) => {
                        let ghost n = value_width(inner, wire_type, after@, (limit - 1) as nat)->0;
                        assert(next@ =~= rest@.skip((k + n) as int));
                        assert(next@ =~= bytes@.skip((done + k + n) as int));
                        proof {
                            done = done + k + n;
                        }
                        rest = next;
                    },
                    None => {
                        return None;
                    },
                }
            },
            None => {
                return None;
            },
        }
    }
}

fn read_field(bytes: &[u8], limit: u32) -> (r: Option<(Field, &[u8])>)
    ensures
        match r {
            Some((field, rest)) => {
                &&& field_at(bytes@, limit as nat) matches Some((f, n))
                &&& f == field@
                &&& 0 < n <= bytes@.len()
                &&& rest@ == bytes@.skip(n as int)
            },
            None => field_at(bytes@, limit as nat) is None,
        },
{
    proof {
        lemma_key_at_bounds(bytes@);
    }
    match read_key(bytes) {
        Some((number, wire_type, after)) => {
            let ghost k = (key_at(bytes@)->0).2;
            proof {
                lemma_varint_at_bounds(after@);
                lemma_width_bounds(number, wire_type, after@, limit as nat);
            }
            match wire_type {
                VARINT => match decode_varint(after) {
                    Some((v, rest)) => {
                        assert(rest@ =~= bytes@.skip((k + (varint_at(after@)->0).1) as int));
                        Some((Field { number, value: Value::Varint(v) }, rest))
                    },
                    None => None,
                },
                LEN => match decode_varint(after) {
                    Some((len, payload)) => {
                        let ghost n = (varint_at(after@)->0).1;
                        match take(payload, len) {
                            Some((front, rest)) => {
                                assert(front@ =~= after@.subrange(n as int, n + len));
                                assert(rest@ =~= bytes@.skip((k + n + len) as int));
                                Some(
                                    (
                                        Field {
                                            number,
                                            value: Value::Bytes(vstd::slice::slice_to_vec(front)),
                                        },
                                        rest,
                                    ),
                                )
                            },
                            None => None,
                        }
                    },
                    None => None,
                },
                _ => match skip_value(number, wire_type, after, limit) {
                    Some(rest) => {
                        assert(rest@ =~= bytes@.skip(
                            (k + value_width(number, wire_type, after@, limit as nat)->0) as int,
                        ));
                        Some((Field { number, value: Value::Other }, rest))
                    },
                    None => None,
                },
            }
        },
        None => None,
    }
}

/// Splits a message into its fields, or fails if it is not made of whole fields.
pub fn split_fields(bytes: &[u8], limit: u32) -> (r: Option<Vec<Field>>)
    ensures
        match r {
            Some(fields) => split(bytes@, limit as nat) == Some(seq_view(fields@)),
            None => split(bytes@, limit as nat) is None,
        },
{
    let mut fields: Vec<Field> = Vec::new();
    let mut rest = bytes;
    assert(bytes@ =~= bytes@.skip(0));
    while rest.len() > 0
        invariant
            split(bytes@, limit as nat) == match split(rest@, limit as nat) {
                Some(more) => Some(seq_view(fields@) + more),
                None => None,
            },
        decreases rest@.len(),
    {
        match read_field(rest, limit) {
            Some((field, next)) => {
                let ghost before = seq_view(fields@);
                let ghost f = field@;
                fields.push(field);
                assert(seq_view(fields@) =~= before.push(f));
                proof {
                    if let Some(more) = split(next@, limit as nat) {
                        assert(before + (seq![f] + more) =~= seq_view(fields@) + more);
                    }
                }
                rest = next;
            },
            None => {
                return None;
            },
        }
    }
    assert(seq_view(fields@) + Seq::<FieldView>::empty() =~= seq_view(fields@));
    Some(fields)
}

} // verus!

//! Messages: how the fields of a run turn into typed values and back.
//!
//! A field may occur any number of times. A singular scalar takes the value of
//! its last occurrence, a singular message merges all of its occurrences, and a
//! repeated field collects them in order. A field whose wire type does not fit
//! its type makes the whole message unreadable; a field with an unknown number is
//! dropped.

use vstd::prelude::*;
use vstd::utf8::*;

use crate::wire;
use crate::wire::{Field, FieldView, Value, ValueView, MAX_FIELD_NUMBER};

verus! {

// ---------------------------------------------------------------------------
// Occurrences
// ---------------------------------------------------------------------------

/// The values of the fields with the given number, in order.
pub open spec fn values_of(fields: Seq<FieldView>, number: u32) -> Seq<ValueView>
    decreases fields.len(),
{
    if fields.len() == 0 {
        Seq::empty()
    } else if fields.last().number == number {
        values_of(fields.drop_last(), number).push(fields.last().value)
    } else {
        values_of(fields.drop_last(), number)
    }
}

/// One field with the given number for each value.
pub open spec fn fields_of(number: u32, values: Seq<ValueView>) -> Seq<FieldView> {
    Seq::new(values.len(), |i: int| FieldView { number, value: values[i] })
}

proof fn lemma_values_of_add(a: Seq<FieldView>, b: Seq<FieldView>, number: u32)
    ensures
        values_of(a + b, number) == values_of(a, number) + values_of(b, number),
    decreases b.len(),
{
    if b.len() == 0 {
        assert(a + b =~= a);
        assert(values_of(a, number) + values_of(b, number) =~= values_of(a, number));
    } else {
        lemma_values_of_add(a, b.drop_last(), number);
        assert((a + b).drop_last() =~= a + b.drop_last());
        assert((a + b).last() == b.last());
        assert(values_of(a + b, number) =~= values_of(a, number) + values_of(b, number));
    }
}

proof fn lemma_values_of_fields_of(n: u32, values: Seq<ValueView>, number: u32)
    ensures
        values_of(fields_of(n, values), number) == if n == number {
            values
        } else {
            Seq::empty()
        },
    decreases values.len(),
{
    let fields = fields_of(n, values);
    if values.len() > 0 {
        lemma_values_of_fields_of(n, values.drop_last(), number);
        assert(fields.drop_last() =~= fields_of(n, values.drop_last()));
        assert(values.drop_last().push(values.last()) =~= values);
    } else {
        assert(values =~= Seq::empty());
    }
}

/// What a message holds under one field number.
pub type Part = (u32, Seq<ValueView>);

/// The fields of a message, given by what it holds under each number.
pub open spec fn all_fields(parts: Seq<Part>) -> Seq<FieldView>
    decreases parts.len(),
{
    if parts.len() == 0 {
        Seq::empty()
    } else {
        all_fields(parts.drop_last()) + fields_of(parts.last().0, parts.last().1)
    }
}

/// The parts are in the order of their numbers, and no number occurs twice.
pub open spec fn in_order(parts: Seq<Part>) -> bool {
    forall|i: int, j: int|
        0 <= i < j < parts.len() ==> (#[trigger] parts[i]).0 < (#[trigger] parts[j]).0
}

proof fn lemma_absent(parts: Seq<Part>, number: u32)
    requires
        forall|i: int| 0 <= i < parts.len() ==> (#[trigger] parts[i]).0 != number,
    ensures
        values_of(all_fields(parts), number) == Seq::<ValueView>::empty(),
    decreases parts.len(),
{
    if parts.len() > 0 {
        let front = parts.drop_last();
        assert forall|i: int| 0 <= i < front.len() implies (#[trigger] front[i]).0 != number by {
            assert(front[i] == parts[i]);
        }
        lemma_absent(front, number);
        let last = parts.last();
        lemma_values_of_fields_of(last.0, last.1, number);
        lemma_values_of_add(all_fields(front), fields_of(last.0, last.1), number);
        assert(Seq::<ValueView>::empty() + Seq::<ValueView>::empty() =~= Seq::<ValueView>::empty());
    }
}

/// What was put under a number is found under that number.
pub proof fn lemma_part(parts: Seq<Part>, k: int)
    requires
        in_order(parts),
        0 <= k < parts.len(),
    ensures
        values_of(all_fields(parts), parts[k].0) == parts[k].1,
    decreases parts.len(),
{
    let front = parts.drop_last();
    let last = parts.last();
    let number = parts[k].0;
    assert(in_order(front)) by {
        assert forall|i: int, j: int| 0 <= i < j < front.len() implies (#[trigger] front[i]).0 < (
        #[trigger] front[j]).0 by {
            assert(front[i] == parts[i] && front[j] == parts[j]);
        }
    }
    lemma_values_of_fields_of(last.0, last.1, number);
    lemma_values_of_add(all_fields(front), fields_of(last.0, last.1), number);
    if k < front.len() {
        assert(front[k] == parts[k]);
        lemma_part(front, k);
        assert(parts[k].1 + Seq::<ValueView>::empty() =~= parts[k].1);
    } else {
        assert forall|i: int| 0 <= i < front.len() implies (#[trigger] front[i]).0 != number by {
            assert(front[i] == parts[i]);
        }
        lemma_absent(front, number);
        assert(Seq::<ValueView>::empty() + parts[k].1 =~= parts[k].1);
    }
}

/// Fields that can be written, as far as their lengths allow: the number fits a
/// key, and the value is a varint or bytes.
pub open spec fn proper(fields: Seq<FieldView>) -> bool {
    forall|i: int|
        0 <= i < fields.len() ==> 0 < (#[trigger] fields[i]).number <= MAX_FIELD_NUMBER
            && !(fields[i].value is Other)
}

/// Values that can be written, as far as their lengths allow.
pub open spec fn proper_values(values: Seq<ValueView>) -> bool {
    forall|i: int| 0 <= i < values.len() ==> !(#[trigger] values[i] is Other)
}

/// Parts that can be written, as far as their lengths allow.
pub open spec fn proper_parts(parts: Seq<Part>) -> bool {
    forall|i: int|
        0 <= i < parts.len() ==> 0 < (#[trigger] parts[i]).0 <= MAX_FIELD_NUMBER && proper_values(
            parts[i].1,
        )
}

proof fn lemma_proper(parts: Seq<Part>)
    requires
        proper_parts(parts),
    ensures
        proper(all_fields(parts)),
    decreases parts.len(),
{
    if parts.len() > 0 {
        let front = parts.drop_last();
        let last = parts.last();
        assert forall|i: int| 0 <= i < front.len() implies 0 < (#[trigger] front[i]).0
            <= MAX_FIELD_NUMBER && proper_values(front[i].1) by {
            assert(front[i] == parts[i]);
        }
        lemma_proper(front);
        assert(parts[parts.len() - 1] == last);
        let a = all_fields(front);
        let b = fields_of(last.0, last.1);
        assert forall|i: int| 0 <= i < (a + b).len() implies 0 < (#[trigger] (a + b)[i]).number
            <= MAX_FIELD_NUMBER && !((a + b)[i].value is Other) by {
            if i < a.len() {
                assert((a + b)[i] == a[i]);
            } else {
                assert((a + b)[i] == b[i - a.len()]);
                assert(!(last.1[i - a.len()] is Other));
            }
        }
    }
}

/// The bytes of a value are no longer than the message that holds them.
proof fn lemma_value_len(fields: Seq<FieldView>, number: u32, i: int)
    requires
        0 <= i < values_of(fields, number).len(),
    ensures
        values_of(fields, number)[i] matches ValueView::Bytes(b) ==> b.len() <= wire::join(fields).len(),
    decreases fields.len(),
{
    let rest = fields.drop_last();
    if i < values_of(rest, number).len() {
        lemma_value_len(rest, number, i);
        assert(values_of(fields, number)[i] == values_of(rest, number)[i]);
    } else {
        assert(values_of(fields, number)[i] == fields.last().value);
    }
}

proof fn lemma_field_len(fields: Seq<FieldView>, i: int)
    requires
        0 <= i < fields.len(),
    ensures
        fields[i].value matches ValueView::Bytes(b) ==> b.len() <= wire::join(fields).len(),
    decreases fields.len(),
{
    if i < fields.len() - 1 {
        lemma_field_len(fields.drop_last(), i);
    }
}

// ---------------------------------------------------------------------------
// Numbers
// ---------------------------------------------------------------------------

/// How a 32-bit number is written: sign-extended to 64 bits.
pub open spec fn int32_bits(v: i32) -> u64 {
    if v >= 0 {
        v as u64
    } else {
        (v + 0x1_0000_0000_0000_0000) as u64
    }
}

/// How a 32-bit number is read: from the low 32 bits.
pub open spec fn int32_from(bits: u64) -> i32 {
    let low = bits % 0x1_0000_0000;
    if low < 0x8000_0000 {
        low as i32
    } else {
        (low - 0x1_0000_0000) as i32
    }
}

pub open spec fn int64_bits(v: i64) -> u64 {
    if v >= 0 {
        v as u64
    } else {
        (v + 0x1_0000_0000_0000_0000) as u64
    }
}

pub open spec fn int64_from(bits: u64) -> i64 {
    if bits < 0x8000_0000_0000_0000 {
        bits as i64
    } else {
        (bits - 0x1_0000_0000_0000_0000) as i64
    }
}

pub open spec fn uint32_from(bits: u64) -> u32 {
    (bits % 0x1_0000_0000) as u32
}

pub open spec fn bool_bits(v: bool) -> u64 {
    if v {
        1
    } else {
        0
    }
}

pub open spec fn all_varints(values: Seq<ValueView>) -> bool {
    forall|i: int| 0 <= i < values.len() ==> #[trigger] values[i] is Varint
}

pub open spec fn all_bytes(values: Seq<ValueView>) -> bool {
    forall|i: int| 0 <= i < values.len() ==> #[trigger] values[i] is Bytes
}

/// What a singular number holds: the bits of its last occurrence. `None` where an
/// occurrence is no varint.
pub open spec fn bits_of(values: Seq<ValueView>) -> Option<Option<u64>> {
    if !all_varints(values) {
        None
    } else if values.len() == 0 {
        Some(None)
    } else {
        Some(Some(values.last()->Varint_0))
    }
}

pub open spec fn int32_of(values: Seq<ValueView>) -> Option<Option<i32>> {
    match bits_of(values) {
        Some(Some(bits)) => Some(Some(int32_from(bits))),
        Some(None) => Some(None),
        None => None,
    }
}

pub open spec fn int64_of(values: Seq<ValueView>) -> Option<Option<i64>> {
    match bits_of(values) {
        Some(Some(bits)) => Some(Some(int64_from(bits))),
        Some(None) => Some(None),
        None => None,
    }
}

pub open spec fn uint32_of(values: Seq<ValueView>) -> Option<Option<u32>> {
    match bits_of(values) {
        Some(Some(bits)) => Some(Some(uint32_from(bits))),
        Some(None) => Some(None),
        None => None,
    }
}

pub open spec fn bool_of(values: Seq<ValueView>) -> Option<Option<bool>> {
    match bits_of(values) {
        Some(Some(bits)) => Some(Some(bits != 0)),
        Some(None) => Some(None),
        None => None,
    }
}

pub open spec fn int32_values(v: Option<i32>) -> Seq<ValueView> {
    match v {
        Some(v) => seq![ValueView::Varint(int32_bits(v))],
        None => Seq::empty(),
    }
}

pub open spec fn int64_values(v: Option<i64>) -> Seq<ValueView> {
    match v {
        Some(v) => seq![ValueView::Varint(int64_bits(v))],
        None => Seq::empty(),
    }
}

pub open spec fn uint32_values(v: Option<u32>) -> Seq<ValueView> {
    match v {
        Some(v) => seq![ValueView::Varint(v as u64)],
        None => Seq::empty(),
    }
}

pub open spec fn bool_values(v: Option<bool>) -> Seq<ValueView> {
    match v {
        Some(v) => seq![ValueView::Varint(bool_bits(v))],
        None => Seq::empty(),
    }
}

proof fn lemma_int32_bits(v: i32)
    ensures
        int32_from(int32_bits(v)) == v,
{
}

pub broadcast proof fn lemma_int32_round_trip(v: Option<i32>)
    ensures
        int32_of(#[trigger] int32_values(v)) == Some(v),
        proper_values(int32_values(v)),
{
    if let Some(v) = v {
        lemma_int32_bits(v);
    }
}

pub broadcast proof fn lemma_int64_round_trip(v: Option<i64>)
    ensures
        int64_of(#[trigger] int64_values(v)) == Some(v),
        proper_values(int64_values(v)),
{
}

pub broadcast proof fn lemma_uint32_round_trip(v: Option<u32>)
    ensures
        uint32_of(#[trigger] uint32_values(v)) == Some(v),
        proper_values(uint32_values(v)),
{
}

pub broadcast proof fn lemma_bool_round_trip(v: Option<bool>)
    ensures
        bool_of(#[trigger] bool_values(v)) == Some(v),
        proper_values(bool_values(v)),
{
}

// ---------------------------------------------------------------------------
// Strings and bytes
// ---------------------------------------------------------------------------

/// What a singular run of bytes holds: its last occurrence.
pub open spec fn bytes_of(values: Seq<ValueView>) -> Option<Option<Seq<u8>>> {
    if !all_bytes(values) {
        None
    } else if values.len() == 0 {
        Some(None)
    } else {
        Some(Some(values.last()->Bytes_0))
    }
}

/// What a singular string holds: its last occurrence. Every occurrence must be
/// UTF-8.
pub open spec fn string_of(values: Seq<ValueView>) -> Option<Option<Seq<char>>> {
    if !all_bytes(values) || exists|i: int|
        0 <= i < values.len() && !valid_utf8((#[trigger] values[i])->Bytes_0) {
        None
    } else if values.len() == 0 {
        Some(None)
    } else {
        Some(Some(decode_utf8(values.last()->Bytes_0)))
    }
}

pub open spec fn bytes_values(v: Option<Seq<u8>>) -> Seq<ValueView> {
    match v {
        Some(v) => seq![ValueView::Bytes(v)],
        None => Seq::empty(),
    }
}

pub open spec fn string_values(v: Option<Seq<char>>) -> Seq<ValueView> {
    match v {
        Some(v) => seq![ValueView::Bytes(encode_utf8(v))],
        None => Seq::empty(),
    }
}

pub broadcast proof fn lemma_bytes_round_trip(v: Option<Seq<u8>>)
    ensures
        bytes_of(#[trigger] bytes_values(v)) == Some(v),
        proper_values(bytes_values(v)),
{
}

pub broadcast proof fn lemma_string_round_trip(v: Option<Seq<char>>)
    ensures
        string_of(#[trigger] string_values(v)) == Some(v),
        proper_values(string_values(v)),
{
    if let Some(v) = v {
        encode_utf8_valid_utf8(v);
        encode_utf8_decode_utf8(v);
    }
}

// ---------------------------------------------------------------------------
// Repeated numbers
// ---------------------------------------------------------------------------

/// The numbers that a packed run of varints holds.
pub open spec fn unpacked(bytes: Seq<u8>) -> Option<Seq<i32>>
    decreases bytes.len(),
{
    if bytes.len() == 0 {
        Some(Seq::empty())
    } else {
        match wire::varint_at(bytes) {
            Some((bits, n)) => if 0 < n <= bytes.len() {
                match unpacked(bytes.skip(n as int)) {
                    Some(rest) => Some(seq![int32_from(bits)] + rest),
                    None => None,
                }
            } else {
                None
            },
            None => None,
        }
    }
}

/// A packed run of varints.
pub open spec fn packed(v: Seq<i32>) -> Seq<u8>
    decreases v.len(),
{
    if v.len() == 0 {
        Seq::empty()
    } else {
        packed(v.drop_last()) + wire::varint_bytes(int32_bits(v.last()) as nat)
    }
}

/// What a repeated number holds: each occurrence is one number, or a packed run.
pub open spec fn ints_of(values: Seq<ValueView>) -> Option<Seq<i32>>
    decreases values.len(),
{
    if values.len() == 0 {
        Some(Seq::empty())
    } else {
        match ints_of(values.drop_last()) {
            Some(front) => match values.last() {
                ValueView::Varint(bits) => Some(front.push(int32_from(bits))),
                ValueView::Bytes(b) => match unpacked(b) {
                    Some(more) => Some(front + more),
                    None => None,
                },
                ValueView::Other => None,
            },
            None => None,
        }
    }
}

/// A repeated number that is written one field per number.
pub open spec fn ints_values(v: Seq<i32>) -> Seq<ValueView> {
    Seq::new(v.len(), |i: int| ValueView::Varint(int32_bits(v[i])))
}

/// A repeated number that is written as one packed run.
pub open spec fn packed_values(v: Seq<i32>) -> Seq<ValueView> {
    if v.len() == 0 {
        Seq::empty()
    } else {
        seq![ValueView::Bytes(packed(v))]
    }
}

pub broadcast proof fn lemma_ints_round_trip(v: Seq<i32>)
    ensures
        ints_of(#[trigger] ints_values(v)) == Some(v),
        proper_values(ints_values(v)),
    decreases v.len(),
{
    if v.len() > 0 {
        lemma_ints_round_trip(v.drop_last());
        lemma_int32_bits(v.last());
        assert(ints_values(v).drop_last() =~= ints_values(v.drop_last()));
        assert(v.drop_last().push(v.last()) =~= v);
    } else {
        assert(v =~= Seq::empty());
    }
}

proof fn lemma_packed_first(v: Seq<i32>)
    requires
        v.len() > 0,
    ensures
        packed(v) == wire::varint_bytes(int32_bits(v[0]) as nat) + packed(v.drop_first()),
    decreases v.len(),
{
    if v.len() == 1 {
        reveal_with_fuel(packed, 2);
        assert(v.drop_last() =~= Seq::empty());
        assert(v.drop_first() =~= Seq::empty());
        assert(packed(v) =~= wire::varint_bytes(int32_bits(v[0]) as nat) + packed(v.drop_first()));
    } else {
        lemma_packed_first(v.drop_last());
        assert(v.drop_last().drop_first() =~= v.drop_first().drop_last());
        assert(v.drop_first().last() == v.last());
        assert(packed(v) =~= wire::varint_bytes(int32_bits(v[0]) as nat) + packed(v.drop_first()));
    }
}

proof fn lemma_unpacked_packed(v: Seq<i32>)
    ensures
        unpacked(packed(v)) == Some(v),
    decreases v.len(),
{
    if v.len() > 0 {
        lemma_packed_first(v);
        lemma_unpacked_packed(v.drop_first());
        lemma_int32_bits(v[0]);
        let first = wire::varint_bytes(int32_bits(v[0]) as nat);
        wire::lemma_varint_round_trip(int32_bits(v[0]), packed(v.drop_first()));
        assert(packed(v).skip(first.len() as int) =~= packed(v.drop_first()));
        assert(seq![v[0]] + v.drop_first() =~= v);
    } else {
        assert(v =~= Seq::empty());
    }
}

pub broadcast proof fn lemma_packed_round_trip(v: Seq<i32>)
    ensures
        ints_of(#[trigger] packed_values(v)) == Some(v),
        proper_values(packed_values(v)),
{
    lemma_unpacked_packed(v);
    let values = packed_values(v);
    if v.len() > 0 {
        reveal_with_fuel(ints_of, 2);
        assert(values.drop_last() =~= Seq::empty());
        assert(Seq::<i32>::empty() + v =~= v);
    } else {
        assert(v =~= Seq::empty());
    }
}

/// The 64-bit numbers that a packed run of varints holds.
pub open spec fn unpacked_longs(bytes: Seq<u8>) -> Option<Seq<i64>>
    decreases bytes.len(),
{
    if bytes.len() == 0 {
        Some(Seq::empty())
    } else {
        match wire::varint_at(bytes) {
            Some((bits, n)) => if 0 < n <= bytes.len() {
                match unpacked_longs(bytes.skip(n as int)) {
                    Some(rest) => Some(seq![int64_from(bits)] + rest),
                    None => None,
                }
            } else {
                None
            },
            None => None,
        }
    }
}

/// A packed run of 64-bit varints.
pub open spec fn packed_longs(v: Seq<i64>) -> Seq<u8>
    decreases v.len(),
{
    if v.len() == 0 {
        Seq::empty()
    } else {
        packed_longs(v.drop_last()) + wire::varint_bytes(int64_bits(v.last()) as nat)
    }
}

/// What a repeated 64-bit number holds: each occurrence is one number, or a packed run.
pub open spec fn longs_of(values: Seq<ValueView>) -> Option<Seq<i64>>
    decreases values.len(),
{
    if values.len() == 0 {
        Some(Seq::empty())
    } else {
        match longs_of(values.drop_last()) {
            Some(front) => match values.last() {
                ValueView::Varint(bits) => Some(front.push(int64_from(bits))),
                ValueView::Bytes(b) => match unpacked_longs(b) {
                    Some(more) => Some(front + more),
                    None => None,
                },
                ValueView::Other => None,
            },
            None => None,
        }
    }
}

/// A repeated 64-bit number that is written as one packed run.
pub open spec fn packed_longs_values(v: Seq<i64>) -> Seq<ValueView> {
    if v.len() == 0 {
        Seq::empty()
    } else {
        seq![ValueView::Bytes(packed_longs(v))]
    }
}

proof fn lemma_packed_longs_first(v: Seq<i64>)
    requires
        v.len() > 0,
    ensures
        packed_longs(v) == wire::varint_bytes(int64_bits(v[0]) as nat) + packed_longs(v.drop_first()),
    decreases v.len(),
{
    if v.len() == 1 {
        reveal_with_fuel(packed_longs, 2);
        assert(v.drop_last() =~= Seq::empty());
        assert(v.drop_first() =~= Seq::empty());
        assert(packed_longs(v) =~= wire::varint_bytes(int64_bits(v[0]) as nat) + packed_longs(v.drop_first()));
    } else {
        lemma_packed_longs_first(v.drop_last());
        assert(v.drop_last().drop_first() =~= v.drop_first().drop_last());
        assert(v.drop_first().last() == v.last());
        assert(packed_longs(v) =~= wire::varint_bytes(int64_bits(v[0]) as nat) + packed_longs(v.drop_first()));
    }
}

proof fn lemma_unpacked_packed_longs(v: Seq<i64>)
    ensures
        unpacked_longs(packed_longs(v)) == Some(v),
    decreases v.len(),
{
    if v.len() > 0 {
        lemma_packed_longs_first(v);
        lemma_unpacked_packed_longs(v.drop_first());
        let first = wire::varint_bytes(int64_bits(v[0]) as nat);
        wire::lemma_varint_round_trip(int64_bits(v[0]), packed_longs(v.drop_first()));
        assert(packed_longs(v).skip(first.len() as int) =~= packed_longs(v.drop_first()));
        assert(seq![v[0]] + v.drop_first() =~= v);
    } else {
        assert(v =~= Seq::empty());
    }
}

pub broadcast proof fn lemma_packed_longs_round_trip(v: Seq<i64>)
    ensures
        longs_of(#[trigger] packed_longs_values(v)) == Some(v),
        proper_values(packed_longs_values(v)),
{
    lemma_unpacked_packed_longs(v);
    let values = packed_longs_values(v);
    if v.len() > 0 {
        reveal_with_fuel(longs_of, 2);
        assert(values.drop_last() =~= Seq::empty());
        assert(Seq::<i64>::empty() + v =~= v);
    } else {
        assert(v =~= Seq::empty());
    }
}

// ---------------------------------------------------------------------------
// Messages
// ---------------------------------------------------------------------------

/// A message: a value that is written as a run of fields.
pub trait Message: View + Sized {
    /// How many levels of messages are nested in this one.
    spec fn depth() -> nat;

    /// What the message holds under each field number.
    spec fn parts(v: Self::V) -> Seq<Part>;

    /// The message that a run of fields stands for, or `None` if it is malformed.
    spec fn from_fields(fields: Seq<FieldView>, limit: nat) -> Option<Self::V>;

    /// The fields that a message is written as stand for that message.
    proof fn lemma_round_trip(v: Self::V, limit: nat)
        requires
            wire::join(all_fields(Self::parts(v))).len() <= u64::MAX,
            limit >= Self::depth(),
        ensures
            Self::from_fields(all_fields(Self::parts(v)), limit) == Some(v),
            proper_parts(Self::parts(v)),
    ;

    /// Serializes the message.
    fn encode_to_vec(&self) -> (r: Vec<u8>)
        ensures
            r@ == wire::join(all_fields(Self::parts(self@))),
    ;

    /// A second message that stands for the same as this one.
    fn copy(&self) -> (r: Self)
        ensures
            r@ == self@,
    ;

    /// Builds the message from its fields.
    fn read(fields: &[Field], limit: u32) -> (r: Option<Self>)
        ensures
            wire::opt_view(r) == Self::from_fields(wire::seq_view(fields@), limit as nat),
    ;
}

/// The bytes of a message.
pub open spec fn encoded<M: Message>(v: M::V) -> Seq<u8> {
    wire::join(all_fields(M::parts(v)))
}

/// The message that `bytes` stands for, or `None` if it is malformed.
pub open spec fn decoded<M: Message>(bytes: Seq<u8>) -> Option<M::V> {
    match wire::split(bytes, wire::NESTING_LIMIT as nat) {
        Some(fields) => M::from_fields(fields, wire::NESTING_LIMIT as nat),
        None => None,
    }
}

/// Parses a message, or gives `None` if the bytes are not one.
pub fn decode<M: Message>(bytes: &[u8]) -> (r: Option<M>)
    ensures
        wire::opt_view(r) == decoded::<M>(bytes@),
{
    match wire::split_fields(bytes, wire::NESTING_LIMIT) {
        Some(fields) => M::read(fields.as_slice(), wire::NESTING_LIMIT),
        None => None,
    }
}

proof fn lemma_split_encoded<M: Message>(v: M::V, limit: nat)
    requires
        encoded::<M>(v).len() <= u64::MAX,
        proper_parts(M::parts(v)),
    ensures
        wire::split(encoded::<M>(v), limit) == Some(all_fields(M::parts(v))),
{
    let fields = all_fields(M::parts(v));
    lemma_proper(M::parts(v));
    assert forall|i: int| 0 <= i < fields.len() implies wire::writable(#[trigger] fields[i]) by {
        lemma_field_len(fields, i);
    }
    wire::lemma_split_join(fields, limit);
}

/// Decoding what was encoded gives the message back. A message whose encoding is
/// too long for its length to be written has no such promise.
pub proof fn lemma_decoded_encoded<M: Message>(v: M::V)
    requires
        encoded::<M>(v).len() <= u64::MAX,
        M::depth() <= wire::NESTING_LIMIT,
    ensures
        decoded::<M>(encoded::<M>(v)) == Some(v),
{
    M::lemma_round_trip(v, wire::NESTING_LIMIT as nat);
    lemma_split_encoded::<M>(v, wire::NESTING_LIMIT as nat);
}

/// The fields of all occurrences of a singular message, one after the other.
pub open spec fn merged(values: Seq<ValueView>, limit: nat) -> Option<Seq<FieldView>>
    decreases values.len(),
{
    if values.len() == 0 {
        Some(Seq::empty())
    } else if limit == 0 || !(values.last() is Bytes) {
        None
    } else {
        match merged(values.drop_last(), limit) {
            Some(front) => match wire::split(values.last()->Bytes_0, (limit - 1) as nat) {
                Some(more) => Some(front + more),
                None => None,
            },
            None => None,
        }
    }
}

/// What a singular message holds: all of its occurrences, merged.
pub open spec fn message_of<M: Message>(values: Seq<ValueView>, limit: nat) -> Option<Option<M::V>> {
    match merged(values, limit) {
        Some(fields) => if values.len() == 0 {
            Some(None)
        } else {
            match M::from_fields(fields, (limit - 1) as nat) {
                Some(v) => Some(Some(v)),
                None => None,
            }
        },
        None => None,
    }
}

/// What a repeated message holds: one message per occurrence.
pub open spec fn messages_of<M: Message>(values: Seq<ValueView>, limit: nat) -> Option<Seq<M::V>>
    decreases values.len(),
{
    if values.len() == 0 {
        Some(Seq::empty())
    } else {
        match messages_of::<M>(values.drop_last(), limit) {
            Some(front) => match message_of::<M>(seq![values.last()], limit) {
                Some(Some(v)) => Some(front.push(v)),
                _ => None,
            },
            None => None,
        }
    }
}

pub open spec fn message_values<M: Message>(v: Option<M::V>) -> Seq<ValueView> {
    match v {
        Some(v) => seq![ValueView::Bytes(encoded::<M>(v))],
        None => Seq::empty(),
    }
}

pub open spec fn messages_values<M: Message>(v: Seq<M::V>) -> Seq<ValueView> {
    Seq::new(v.len(), |i: int| ValueView::Bytes(encoded::<M>(v[i])))
}

proof fn lemma_one_message<M: Message>(v: M::V, limit: nat)
    requires
        encoded::<M>(v).len() <= u64::MAX,
        limit > M::depth(),
    ensures
        message_of::<M>(seq![ValueView::Bytes(encoded::<M>(v))], limit) == Some(Some(v)),
{
    let values = seq![ValueView::Bytes(encoded::<M>(v))];
    M::lemma_round_trip(v, (limit - 1) as nat);
    lemma_split_encoded::<M>(v, (limit - 1) as nat);
    reveal_with_fuel(merged, 2);
    assert(values.drop_last() =~= Seq::empty());
    let fields = all_fields(M::parts(v));
    assert(Seq::<FieldView>::empty() + fields =~= fields);
}

/// A singular message that occurs in `fields` as it is written is read back.
pub proof fn lemma_message_round_trip<M: Message>(
    v: Option<M::V>,
    fields: Seq<FieldView>,
    number: u32,
    limit: nat,
)
    requires
        values_of(fields, number) == message_values::<M>(v),
        wire::join(fields).len() <= u64::MAX,
        limit > M::depth(),
    ensures
        message_of::<M>(message_values::<M>(v), limit) == Some(v),
        proper_values(message_values::<M>(v)),
{
    if let Some(v) = v {
        lemma_value_len(fields, number, 0);
        lemma_one_message::<M>(v, limit);
    }
}

proof fn lemma_some_messages<M: Message>(v: Seq<M::V>, limit: nat)
    requires
        forall|i: int| 0 <= i < v.len() ==> (#[trigger] encoded::<M>(v[i])).len() <= u64::MAX,
        limit > M::depth(),
    ensures
        messages_of::<M>(messages_values::<M>(v), limit) == Some(v),
    decreases v.len(),
{
    let values = messages_values::<M>(v);
    if v.len() > 0 {
        assert forall|i: int| 0 <= i < v.drop_last().len() implies (#[trigger] encoded::<M>(
            v.drop_last()[i],
        )).len() <= u64::MAX by {
            assert(v.drop_last()[i] == v[i]);
        }
        lemma_some_messages::<M>(v.drop_last(), limit);
        lemma_one_message::<M>(v.last(), limit);
        assert(values.drop_last() =~= messages_values::<M>(v.drop_last()));
        assert(v.drop_last().push(v.last()) =~= v);
    } else {
        assert(v =~= Seq::empty());
    }
}

/// A repeated message that occurs in `fields` as it is written is read back.
pub proof fn lemma_messages_round_trip<M: Message>(
    v: Seq<M::V>,
    fields: Seq<FieldView>,
    number: u32,
    limit: nat,
)
    requires
        values_of(fields, number) == messages_values::<M>(v),
        wire::join(fields).len() <= u64::MAX,
        limit > M::depth(),
    ensures
        messages_of::<M>(messages_values::<M>(v), limit) == Some(v),
        proper_values(messages_values::<M>(v)),
{
    assert forall|i: int| 0 <= i < v.len() implies (#[trigger] encoded::<M>(v[i])).len()
        <= u64::MAX by {
        lemma_value_len(fields, number, i);
        assert(values_of(fields, number)[i] == ValueView::Bytes(encoded::<M>(v[i])));
    }
    lemma_some_messages::<M>(v, limit);
}

pub broadcast group group_round_trip {
    lemma_int32_round_trip,
    lemma_int64_round_trip,
    lemma_uint32_round_trip,
    lemma_bool_round_trip,
    lemma_bytes_round_trip,
    lemma_string_round_trip,
    lemma_ints_round_trip,
    lemma_packed_round_trip,
    lemma_packed_longs_round_trip,
}

// ---------------------------------------------------------------------------
// Copying
// ---------------------------------------------------------------------------

pub fn copy_bytes(v: &Option<Vec<u8>>) -> (r: Option<Vec<u8>>)
    ensures
        wire::opt_view(r) == wire::opt_view(*v),
{
    match v {
        Some(v) => Some(vstd::slice::slice_to_vec(v.as_slice())),
        None => None,
    }
}

pub fn copy_string(v: &Option<String>) -> (r: Option<String>)
    ensures
        wire::opt_view(r) == wire::opt_view(*v),
{
    match v {
        Some(v) => Some(v.clone()),
        None => None,
    }
}

pub fn copy_ints(v: &Vec<i32>) -> (r: Vec<i32>)
    ensures
        r@ == v@,
{
    vstd::slice::slice_to_vec(v.as_slice())
}

pub fn copy_longs(v: &Vec<i64>) -> (r: Vec<i64>)
    ensures
        r@ == v@,
{
    vstd::slice::slice_to_vec(v.as_slice())
}

pub fn copy_message<M: Message>(v: &Option<M>) -> (r: Option<M>)
    ensures
        wire::opt_view(r) == wire::opt_view(*v),
{
    match v {
        Some(v) => Some(v.copy()),
        None => None,
    }
}

pub fn copy_messages<M: Message>(v: &Vec<M>) -> (r: Vec<M>)
    ensures
        wire::seq_view(r@) == wire::seq_view(v@),
{
    let mut out: Vec<M> = Vec::new();
    let mut i: usize = 0;
    while i < v.len()
        invariant
            i <= v@.len(),
            out@.len() == i,
            forall|j: int| 0 <= j < i ==> (#[trigger] out@[j])@ == v@[j]@,
        decreases v@.len() - i,
    {
        out.push(v[i].copy());
        i = i + 1;
    }
    assert(wire::seq_view(out@) =~= wire::seq_view(v@));
    out
}

// ---------------------------------------------------------------------------
// Reading
// ---------------------------------------------------------------------------

/// The values of the fields with the given number, in order.
fn occurrences<'a>(fields: &'a [Field], number: u32) -> (r: Vec<&'a Value>)
    ensures
        wire::seq_view(r@) == values_of(wire::seq_view(fields@), number),
{
    let ghost all = wire::seq_view(fields@);
    let mut values: Vec<&'a Value> = Vec::new();
    let mut i: usize = 0;
    while i < fields.len()
        invariant
            i <= fields@.len(),
            all == wire::seq_view(fields@),
            wire::seq_view(values@) == values_of(all.take(i as int), number),
        decreases fields@.len() - i,
    {
        let ghost before = wire::seq_view(values@);
        assert(all.take(i + 1).drop_last() =~= all.take(i as int));
        if fields[i].number == number {
            values.push(&fields[i].value);
            assert(wire::seq_view(values@) =~= before.push(all[i as int].value));
        }
        i = i + 1;
    }
    assert(all.take(i as int) =~= all);
    values
}

fn last_bits(fields: &[Field], number: u32) -> (r: Option<Option<u64>>)
    ensures
        r == bits_of(values_of(wire::seq_view(fields@), number)),
{
    let values = occurrences(fields, number);
    let ghost all = wire::seq_view(values@);
    let mut last: Option<u64> = None;
    let mut i: usize = 0;
    while i < values.len()
        invariant
            i <= values@.len(),
            all == wire::seq_view(values@),
            all == values_of(wire::seq_view(fields@), number),
            bits_of(all.take(i as int)) == Some(last),
        decreases values@.len() - i,
    {
        assert(all.take(i + 1)[i as int] == all[i as int]);
        match values[i] {
            Value::Varint(bits) => {
                assert forall|j: int| 0 <= j < i + 1 implies #[trigger] all.take(
                    i + 1,
                )[j] is Varint by {
                    if j < i {
                        assert(all.take(i + 1)[j] == all.take(i as int)[j]);
                    }
                }
                last = Some(*bits);
            },
            _ => {
                assert(!(all[i as int] is Varint));
                return None;
            },
        }
        i = i + 1;
    }
    assert(all.take(i as int) =~= all);
    Some(last)
}

pub fn read_int32(fields: &[Field], number: u32) -> (r: Option<Option<i32>>)
    ensures
        r == int32_of(values_of(wire::seq_view(fields@), number)),
{
    match last_bits(fields, number)? {
        Some(bits) => Some(Some(int32_from_bits(bits))),
        None => Some(None),
    }
}

fn int32_from_bits(bits: u64) -> (r: i32)
    ensures
        r == int32_from(bits),
{
    let low: u64 = bits % 0x1_0000_0000;
    if low < 0x8000_0000 {
        low as i32
    } else {
        (low as i64 - 0x1_0000_0000) as i32
    }
}

pub fn read_int64(fields: &[Field], number: u32) -> (r: Option<Option<i64>>)
    ensures
        r == int64_of(values_of(wire::seq_view(fields@), number)),
{
    match last_bits(fields, number)? {
        Some(bits) => Some(Some(int64_from_bits(bits))),
        None => Some(None),
    }
}

fn int64_from_bits(bits: u64) -> (r: i64)
    ensures
        r == int64_from(bits),
{
    if bits < 0x8000_0000_0000_0000 {
        bits as i64
    } else {
        (bits as i128 - 0x1_0000_0000_0000_0000) as i64
    }
}

pub fn read_uint32(fields: &[Field], number: u32) -> (r: Option<Option<u32>>)
    ensures
        r == uint32_of(values_of(wire::seq_view(fields@), number)),
{
    match last_bits(fields, number)? {
        Some(bits) => Some(Some((bits % 0x1_0000_0000) as u32)),
        None => Some(None),
    }
}

pub fn read_bool(fields: &[Field], number: u32) -> (r: Option<Option<bool>>)
    ensures
        r == bool_of(values_of(wire::seq_view(fields@), number)),
{
    match last_bits(fields, number)? {
        Some(bits) => Some(Some(bits != 0)),
        None => Some(None),
    }
}

pub fn read_bytes(fields: &[Field], number: u32) -> (r: Option<Option<Vec<u8>>>)
    ensures
        match r {
            Some(v) => bytes_of(values_of(wire::seq_view(fields@), number)) == Some(
                wire::opt_view(v),
            ),
            None => bytes_of(values_of(wire::seq_view(fields@), number)) is None,
        },
{
    let values = occurrences(fields, number);
    let ghost all = wire::seq_view(values@);
    let mut i: usize = 0;
    while i < values.len()
        invariant
            i <= values@.len(),
            all == wire::seq_view(values@),
            all == values_of(wire::seq_view(fields@), number),
            forall|j: int| 0 <= j < i ==> #[trigger] all[j] is Bytes,
        decreases values@.len() - i,
    {
        match values[i] {
            Value::Bytes(_) => {
                assert(all[i as int] is Bytes);
            },
            _ => {
                assert(!(all[i as int] is Bytes));
                return None;
            },
        }
        i = i + 1;
    }
    if values.len() == 0 {
        return Some(None);
    }
    match values[values.len() - 1] {
        Value::Bytes(b) => {
            assert(all.last() == ValueView::Bytes(b@));
            let copy = vstd::slice::slice_to_vec(b.as_slice());
            Some(Some(copy))
        },
        _ => {
            assert(all[values@.len() - 1] is Bytes);
            None
        },
    }
}

/// Calls `std::str::from_utf8`, which gives the string that the bytes encode, and
/// fails if and only if they are not UTF-8.
#[verifier::external_body]
fn str_from_utf8(bytes: &[u8]) -> (r: Option<&str>)
    ensures
        match r {
            Some(s) => valid_utf8(bytes@) && s@ == decode_utf8(bytes@),
            None => !valid_utf8(bytes@),
        },
{
    std::str::from_utf8(bytes).ok()
}

pub fn read_string(fields: &[Field], number: u32) -> (r: Option<Option<String>>)
    ensures
        match r {
            Some(v) => string_of(values_of(wire::seq_view(fields@), number)) == Some(
                wire::opt_view(v),
            ),
            None => string_of(values_of(wire::seq_view(fields@), number)) is None,
        },
{
    let values = occurrences(fields, number);
    let ghost all = wire::seq_view(values@);
    let mut last: Option<String> = None;
    let mut i: usize = 0;
    while i < values.len()
        invariant
            i <= values@.len(),
            all == wire::seq_view(values@),
            all == values_of(wire::seq_view(fields@), number),
            forall|j: int|
                0 <= j < i ==> #[trigger] all[j] is Bytes && valid_utf8(all[j]->Bytes_0),
            wire::opt_view(last) == if i == 0 {
                None
            } else {
                Some(decode_utf8(all[i - 1]->Bytes_0))
            },
        decreases values@.len() - i,
    {
        match values[i] {
            Value::Bytes(b) => {
                assert(all[i as int] == ValueView::Bytes(b@));
                match str_from_utf8(b.as_slice()) {
                    Some(s) => {
                        last = Some(s.to_owned());
                    },
                    None => {
                        return None;
                    },
                }
            },
            _ => {
                assert(!(all[i as int] is Bytes));
                return None;
            },
        }
        i = i + 1;
    }
    Some(last)
}

/// Appends the numbers of a packed run.
fn unpack(bytes: &[u8], out: &mut Vec<i32>) -> (ok: bool)
    ensures
        match unpacked(bytes@) {
            Some(v) => ok && final(out)@ == old(out)@ + v,
            None => !ok,
        },
{
    let mut rest = bytes;
    let ghost before = out@;
    let ghost mut done: Seq<i32> = Seq::empty();
    assert(before + done =~= before);
    while rest.len() > 0
        invariant
            out@ == before + done,
            unpacked(bytes@) == match unpacked(rest@) {
                Some(v) => Some(done + v),
                None => None,
            },
        decreases rest@.len(),
    {
        proof {
            wire::lemma_varint_at_bounds(rest@);
        }
        match wire::decode_varint(rest) {
            Some((bits, next)) => {
                out.push(int32_from_bits(bits));
                proof {
                    let v = int32_from(bits);
                    if let Some(more) = unpacked(next@) {
                        assert(done + (seq![v] + more) =~= done.push(v) + more);
                    }
                    assert(out@ =~= before + done.push(v));
                    done = done.push(v);
                }
                rest = next;
            },
            None => {
                return false;
            },
        }
    }
    assert(done + Seq::<i32>::empty() =~= done);
    true
}

pub fn read_ints(fields: &[Field], number: u32) -> (r: Option<Vec<i32>>)
    ensures
        match r {
            Some(v) => ints_of(values_of(wire::seq_view(fields@), number)) == Some(v@),
            None => ints_of(values_of(wire::seq_view(fields@), number)) is None,
        },
{
    let values = occurrences(fields, number);
    let ghost all = wire::seq_view(values@);
    let mut out: Vec<i32> = Vec::new();
    let mut i: usize = 0;
    while i < values.len()
        invariant
            i <= values@.len(),
            all == wire::seq_view(values@),
            all == values_of(wire::seq_view(fields@), number),
            ints_of(all.take(i as int)) == Some(out@),
        decreases values@.len() - i,
    {
        let ghost front = all.take(i + 1);
        assert(front.drop_last() =~= all.take(i as int));
        assert(front.last() == all[i as int]);
        proof {
            if ints_of(front) is None {
                lemma_ints_of_prefix(all, i + 1);
            }
        }
        match values[i] {
            Value::Varint(bits) => {
                out.push(int32_from_bits(*bits));
            },
            Value::Bytes(b) => {
                if !unpack(b.as_slice(), &mut out) {
                    return None;
                }
            },
            Value::Other => {
                return None;
            },
        }
        i = i + 1;
    }
    assert(all.take(i as int) =~= all);
    Some(out)
}

/// A repeated number that is malformed after some occurrences stays so.
proof fn lemma_ints_of_prefix(values: Seq<ValueView>, n: int)
    requires
        0 <= n <= values.len(),
        ints_of(values.take(n)) is None,
    ensures
        ints_of(values) is None,
    decreases values.len() - n,
{
    if n < values.len() {
        assert(values.take(n + 1).drop_last() =~= values.take(n));
        lemma_ints_of_prefix(values, n + 1);
    } else {
        assert(values.take(n) =~= values);
    }
}

/// Appends the 64-bit numbers of a packed run.
fn unpack_longs(bytes: &[u8], out: &mut Vec<i64>) -> (ok: bool)
    ensures
        match unpacked_longs(bytes@) {
            Some(v) => ok && final(out)@ == old(out)@ + v,
            None => !ok,
        },
{
    let mut rest = bytes;
    let ghost before = out@;
    let ghost mut done: Seq<i64> = Seq::empty();
    assert(before + done =~= before);
    while rest.len() > 0
        invariant
            out@ == before + done,
            unpacked_longs(bytes@) == match unpacked_longs(rest@) {
                Some(v) => Some(done + v),
                None => None,
            },
        decreases rest@.len(),
    {
        proof {
            wire::lemma_varint_at_bounds(rest@);
        }
        match wire::decode_varint(rest) {
            Some((bits, next)) => {
                out.push(int64_from_bits(bits));
                proof {
                    let v = int64_from(bits);
                    if let Some(more) = unpacked_longs(next@) {
                        assert(done + (seq![v] + more) =~= done.push(v) + more);
                    }
                    assert(out@ =~= before + done.push(v));
                    done = done.push(v);
                }
                rest = next;
            },
            None => {
                return false;
            },
        }
    }
    assert(done + Seq::<i64>::empty() =~= done);
    true
}

pub fn read_longs(fields: &[Field], number: u32) -> (r: Option<Vec<i64>>)
    ensures
        match r {
            Some(v) => longs_of(values_of(wire::seq_view(fields@), number)) == Some(v@),
            None => longs_of(values_of(wire::seq_view(fields@), number)) is None,
        },
{
    let values = occurrences(fields, number);
    let ghost all = wire::seq_view(values@);
    let mut out: Vec<i64> = Vec::new();
    let mut i: usize = 0;
    while i < values.len()
        invariant
            i <= values@.len(),
            all == wire::seq_view(values@),
            all == values_of(wire::seq_view(fields@), number),
            longs_of(all.take(i as int)) == Some(out@),
        decreases values@.len() - i,
    {
        let ghost front = all.take(i + 1);
        assert(front.drop_last() =~= all.take(i as int));
        assert(front.last() == all[i as int]);
        proof {
            if longs_of(front) is None {
                lemma_longs_of_prefix(all, i + 1);
            }
        }
        match values[i] {
            Value::Varint(bits) => {
                out.push(int64_from_bits(*bits));
            },
            Value::Bytes(b) => {
                if !unpack_longs(b.as_slice(), &mut out) {
                    return None;
                }
            },
            Value::Other => {
                return None;
            },
        }
        i = i + 1;
    }
    assert(all.take(i as int) =~= all);
    Some(out)
}

/// A repeated 64-bit number that is malformed after some occurrences stays so.
proof fn lemma_longs_of_prefix(values: Seq<ValueView>, n: int)
    requires
        0 <= n <= values.len(),
        longs_of(values.take(n)) is None,
    ensures
        longs_of(values) is None,
    decreases values.len() - n,
{
    if n < values.len() {
        assert(values.take(n + 1).drop_last() =~= values.take(n));
        lemma_longs_of_prefix(values, n + 1);
    } else {
        assert(values.take(n) =~= values);
    }
}

proof fn lemma_merged_prefix(values: Seq<ValueView>, n: int, limit: nat)
    requires
        0 <= n <= values.len(),
        merged(values.take(n), limit) is None,
    ensures
        merged(values, limit) is None,
    decreases values.len() - n,
{
    if n < values.len() {
        assert(values.take(n + 1).drop_last() =~= values.take(n));
        lemma_merged_prefix(values, n + 1, limit);
    } else {
        assert(values.take(n) =~= values);
    }
}

proof fn lemma_messages_of_prefix<M: Message>(values: Seq<ValueView>, n: int, limit: nat)
    requires
        0 <= n <= values.len(),
        messages_of::<M>(values.take(n), limit) is None,
    ensures
        messages_of::<M>(values, limit) is None,
    decreases values.len() - n,
{
    if n < values.len() {
        assert(values.take(n + 1).drop_last() =~= values.take(n));
        lemma_messages_of_prefix::<M>(values, n + 1, limit);
    } else {
        assert(values.take(n) =~= values);
    }
}

fn merge_fields(values: &Vec<&Value>, limit: u32) -> (r: Option<Vec<Field>>)
    ensures
        match r {
            Some(fields) => merged(wire::seq_view(values@), limit as nat) == Some(
                wire::seq_view(fields@),
            ),
            None => merged(wire::seq_view(values@), limit as nat) is None,
        },
{
    let ghost all = wire::seq_view(values@);
    let mut fields: Vec<Field> = Vec::new();
    assert(wire::seq_view(fields@) =~= Seq::empty());
    let mut i: usize = 0;
    while i < values.len()
        invariant
            i <= values@.len(),
            all == wire::seq_view(values@),
            merged(all.take(i as int), limit as nat) == Some(wire::seq_view(fields@)),
        decreases values@.len() - i,
    {
        let ghost front = all.take(i + 1);
        let ghost before = wire::seq_view(fields@);
        assert(front.drop_last() =~= all.take(i as int));
        assert(front.last() == all[i as int]);
        proof {
            if merged(front, limit as nat) is None {
                lemma_merged_prefix(all, i + 1, limit as nat);
            }
        }
        match values[i] {
            Value::Bytes(b) => {
                if limit == 0 {
                    return None;
                }
                match wire::split_fields(b.as_slice(), limit - 1) {
                    Some(more) => {
                        let mut more = more;
                        let ghost added = wire::seq_view(more@);
                        fields.append(&mut more);
                        assert(wire::seq_view(fields@) =~= before + added);
                    },
                    None => {
                        return None;
                    },
                }
            },
            _ => {
                return None;
            },
        }
        i = i + 1;
    }
    assert(all.take(i as int) =~= all);
    Some(fields)
}

fn merge_message<M: Message>(values: &Vec<&Value>, limit: u32) -> (r: Option<Option<M>>)
    ensures
        match r {
            Some(v) => message_of::<M>(wire::seq_view(values@), limit as nat) == Some(
                wire::opt_view(v),
            ),
            None => message_of::<M>(wire::seq_view(values@), limit as nat) is None,
        },
{
    let fields = merge_fields(values, limit)?;
    if values.len() == 0 {
        return Some(None);
    }
    match M::read(fields.as_slice(), limit - 1) {
        Some(v) => Some(Some(v)),
        None => None,
    }
}

pub fn read_message<M: Message>(fields: &[Field], number: u32, limit: u32) -> (r: Option<
    Option<M>,
>)
    ensures
        match r {
            Some(v) => message_of::<M>(
                values_of(wire::seq_view(fields@), number),
                limit as nat,
            ) == Some(wire::opt_view(v)),
            None => message_of::<M>(
                values_of(wire::seq_view(fields@), number),
                limit as nat,
            ) is None,
        },
{
    let values = occurrences(fields, number);
    merge_message(&values, limit)
}

pub fn read_messages<M: Message>(fields: &[Field], number: u32, limit: u32) -> (r: Option<
    Vec<M>,
>)
    ensures
        match r {
            Some(v) => messages_of::<M>(
                values_of(wire::seq_view(fields@), number),
                limit as nat,
            ) == Some(wire::seq_view(v@)),
            None => messages_of::<M>(
                values_of(wire::seq_view(fields@), number),
                limit as nat,
            ) is None,
        },
{
    let values = occurrences(fields, number);
    let ghost all = wire::seq_view(values@);
    let mut out: Vec<M> = Vec::new();
    assert(wire::seq_view(out@) =~= Seq::empty());
    let mut i: usize = 0;
    while i < values.len()
        invariant
            i <= values@.len(),
            all == wire::seq_view(values@),
            all == values_of(wire::seq_view(fields@), number),
            messages_of::<M>(all.take(i as int), limit as nat) == Some(wire::seq_view(out@)),
        decreases values@.len() - i,
    {
        let ghost front = all.take(i + 1);
        let ghost before = wire::seq_view(out@);
        assert(front.drop_last() =~= all.take(i as int));
        assert(front.last() == all[i as int]);
        let mut one: Vec<&Value> = Vec::new();
        one.push(values[i]);
        assert(wire::seq_view(one@) =~= seq![front.last()]);
        proof {
            if messages_of::<M>(front, limit as nat) is None {
                lemma_messages_of_prefix::<M>(all, i + 1, limit as nat);
            }
        }
        match merge_message::<M>(&one, limit) {
            Some(Some(v)) => {
                let ghost added = v@;
                out.push(v);
                assert(wire::seq_view(out@) =~= before.push(added));
            },
            _ => {
                return None;
            },
        }
        i = i + 1;
    }
    assert(all.take(i as int) =~= all);
    Some(out)
}

// ---------------------------------------------------------------------------
// Writing
// ---------------------------------------------------------------------------

/// The bytes of the parts that were written so far.
pub struct FieldWriter {
    bytes: Vec<u8>,
    parts: Ghost<Seq<Part>>,
}

impl View for FieldWriter {
    type V = Seq<Part>;

    closed spec fn view(&self) -> Seq<Part> {
        self.parts@
    }
}

impl FieldWriter {
    #[verifier::type_invariant]
    spec fn joined(&self) -> bool {
        self.bytes@ == wire::join(all_fields(self.parts@))
    }

    pub fn new() -> (r: FieldWriter)
        ensures
            r@ == Seq::<Part>::empty(),
    {
        FieldWriter { bytes: Vec::new(), parts: Ghost(Seq::empty()) }
    }

    /// The bytes of all parts.
    pub fn finish(self) -> (r: Vec<u8>)
        ensures
            r@ == wire::join(all_fields(self@)),
    {
        proof {
            use_type_invariant(&self);
        }
        self.bytes
    }

    /// Writes one part, given its bytes.
    fn put_part(&mut self, bytes: &[u8], part: Ghost<Part>)
        requires
            bytes@ == wire::join(fields_of(part@.0, part@.1)),
        ensures
            final(self)@ == old(self)@.push(part@),
    {
        let ghost parts = self.parts@;
        let mut earlier = FieldWriter::new();
        proof {
            use_type_invariant(&*self);
            assert(parts.push(part@).drop_last() =~= parts);
            wire::lemma_join_add(all_fields(parts), fields_of(part@.0, part@.1));
        }
        std::mem::swap(&mut earlier, self);
        let mut all = earlier.bytes;
        all.extend_from_slice(bytes);
        assert(all@ =~= wire::join(all_fields(parts)) + bytes@);
        *self = FieldWriter { bytes: all, parts: Ghost(parts.push(part@)) };
    }

    pub fn put_int32(&mut self, number: u32, v: Option<i32>)
        requires
            0 < number <= MAX_FIELD_NUMBER,
        ensures
            final(self)@ == old(self)@.push((number, int32_values(v))),
    {
        match v {
            Some(v) => self.put_varint(number, int32_to_bits(v)),
            None => self.put_none(number),
        }
    }

    pub fn put_int64(&mut self, number: u32, v: Option<i64>)
        requires
            0 < number <= MAX_FIELD_NUMBER,
        ensures
            final(self)@ == old(self)@.push((number, int64_values(v))),
    {
        match v {
            Some(v) => self.put_varint(number, int64_to_bits(v)),
            None => self.put_none(number),
        }
    }

    pub fn put_uint32(&mut self, number: u32, v: Option<u32>)
        requires
            0 < number <= MAX_FIELD_NUMBER,
        ensures
            final(self)@ == old(self)@.push((number, uint32_values(v))),
    {
        match v {
            Some(v) => self.put_varint(number, v as u64),
            None => self.put_none(number),
        }
    }

    pub fn put_bool(&mut self, number: u32, v: Option<bool>)
        requires
            0 < number <= MAX_FIELD_NUMBER,
        ensures
            final(self)@ == old(self)@.push((number, bool_values(v))),
    {
        match v {
            Some(true) => self.put_varint(number, 1),
            Some(false) => self.put_varint(number, 0),
            None => self.put_none(number),
        }
    }

    pub fn put_bytes(&mut self, number: u32, v: &Option<Vec<u8>>)
        requires
            0 < number <= MAX_FIELD_NUMBER,
        ensures
            final(self)@ == old(self)@.push((number, bytes_values(wire::opt_view(*v)))),
    {
        match v {
            Some(v) => self.put_len(number, v.as_slice()),
            None => self.put_none(number),
        }
    }

    pub fn put_string(&mut self, number: u32, v: &Option<String>)
        requires
            0 < number <= MAX_FIELD_NUMBER,
        ensures
            final(self)@ == old(self)@.push((number, string_values(wire::opt_view(*v)))),
    {
        match v {
            Some(v) => self.put_len(number, v.as_str().as_bytes()),
            None => self.put_none(number),
        }
    }

    pub fn put_ints(&mut self, number: u32, v: &Vec<i32>)
        requires
            0 < number <= MAX_FIELD_NUMBER,
        ensures
            final(self)@ == old(self)@.push((number, ints_values(v@))),
    {
        let mut bytes: Vec<u8> = Vec::new();
        let mut i: usize = 0;
        assert(fields_of(number, ints_values(v@.take(0))) =~= Seq::empty());
        while i < v.len()
            invariant
                0 < number <= MAX_FIELD_NUMBER,
                i <= v@.len(),
                bytes@ == wire::join(fields_of(number, ints_values(v@.take(i as int)))),
            decreases v@.len() - i,
        {
            let ghost done = fields_of(number, ints_values(v@.take(i as int)));
            write_varint(&mut bytes, number, int32_to_bits(v[i]));
            assert(fields_of(number, ints_values(v@.take(i + 1))).drop_last() =~= done);
            i = i + 1;
        }
        assert(v@.take(i as int) =~= v@);
        self.put_part(bytes.as_slice(), Ghost((number, ints_values(v@))));
    }

    pub fn put_packed(&mut self, number: u32, v: &Vec<i32>)
        requires
            0 < number <= MAX_FIELD_NUMBER,
        ensures
            final(self)@ == old(self)@.push((number, packed_values(v@))),
    {
        if v.len() == 0 {
            self.put_none(number);
            return ;
        }
        let mut payload: Vec<u8> = Vec::new();
        let mut i: usize = 0;
        while i < v.len()
            invariant
                i <= v@.len(),
                payload@ == packed(v@.take(i as int)),
            decreases v@.len() - i,
        {
            assert(v@.take(i + 1).drop_last() =~= v@.take(i as int));
            wire::encode_varint(int32_to_bits(v[i]), &mut payload);
            i = i + 1;
        }
        assert(v@.take(i as int) =~= v@);
        self.put_len(number, payload.as_slice());
    }

    pub fn put_packed_longs(&mut self, number: u32, v: &Vec<i64>)
        requires
            0 < number <= MAX_FIELD_NUMBER,
        ensures
            final(self)@ == old(self)@.push((number, packed_longs_values(v@))),
    {
        if v.len() == 0 {
            self.put_none(number);
            return ;
        }
        let mut payload: Vec<u8> = Vec::new();
        let mut i: usize = 0;
        while i < v.len()
            invariant
                i <= v@.len(),
                payload@ == packed_longs(v@.take(i as int)),
            decreases v@.len() - i,
        {
            assert(v@.take(i + 1).drop_last() =~= v@.take(i as int));
            wire::encode_varint(int64_to_bits(v[i]), &mut payload);
            i = i + 1;
        }
        assert(v@.take(i as int) =~= v@);
        self.put_len(number, payload.as_slice());
    }

    pub fn put_message<M: Message>(&mut self, number: u32, v: &Option<M>)
        requires
            0 < number <= MAX_FIELD_NUMBER,
        ensures
            final(self)@ == old(self)@.push((number, message_values::<M>(wire::opt_view(*v)))),
    {
        match v {
            Some(v) => self.put_one(number, v),
            None => self.put_none(number),
        }
    }

    pub fn put_messages<M: Message>(&mut self, number: u32, v: &Vec<M>)
        requires
            0 < number <= MAX_FIELD_NUMBER,
        ensures
            final(self)@ == old(self)@.push((number, messages_values::<M>(wire::seq_view(v@)))),
    {
        let ghost all = wire::seq_view(v@);
        let mut bytes: Vec<u8> = Vec::new();
        let mut i: usize = 0;
        assert(fields_of(number, messages_values::<M>(all.take(0))) =~= Seq::empty());
        while i < v.len()
            invariant
                0 < number <= MAX_FIELD_NUMBER,
                i <= v@.len(),
                all == wire::seq_view(v@),
                bytes@ == wire::join(fields_of(number, messages_values::<M>(all.take(i as int)))),
            decreases v@.len() - i,
        {
            let ghost done = fields_of(number, messages_values::<M>(all.take(i as int)));
            let payload = v[i].encode_to_vec();
            write_len(&mut bytes, number, payload.as_slice());
            assert(fields_of(number, messages_values::<M>(all.take(i + 1))).drop_last() =~= done);
            i = i + 1;
        }
        assert(all.take(i as int) =~= all);
        self.put_part(bytes.as_slice(), Ghost((number, messages_values::<M>(all))));
    }

    /// Writes one message.
    pub fn put_one<M: Message>(&mut self, number: u32, v: &M)
        requires
            0 < number <= MAX_FIELD_NUMBER,
        ensures
            final(self)@ == old(self)@.push((number, message_values::<M>(Some(v@)))),
    {
        let payload = v.encode_to_vec();
        self.put_len(number, payload.as_slice());
    }

    /// Leaves a field out.
    pub fn put_none(&mut self, number: u32)
        ensures
            final(self)@ == old(self)@.push((number, Seq::empty())),
    {
        let bytes: Vec<u8> = Vec::new();
        assert(fields_of(number, Seq::empty()) =~= Seq::empty());
        self.put_part(bytes.as_slice(), Ghost((number, Seq::empty())));
    }

    fn put_varint(&mut self, number: u32, bits: u64)
        requires
            0 < number <= MAX_FIELD_NUMBER,
        ensures
            final(self)@ == old(self)@.push((number, seq![ValueView::Varint(bits)])),
    {
        let ghost values = seq![ValueView::Varint(bits)];
        let mut bytes: Vec<u8> = Vec::new();
        write_varint(&mut bytes, number, bits);
        proof {
            lemma_join_one(number, ValueView::Varint(bits));
            assert(bytes@ =~= wire::join(fields_of(number, values)));
        }
        self.put_part(bytes.as_slice(), Ghost((number, values)));
    }

    fn put_len(&mut self, number: u32, payload: &[u8])
        requires
            0 < number <= MAX_FIELD_NUMBER,
        ensures
            final(self)@ == old(self)@.push((number, seq![ValueView::Bytes(payload@)])),
    {
        let ghost values = seq![ValueView::Bytes(payload@)];
        let mut bytes: Vec<u8> = Vec::new();
        write_len(&mut bytes, number, payload);
        proof {
            lemma_join_one(number, ValueView::Bytes(payload@));
            assert(bytes@ =~= wire::join(fields_of(number, values)));
        }
        self.put_part(bytes.as_slice(), Ghost((number, values)));
    }
}

proof fn lemma_join_one(number: u32, value: ValueView)
    ensures
        wire::join(fields_of(number, seq![value])) == wire::field_bytes(
            FieldView { number, value },
        ),
{
    let fields = fields_of(number, seq![value]);
    reveal_with_fuel(wire::join, 2);
    assert(fields.drop_last() =~= Seq::empty());
    assert(wire::join(fields) =~= wire::field_bytes(FieldView { number, value }));
}

fn write_varint(out: &mut Vec<u8>, number: u32, bits: u64)
    requires
        0 < number <= MAX_FIELD_NUMBER,
    ensures
        final(out)@ == old(out)@ + wire::field_bytes(
            FieldView { number, value: ValueView::Varint(bits) },
        ),
{
    wire::encode_varint(number as u64 * 8 + wire::VARINT as u64, out);
    wire::encode_varint(bits, out);
    assert(out@ =~= old(out)@ + wire::field_bytes(
        FieldView { number, value: ValueView::Varint(bits) },
    ));
}

fn write_len(out: &mut Vec<u8>, number: u32, payload: &[u8])
    requires
        0 < number <= MAX_FIELD_NUMBER,
    ensures
        final(out)@ == old(out)@ + wire::field_bytes(
            FieldView { number, value: ValueView::Bytes(payload@) },
        ),
{
    wire::encode_varint(number as u64 * 8 + wire::LEN as u64, out);
    wire::encode_varint(payload.len() as u64, out);
    out.extend_from_slice(payload);
    assert(out@ =~= old(out)@ + wire::field_bytes(
        FieldView { number, value: ValueView::Bytes(payload@) },
    ));
}

fn int64_to_bits(v: i64) -> (r: u64)
    ensures
        r == int64_bits(v),
{
    if v >= 0 {
        v as u64
    } else {
        (v as i128 + 0x1_0000_0000_0000_0000) as u64
    }
}

fn int32_to_bits(v: i32) -> (r: u64)
    ensures
        r == int32_bits(v),
{
    if v >= 0 {
        v as u64
    } else {
        (v as i128 + 0x1_0000_0000_0000_0000) as u64
    }
}

} // verus!

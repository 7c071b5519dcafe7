//! Strings: searching, splitting, and decimal numbers.

use vstd::prelude::*;

use crate::wire;

verus! {

// ---------------------------------------------------------------------------
// Searching
// ---------------------------------------------------------------------------

/// `pattern` stands in `s` at position `at`.
pub open spec fn occurs_at(s: Seq<char>, pattern: Seq<char>, at: int) -> bool {
    0 <= at <= s.len() - pattern.len() && s.subrange(at, at + pattern.len()) == pattern
}

/// `pattern` stands somewhere in `s`.
pub open spec fn occurs(s: Seq<char>, pattern: Seq<char>) -> bool {
    exists|at: int| occurs_at(s, pattern, at)
}

/// `s` ends in `suffix`.
pub open spec fn ends_in(s: Seq<char>, suffix: Seq<char>) -> bool {
    occurs_at(s, suffix, s.len() - suffix.len())
}

/// The characters of a string.
pub fn chars_of(s: &str) -> (r: Vec<char>)
    ensures
        r@ == s@,
{
    let mut out: Vec<char> = Vec::new();
    let mut rest = s.chars();
    let ghost mut done: int = 0;
    loop
        invariant
            0 <= done <= s@.len(),
            vstd::std_specs::iter::IteratorSpec::obeys_prophetic_iter_laws(&rest),
            vstd::std_specs::iter::IteratorSpec::remaining(&rest) == s@.skip(done),
            out@ == s@.take(done),
        decreases s@.len() - done,
    {
        match rest.next() {
            Some(c) => {
                assert(c == s@.skip(done)[0]);
                assert(s@.skip(done).drop_first() =~= s@.skip(done + 1));
                assert(s@.take(done + 1) =~= s@.take(done).push(c));
                out.push(c);
                proof {
                    done = done + 1;
                }
            },
            None => {
                assert(s@.take(done) =~= s@);
                return out;
            },
        }
    }
}

/// Whether there is no character in `s`.
pub fn is_empty(s: &str) -> (r: bool)
    ensures
        r == (s@.len() == 0),
{
    s.unicode_len() == 0
}

/// Whether two strings are the same.
pub fn same(a: &str, b: &str) -> (r: bool)
    ensures
        r == (a@ == b@),
{
    let a = chars_of(a);
    let b = chars_of(b);
    if a.len() != b.len() {
        return false;
    }
    let r = chars_occur_at(&a, &b, 0);
    assert(a@.subrange(0, b@.len() as int) =~= a@);
    r
}

fn chars_occur_at(s: &Vec<char>, pattern: &Vec<char>, at: usize) -> (r: bool)
    requires
        at + pattern@.len() <= s@.len(),
    ensures
        r == occurs_at(s@, pattern@, at as int),
{
    let n: usize = s.len();
    let mut i: usize = 0;
    while i < pattern.len()
        invariant
            i <= pattern@.len(),
            at + pattern@.len() <= s@.len(),
            n == s@.len(),
            forall|j: int| 0 <= j < i ==> s@[at + j] == #[trigger] pattern@[j],
        decreases pattern@.len() - i,
    {
        if s[at + i] != pattern[i] {
            assert(s@.subrange(at as int, at + pattern@.len())[i as int] != pattern@[i as int]);
            return false;
        }
        i = i + 1;
    }
    assert(s@.subrange(at as int, at + pattern@.len()) =~= pattern@);
    true
}

/// Whether `pattern` stands somewhere in `s`.
pub fn contains(s: &str, pattern: &str) -> (r: bool)
    ensures
        r == occurs(s@, pattern@),
{
    let chars = chars_of(s);
    let wanted = chars_of(pattern);
    if wanted.len() > chars.len() {
        return false;
    }
    let last: usize = chars.len() - wanted.len();
    let mut at: usize = 0;
    loop
        invariant
            chars@ == s@,
            wanted@ == pattern@,
            last == s@.len() - pattern@.len(),
            at <= last,
            forall|k: int| 0 <= k < at ==> !#[trigger] occurs_at(s@, pattern@, k),
        decreases last - at,
    {
        if chars_occur_at(&chars, &wanted, at) {
            return true;
        }
        if at == last {
            return false;
        }
        at = at + 1;
    }
}

/// Whether `s` ends in `suffix`.
pub fn ends_with(s: &str, suffix: &str) -> (r: bool)
    ensures
        r == ends_in(s@, suffix@),
{
    let s = chars_of(s);
    let suffix = chars_of(suffix);
    if suffix.len() > s.len() {
        return false;
    }
    chars_occur_at(&s, &suffix, s.len() - suffix.len())
}

/// Whether `s` starts with `prefix`.
pub fn starts_with(s: &Vec<char>, prefix: &str) -> (r: bool)
    ensures
        r == occurs_at(s@, prefix@, 0),
{
    let prefix = chars_of(prefix);
    if prefix.len() > s.len() {
        return false;
    }
    chars_occur_at(s, &prefix, 0)
}

// ---------------------------------------------------------------------------
// Splitting
// ---------------------------------------------------------------------------

/// The pieces of `s` between the separators.
pub open spec fn pieces(s: Seq<char>, separator: char) -> Seq<Seq<char>>
    decreases s.len(),
{
    if s.len() == 0 {
        seq![Seq::empty()]
    } else {
        let front = pieces(s.drop_last(), separator);
        if s.last() == separator {
            front.push(Seq::empty())
        } else {
            front.drop_last().push(front.last().push(s.last()))
        }
    }
}

/// The pieces of a string between the separators.
pub fn split(s: &str, separator: char) -> (r: Vec<Vec<char>>)
    ensures
        wire::seq_view(r@) == pieces(s@, separator),
{
    let chars = chars_of(s);
    let mut done: Vec<Vec<char>> = Vec::new();
    let mut last: Vec<char> = Vec::new();
    let mut i: usize = 0;
    assert(wire::seq_view(done@).push(last@) =~= seq![Seq::empty()]);
    while i < chars.len()
        invariant
            i <= chars@.len(),
            wire::seq_view(done@).push(last@) == pieces(chars@.take(i as int), separator),
        decreases chars@.len() - i,
    {
        let ghost before = wire::seq_view(done@).push(last@);
        let ghost c = chars@[i as int];
        assert(chars@.take(i + 1).drop_last() =~= chars@.take(i as int));
        if chars[i] == separator {
            let mut piece: Vec<char> = Vec::new();
            std::mem::swap(&mut piece, &mut last);
            done.push(piece);
            assert(wire::seq_view(done@).push(last@) =~= before.push(Seq::empty()));
        } else {
            last.push(chars[i]);
            assert(wire::seq_view(done@).push(last@) =~= before.drop_last().push(
                before.last().push(c),
            ));
        }
        i = i + 1;
    }
    assert(chars@.take(i as int) =~= chars@);
    let ghost front = wire::seq_view(done@);
    let ghost end = last@;
    done.push(last);
    assert(wire::seq_view(done@) =~= front.push(end));
    done
}

// ---------------------------------------------------------------------------
// Dotted addresses
// ---------------------------------------------------------------------------

pub open spec fn is_digit(c: char) -> bool {
    '0' <= c <= '9'
}

/// The number that a run of digits stands for.
pub open spec fn decimal(s: Seq<char>) -> nat
    decreases s.len(),
{
    if s.len() == 0 {
        0
    } else {
        decimal(s.drop_last()) * 10 + (s.last() as nat - '0' as nat) as nat
    }
}

/// One to three digits whose number is at most 255.
pub open spec fn is_octet(s: Seq<char>) -> bool {
    &&& 1 <= s.len() <= 3
    &&& forall|i: int| 0 <= i < s.len() ==> is_digit(#[trigger] s[i])
    &&& decimal(s) <= 255
}

/// Four octets with dots between them.
pub open spec fn is_dotted(s: Seq<char>) -> bool {
    let octets = pieces(s, '.');
    octets.len() == 4 && forall|i: int| 0 <= i < 4 ==> is_octet(#[trigger] octets[i])
}

/// The number of an octet, if it is one.
fn octet_value(s: &Vec<char>) -> (r: Option<u8>)
    ensures
        match r {
            Some(n) => is_octet(s@) && n == decimal(s@),
            None => !is_octet(s@),
        },
{
    if s.len() == 0 || s.len() > 3 {
        return None;
    }
    let mut value: u32 = 0;
    let mut i: usize = 0;
    while i < s.len()
        invariant
            i <= s@.len() <= 3,
            forall|j: int| 0 <= j < i ==> is_digit(#[trigger] s@[j]),
            value == decimal(s@.take(i as int)),
            value <= 999,
            i == 0 ==> value == 0,
            i == 1 ==> value <= 9,
            i == 2 ==> value <= 99,
        decreases s@.len() - i,
    {
        let c = s[i];
        if c < '0' || c > '9' {
            assert(!is_digit(s@[i as int]));
            return None;
        }
        assert(s@.take(i + 1).drop_last() =~= s@.take(i as int));
        value = value * 10 + (c as u32 - '0' as u32);
        i = i + 1;
    }
    assert(s@.take(i as int) =~= s@);
    if value <= 255 {
        Some(value as u8)
    } else {
        None
    }
}

/// Whether a string is four octets with dots between them.
pub fn is_dotted_octets(s: &str) -> (r: bool)
    ensures
        r == is_dotted(s@),
{
    let octets = split(s, '.');
    let ghost all = pieces(s@, '.');
    if octets.len() != 4 {
        return false;
    }
    let mut i: usize = 0;
    while i < 4
        invariant
            i <= 4,
            octets@.len() == 4,
            all == wire::seq_view(octets@),
            all == pieces(s@, '.'),
            forall|j: int| 0 <= j < i ==> is_octet(#[trigger] all[j]),
        decreases 4 - i,
    {
        let octet = octet_value(&octets[i]);
        assert(all[i as int] == octets@[i as int]@);
        if octet.is_none() {
            return false;
        }
        i = i + 1;
    }
    true
}

/// An octet that does not start with a zero, unless it is zero.
pub open spec fn is_plain_octet(s: Seq<char>) -> bool {
    is_octet(s) && (s.len() == 1 || s[0] != '0')
}

/// The address that four octets with dots between them stand for. An octet with a leading
/// zero is not taken.
pub open spec fn address_of(s: Seq<char>) -> Option<Seq<u8>> {
    let octets = pieces(s, '.');
    if octets.len() == 4 && forall|i: int| 0 <= i < 4 ==> is_plain_octet(#[trigger] octets[i]) {
        Some(Seq::new(4, |i: int| decimal(octets[i]) as u8))
    } else {
        None
    }
}

/// The address that four octets with dots between them stand for.
pub fn parse_address(s: &str) -> (r: Option<[u8; 4]>)
    ensures
        match r {
            Some(address) => address_of(s@) == Some(address@),
            None => address_of(s@) is None,
        },
{
    let octets = split(s, '.');
    let ghost all = pieces(s@, '.');
    if octets.len() != 4 {
        return None;
    }
    let mut address: [u8; 4] = [0, 0, 0, 0];
    let mut i: usize = 0;
    while i < 4
        invariant
            i <= 4,
            octets@.len() == 4,
            all == wire::seq_view(octets@),
            all == pieces(s@, '.'),
            forall|j: int|
                0 <= j < i ==> is_plain_octet(#[trigger] all[j]) && address@[j] == decimal(all[j]),
        decreases 4 - i,
    {
        let octet = &octets[i];
        assert(all[i as int] == octet@);
        match octet_value(octet) {
            Some(value) => {
                if octet.len() > 1 && octet[0] == '0' {
                    assert(!is_plain_octet(all[i as int]));
                    return None;
                }
                address[i] = value;
            },
            None => {
                assert(!is_plain_octet(all[i as int]));
                return None;
            },
        }
        i = i + 1;
    }
    assert(address@ =~= address_of(s@)->0);
    Some(address)
}

pub open spec fn digit(n: int) -> char {
    ('0' as int + n) as char
}

/// The digits of an octet.
pub open spec fn octet_digits(n: u8) -> Seq<char> {
    if n < 10 {
        seq![digit(n as int)]
    } else if n < 100 {
        seq![digit(n as int / 10), digit(n as int % 10)]
    } else {
        seq![digit(n as int / 100), digit(n as int / 10 % 10), digit(n as int % 10)]
    }
}

/// An address as four octets with dots between them.
pub open spec fn dotted(address: Seq<u8>) -> Seq<char> {
    octet_digits(address[0]).push('.') + octet_digits(address[1]).push('.') + octet_digits(
        address[2],
    ).push('.') + octet_digits(address[3])
}

fn digit_text(n: u8) -> (r: &'static str)
    requires
        n < 10,
    ensures
        r@ == seq![digit(n as int)],
{
    proof {
        reveal_strlit("0");
        reveal_strlit("1");
        reveal_strlit("2");
        reveal_strlit("3");
        reveal_strlit("4");
        reveal_strlit("5");
        reveal_strlit("6");
        reveal_strlit("7");
        reveal_strlit("8");
        reveal_strlit("9");
    }
    let r = match n {
        0 => "0",
        1 => "1",
        2 => "2",
        3 => "3",
        4 => "4",
        5 => "5",
        6 => "6",
        7 => "7",
        8 => "8",
        _ => "9",
    };
    assert(r@ =~= seq![digit(n as int)]);
    r
}

fn octet_text(n: u8) -> (r: String)
    ensures
        r@ == octet_digits(n),
{
    if n < 10 {
        digit_text(n).to_owned()
    } else if n < 100 {
        let r = digit_text(n / 10).to_owned().concat(digit_text(n % 10));
        assert(r@ =~= octet_digits(n));
        r
    } else {
        let r = digit_text(n / 100).to_owned().concat(digit_text(n / 10 % 10)).concat(
            digit_text(n % 10),
        );
        assert(r@ =~= octet_digits(n));
        r
    }
}

/// An address as four octets with dots between them.
pub fn address_text(address: &[u8; 4]) -> (r: String)
    ensures
        r@ == dotted(address@),
{
    proof {
        reveal_strlit(".");
    }
    let r = octet_text(address[0]).concat(".").concat(octet_text(address[1]).as_str()).concat(
        ".",
    ).concat(octet_text(address[2]).as_str()).concat(".").concat(octet_text(address[3]).as_str());
    assert(r@ =~= dotted(address@));
    r
}

proof fn lemma_octet_digits(n: u8)
    ensures
        is_plain_octet(octet_digits(n)),
        decimal(octet_digits(n)) == n,
        !octet_digits(n).contains('.'),
{
    let s = octet_digits(n);
    reveal_with_fuel(decimal, 4);
    if n < 10 {
        assert(s.drop_last() =~= Seq::empty());
    } else if n < 100 {
        assert(s.drop_last() =~= seq![digit(n as int / 10)]);
        assert(s.drop_last().drop_last() =~= Seq::empty());
    } else {
        assert(s.drop_last() =~= seq![digit(n as int / 100), digit(n as int / 10 % 10)]);
        assert(s.drop_last().drop_last() =~= seq![digit(n as int / 100)]);
        assert(s.drop_last().drop_last().drop_last() =~= Seq::empty());
        assert(n as int / 100 * 10 + n as int / 10 % 10 == n as int / 10);
    }
}

proof fn lemma_pieces_last(a: Seq<char>, b: Seq<char>, separator: char)
    requires
        !b.contains(separator),
    ensures
        pieces(a.push(separator) + b, separator) == pieces(a, separator).push(b),
    decreases b.len(),
{
    let s = a.push(separator) + b;
    if b.len() == 0 {
        assert(s.drop_last() =~= a);
        assert(b =~= Seq::empty());
    } else {
        assert(s.drop_last() =~= a.push(separator) + b.drop_last());
        assert forall|c: char| b.drop_last().contains(c) implies b.contains(c) by {
            let i = b.drop_last().index_of(c);
            assert(b[i] == c);
        }
        lemma_pieces_last(a, b.drop_last(), separator);
        assert(b[b.len() - 1] != separator);
        let front = pieces(s.drop_last(), separator);
        assert(front.drop_last() =~= pieces(a, separator));
        assert(b.drop_last().push(b.last()) =~= b);
    }
}

proof fn lemma_pieces_single(b: Seq<char>, separator: char)
    requires
        !b.contains(separator),
    ensures
        pieces(b, separator) == seq![b],
    decreases b.len(),
{
    if b.len() == 0 {
        assert(b =~= Seq::empty());
    } else {
        assert forall|c: char| b.drop_last().contains(c) implies b.contains(c) by {
            let i = b.drop_last().index_of(c);
            assert(b[i] == c);
        }
        lemma_pieces_single(b.drop_last(), separator);
        assert(b[b.len() - 1] != separator);
        assert(b.drop_last().push(b.last()) =~= b);
        assert(pieces(b, separator) =~= seq![b]);
    }
}

/// An address is read back from its text.
pub proof fn lemma_address_round_trip(address: Seq<u8>)
    requires
        address.len() == 4,
    ensures
        is_dotted(dotted(address)),
        address_of(dotted(address)) == Some(address),
{
    let d0 = octet_digits(address[0]);
    let d1 = octet_digits(address[1]);
    let d2 = octet_digits(address[2]);
    let d3 = octet_digits(address[3]);
    lemma_octet_digits(address[0]);
    lemma_octet_digits(address[1]);
    lemma_octet_digits(address[2]);
    lemma_octet_digits(address[3]);
    lemma_pieces_single(d0, '.');
    lemma_pieces_last(d0, d1, '.');
    let two = d0.push('.') + d1;
    lemma_pieces_last(two, d2, '.');
    let three = two.push('.') + d2;
    lemma_pieces_last(three, d3, '.');
    assert(dotted(address) =~= three.push('.') + d3);
    let octets = pieces(dotted(address), '.');
    assert(octets =~= seq![d0, d1, d2, d3]);
    assert(address_of(dotted(address))->0 =~= address);
}

/// A pattern occurs where its characters stand, one after the other, and nowhere else. A
/// string ends in a suffix if that makes up its last characters, and so does anything to
/// which the suffix is appended.
pub proof fn lemma_found(s: Seq<char>, pattern: Seq<char>, at: int, front: Seq<char>)
    ensures
        occurs_at(s, pattern, at) == (0 <= at && at + pattern.len() <= s.len() && forall|i: int|
            0 <= i < pattern.len() ==> #[trigger] pattern[i] == s[at + i]),
        occurs(s, pattern) == exists|k: int|
            0 <= k && k + pattern.len() <= s.len() && #[trigger] s.subrange(k, k + pattern.len())
                == pattern,
        ends_in(s, pattern) == (pattern.len() <= s.len() && forall|i: int|
            0 <= i < pattern.len() ==> #[trigger] pattern[i] == s[s.len() - pattern.len() + i]),
        ends_in(front + pattern, pattern),
{
    lemma_occurs_at(s, pattern, at);
    lemma_occurs_at(s, pattern, s.len() - pattern.len());
    lemma_occurs_at(front + pattern, pattern, front.len() as int);
    if occurs(s, pattern) {
        let k = choose|k: int| occurs_at(s, pattern, k);
        assert(s.subrange(k, k + pattern.len()) == pattern);
    }
    if exists|k: int|
        0 <= k && k + pattern.len() <= s.len() && #[trigger] s.subrange(k, k + pattern.len())
            == pattern {
        let k = choose|k: int|
            0 <= k && k + pattern.len() <= s.len() && #[trigger] s.subrange(k, k + pattern.len())
                == pattern;
        assert(occurs_at(s, pattern, k));
    }
}

proof fn lemma_occurs_at(s: Seq<char>, pattern: Seq<char>, at: int)
    ensures
        occurs_at(s, pattern, at) == (0 <= at && at + pattern.len() <= s.len() && forall|i: int|
            0 <= i < pattern.len() ==> #[trigger] pattern[i] == s[at + i]),
{
    if 0 <= at && at + pattern.len() <= s.len() {
        let part = s.subrange(at, at + pattern.len());
        assert forall|i: int| 0 <= i < pattern.len() implies part[i] == s[at + i] by {}
        if forall|i: int| 0 <= i < pattern.len() ==> #[trigger] pattern[i] == s[at + i] {
            assert(part =~= pattern);
        }
    }
}

/// An octet is one to three digits, and as a decimal number at most 255.
pub proof fn lemma_octet(s: Seq<char>)
    ensures
        s.len() == 1 ==> is_octet(s) == ('0' <= s[0] <= '9'),
        s.len() == 2 ==> is_octet(s) == ('0' <= s[0] <= '9' && '0' <= s[1] <= '9'),
        s.len() == 3 ==> is_octet(s) == ('0' <= s[0] <= '9' && '0' <= s[1] <= '9' && '0' <= s[2]
            <= '9' && 100 * (s[0] as int - '0' as int) + 10 * (s[1] as int - '0' as int) + (
        s[2] as int - '0' as int) <= 255),
        s.len() == 0 || s.len() > 3 ==> !is_octet(s),
        s.len() == 1 && is_octet(s) ==> decimal(s) == s[0] as int - '0' as int,
        s.len() == 2 && is_octet(s) ==> decimal(s) == 10 * (s[0] as int - '0' as int) + (
        s[1] as int - '0' as int),
        s.len() == 3 && is_octet(s) ==> decimal(s) == 100 * (s[0] as int - '0' as int) + 10 * (
        s[1] as int - '0' as int) + (s[2] as int - '0' as int),
{
    reveal_with_fuel(decimal, 4);
    if s.len() == 1 {
        assert(s.drop_last().len() == 0);
    } else if s.len() == 2 {
        assert(s.drop_last().drop_last().len() == 0);
        assert(s.drop_last().last() == s[0]);
    } else if s.len() == 3 {
        assert(s.drop_last().last() == s[1]);
        assert(s.drop_last().drop_last().last() == s[0]);
        assert(s.drop_last().drop_last().drop_last().len() == 0);
    }
}

/// Four runs of characters with dots between them, and no other dots, are an address if and
/// only if each run is an octet. It is read as one if, besides, no octet has a zero in front
/// that it does not need.
pub proof fn lemma_four_octets(a: Seq<char>, b: Seq<char>, c: Seq<char>, d: Seq<char>)
    requires
        !a.contains('.'),
        !b.contains('.'),
        !c.contains('.'),
        !d.contains('.'),
    ensures
        ({
            let s = a.push('.') + b.push('.') + c.push('.') + d;
            let octets = is_octet(a) && is_octet(b) && is_octet(c) && is_octet(d);
            &&& is_dotted(s) == octets
            &&& address_of(s) is Some == (octets && (a.len() == 1 || a[0] != '0') && (b.len() == 1
                || b[0] != '0') && (c.len() == 1 || c[0] != '0') && (d.len() == 1 || d[0] != '0'))
            &&& address_of(s) matches Some(address) ==> address == seq![
                decimal(a) as u8,
                decimal(b) as u8,
                decimal(c) as u8,
                decimal(d) as u8,
            ]
        }),
{
    let s = a.push('.') + b.push('.') + c.push('.') + d;
    lemma_pieces_single(a, '.');
    lemma_pieces_last(a, b, '.');
    let two = a.push('.') + b;
    lemma_pieces_last(two, c, '.');
    let three = two.push('.') + c;
    lemma_pieces_last(three, d, '.');
    assert(s =~= three.push('.') + d);
    let octets = pieces(s, '.');
    assert(octets =~= seq![a, b, c, d]);
    if address_of(s) is Some {
        assert(address_of(s)->0 =~= seq![
            decimal(a) as u8,
            decimal(b) as u8,
            decimal(c) as u8,
            decimal(d) as u8,
        ]);
    }
    assert(octets[0] == a && octets[1] == b && octets[2] == c && octets[3] == d);
}

} // verus!

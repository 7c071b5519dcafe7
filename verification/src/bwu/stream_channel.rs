//! A channel over a stream of bytes.
//!
//! Each frame is four bytes that give the length of the payload, most significant first,
//! and the payload, which is encrypted once there is a cipher.
//!
//! A [`StreamChannel`] has one owner. Where several threads share one, a read waits for
//! bytes and a write to a paused channel waits until it is resumed or closed; waiting is
//! up to whoever shares it, and the functions here say when there is nothing to wait for.

use vstd::prelude::*;

use crate::bwu::channel::DisconnectionReason;
use crate::frames;
use crate::frames::{from_bytes, get_frame_type, Exception};
use crate::mediums;
use crate::mediums::Medium;
use crate::proto as pb;
use crate::wire;

verus! {

// ---------------------------------------------------------------------------
// What a channel works with
// ---------------------------------------------------------------------------

/// One use of a cipher, and what it gave.
pub enum CipherUse {
    Encode(Seq<u8>, Option<Seq<u8>>),
    Decode(Seq<u8>, Option<Seq<u8>>),
}

/// What encrypts a channel. What a use gives is up to the cipher; that it is recorded is
/// not.
pub trait Cipher: Sized {
    /// The uses so far.
    closed spec fn uses(&self) -> Seq<CipherUse> {
        arbitrary()
    }

    /// Encrypts a frame that goes out; `None` if that fails.
    fn encode(&mut self, plaintext: &[u8]) -> (r: Option<Vec<u8>>)
        ensures
            final(self).uses() == old(self).uses().push(
                CipherUse::Encode(plaintext@, wire::opt_view(r)),
            ),
    ;

    /// Decrypts a frame that came in; `None` if that fails.
    fn decode(&mut self, ciphertext: &[u8]) -> (r: Option<Vec<u8>>)
        ensures
            final(self).uses() == old(self).uses().push(
                CipherUse::Decode(ciphertext@, wire::opt_view(r)),
            ),
    ;
}

/// One use of a stream, and how it ended.
pub enum StreamUse {
    Read(nat, Result<Seq<u8>, Exception>),
    Write(Seq<u8>, Result<(), Exception>),
    Flush(Result<(), Exception>),
    Close,
}

/// What is known of the bytes that a stream will give.
#[verifier::ext_equal]
pub enum Incoming {
    /// Nothing: more may come from elsewhere.
    Unknown,
    /// These bytes, and no others before the next write.
    Buffered { bytes: Seq<u8>, closed: bool },
}

impl Incoming {
    /// A read of `len` bytes comes to an end.
    pub open spec fn can_read(self, len: nat) -> bool {
        match self {
            Incoming::Unknown => true,
            Incoming::Buffered { bytes, closed } => closed || len <= bytes.len(),
        }
    }

    /// A read of `len` bytes may give `r`.
    pub open spec fn gives(self, len: nat, r: Result<Seq<u8>, Exception>) -> bool {
        match self {
            Incoming::Unknown => true,
            Incoming::Buffered { bytes, closed } => if len <= bytes.len() {
                r == Ok::<Seq<u8>, Exception>(bytes.take(len as int))
            } else {
                r == Err::<Seq<u8>, Exception>(Exception::Io)
            },
        }
    }

    /// What is known after bytes were sent to a stream that gives them back.
    pub open spec fn sent(self, more: Seq<u8>) -> Incoming {
        match self {
            Incoming::Buffered { bytes, closed: false } => Incoming::Buffered {
                bytes: bytes + more,
                closed: false,
            },
            _ => self,
        }
    }

    /// What is known after a stream that gives back what is written to it was closed: what
    /// is there can still be read.
    pub open spec fn ended(self) -> Incoming {
        match self {
            Incoming::Unknown => Incoming::Unknown,
            Incoming::Buffered { bytes, closed } => Incoming::Buffered { bytes, closed: true },
        }
    }

    /// What is known after a read of `len` bytes.
    pub open spec fn after(self, len: nat) -> Incoming {
        match self {
            Incoming::Unknown => Incoming::Unknown,
            Incoming::Buffered { bytes, closed } => Incoming::Buffered {
                bytes: if len <= bytes.len() {
                    bytes.skip(len as int)
                } else {
                    Seq::empty()
                },
                closed,
            },
        }
    }
}

/// What a read of a stream gave: the bytes if it went well.
pub open spec fn read_view(r: Result<(), Exception>, buf: Seq<u8>) -> Result<Seq<u8>, Exception> {
    match r {
        Ok(_) => Ok(buf),
        Err(e) => Err(e),
    }
}

/// A stream of bytes in both directions. What a use gives is up to the stream, as far as
/// it is not known beforehand; that it is recorded is not.
pub trait DuplexStream: Sized {
    /// The uses so far.
    closed spec fn uses(&self) -> Seq<StreamUse> {
        arbitrary()
    }

    /// What is known of the bytes that will come.
    closed spec fn incoming(&self) -> Incoming {
        arbitrary()
    }

    /// Whether what is written to the stream comes back from it.
    closed spec fn loops_back(&self) -> bool {
        arbitrary()
    }

    /// Fills `buf`; [`Exception::Io`] if the stream ends before that.
    fn read_exact(&mut self, buf: &mut [u8]) -> (r: Result<(), Exception>)
        requires
            old(self).incoming().can_read(old(buf)@.len()),
        ensures
            final(buf)@.len() == old(buf)@.len(),
            final(self).uses() == old(self).uses().push(
                StreamUse::Read(old(buf)@.len(), read_view(r, final(buf)@)),
            ),
            old(self).incoming().gives(old(buf)@.len(), read_view(r, final(buf)@)),
            final(self).incoming() == old(self).incoming().after(old(buf)@.len()),
            final(self).loops_back() == old(self).loops_back(),
    ;

    /// Writes all of `buf`.
    fn write_all(&mut self, buf: &[u8]) -> (r: Result<(), Exception>)
        ensures
            final(self).uses() == old(self).uses().push(StreamUse::Write(buf@, r)),
            final(self).loops_back() == old(self).loops_back(),
            old(self).loops_back() ==> final(self).incoming() == old(self).incoming().sent(buf@),
            old(self).loops_back() && old(self).incoming() is Buffered ==> r is Ok == !old(
                self,
            ).incoming()->closed,
    ;

    fn flush(&mut self) -> (r: Result<(), Exception>)
        ensures
            final(self).uses() == old(self).uses().push(StreamUse::Flush(r)),
            final(self).loops_back() == old(self).loops_back(),
            old(self).loops_back() ==> final(self).incoming() == old(self).incoming(),
            old(self).loops_back() && old(self).incoming() is Buffered ==> r is Ok,
    ;

    /// Ends the stream, in both directions.
    fn close(&mut self)
        ensures
            final(self).uses() == old(self).uses().push(StreamUse::Close),
            final(self).loops_back() == old(self).loops_back(),
            old(self).loops_back() ==> final(self).incoming() == old(self).incoming().ended(),
    ;
}

// ---------------------------------------------------------------------------
// Frames on a stream
// ---------------------------------------------------------------------------

/// The longest payload.
pub const MAX_ALLOWED_READ_BYTES: usize = 0x7fff_ffff;

/// The four bytes that come before a payload.
#[verifier::opaque]
pub open spec fn header_of(len: nat) -> Seq<u8> {
    seq![
        (len / 0x100_0000 % 0x100) as u8,
        (len / 0x1_0000 % 0x100) as u8,
        (len / 0x100 % 0x100) as u8,
        (len % 0x100) as u8,
    ]
}

/// The number that four bytes stand for.
#[verifier::opaque]
pub open spec fn number_of(header: Seq<u8>) -> nat {
    (((header[0] * 0x100 + header[1]) * 0x100 + header[2]) * 0x100 + header[3]) as nat
}

/// The length that the four bytes before a payload give; none if it is too long. A
/// negative length, in two's complement, is too long as well.
pub open spec fn length_of(header: Seq<u8>) -> Option<nat> {
    if number_of(header) <= MAX_ALLOWED_READ_BYTES {
        Some(number_of(header))
    } else {
        None
    }
}

/// A payload on the stream.
pub open spec fn framed(payload: Seq<u8>) -> Seq<u8> {
    header_of(payload.len()) + payload
}

/// A length of up to the limit is read back from its four bytes.
pub proof fn lemma_length_of_header(len: nat)
    requires
        len <= MAX_ALLOWED_READ_BYTES,
    ensures
        header_of(len).len() == 4,
        length_of(header_of(len)) == Some(len),
{
    reveal(header_of);
    reveal(number_of);
    assert(len == len / 0x100 * 0x100 + len % 0x100);
    assert(len / 0x100 / 0x100 == len / 0x1_0000);
    assert(len / 0x1_0000 / 0x100 == len / 0x100_0000);
    assert(len / 0x100 == len / 0x1_0000 * 0x100 + len / 0x100 % 0x100);
    assert(len / 0x1_0000 == len / 0x100_0000 * 0x100 + len / 0x1_0000 % 0x100);
    assert(len / 0x100_0000 % 0x100 == len / 0x100_0000);
}

fn encode_header(len: usize) -> (r: Vec<u8>)
    requires
        len <= MAX_ALLOWED_READ_BYTES,
    ensures
        r@ == header_of(len as nat),
{
    proof {
        reveal(header_of);
    }
    let a: u8 = (len / 0x100_0000 % 0x100) as u8;
    let b: u8 = (len / 0x1_0000 % 0x100) as u8;
    let c: u8 = (len / 0x100 % 0x100) as u8;
    let d: u8 = (len % 0x100) as u8;
    let r: Vec<u8> = vec![a, b, c, d];
    assert(r@ =~= header_of(len as nat));
    r
}

fn decode_header(header: &Vec<u8>) -> (r: Option<usize>)
    requires
        header@.len() == 4,
    ensures
        match r {
            Some(len) => length_of(header@) == Some(len as nat) && len <= MAX_ALLOWED_READ_BYTES,
            None => length_of(header@) is None,
        },
{
    proof {
        reveal(number_of);
    }
    let n: u64 = ((header[0] as u64 * 0x100 + header[1] as u64) * 0x100 + header[2] as u64) * 0x100
        + header[3] as u64;
    if n <= 0x7fff_ffff {
        Some(n as usize)
    } else {
        None
    }
}

/// What an attempt to decrypt gives.
pub open spec fn decrypted(decoded: Option<Seq<u8>>) -> Result<Seq<u8>, Exception> {
    match decoded {
        Some(plaintext) => Ok(plaintext),
        None => Err(Exception::Execution),
    }
}

/// What a payload that came in is taken for, given what the cipher made of it.
///
/// A peer may send a keep-alive in the clear before it has switched to encryption. That
/// one frame is let through. Otherwise what the cipher rejects is unreadable, for the
/// reason for which it does not parse, if it does not.
#[verifier::opaque]
pub open spec fn opened(raw: Seq<u8>, decoded: Option<Seq<u8>>) -> Result<Seq<u8>, Exception> {
    match decoded {
        Some(plaintext) => if plaintext.len() == 0 {
            Err(Exception::InvalidProtocolBuffer)
        } else {
            Ok(plaintext)
        },
        None => match frames::parsed(raw) {
            Ok(frame) => if frames::frame_type_of(frame) is KeepAlive {
                Ok(raw)
            } else {
                Err(Exception::InvalidProtocolBuffer)
            },
            Err(e) => Err(e),
        },
    }
}

/// Takes a payload that came in, given what the cipher made of it.
pub fn open_payload(raw: Vec<u8>, decoded: Option<Vec<u8>>) -> (r: Result<Vec<u8>, Exception>)
    ensures
        frames::result_view(r) == opened(raw@, wire::opt_view(decoded)),
{
    proof {
        reveal(opened);
    }
    match decoded {
        Some(plaintext) => {
            if plaintext.len() == 0 {
                Err(Exception::InvalidProtocolBuffer)
            } else {
                Ok(plaintext)
            }
        },
        None => match from_bytes(raw.as_slice()) {
            Ok(frame) => {
                if get_frame_type(&frame) == pb::v1_frame::FrameType::KeepAlive {
                    Ok(raw)
                } else {
                    Err(Exception::InvalidProtocolBuffer)
                }
            },
            Err(e) => Err(e),
        },
    }
}

// ---------------------------------------------------------------------------
// Reading and writing
// ---------------------------------------------------------------------------

/// What the stream and the cipher gave for one read. A use that was not made leaves its
/// part open.
pub struct ReadOutcomes {
    pub header: Result<Seq<u8>, Exception>,
    pub payload: Result<Seq<u8>, Exception>,
    pub decoded: Option<Seq<u8>>,
}

impl ReadOutcomes {
    /// The length of the payload, if it comes to reading it.
    pub open spec fn length(self) -> Option<nat> {
        match self.header {
            Ok(header) => length_of(header),
            Err(_) => None,
        }
    }

    /// What the read gives.
    pub open spec fn result(self, encrypted: bool) -> Result<Seq<u8>, Exception> {
        match self.header {
            Err(e) => Err(e),
            Ok(header) => match length_of(header) {
                None => Err(Exception::Io),
                Some(_) => match self.payload {
                    Err(e) => Err(e),
                    Ok(raw) => if encrypted {
                        opened(raw, self.decoded)
                    } else {
                        Ok(raw)
                    },
                },
            },
        }
    }

    /// How the stream is used.
    pub open spec fn stream_uses(self) -> Seq<StreamUse> {
        match self.length() {
            None => seq![StreamUse::Read(4, self.header)],
            Some(len) => seq![StreamUse::Read(4, self.header), StreamUse::Read(len, self.payload)],
        }
    }

    /// How the cipher is used, if there is one.
    pub open spec fn cipher_uses(self) -> Seq<CipherUse> {
        if self.length() is Some && self.payload is Ok {
            seq![CipherUse::Decode(self.payload->Ok_0, self.decoded)]
        } else {
            Seq::empty()
        }
    }

    /// The stream may give this.
    pub open spec fn given_by(self, incoming: Incoming) -> bool {
        &&& incoming.gives(4, self.header)
        &&& self.header is Ok ==> self.header->Ok_0.len() == 4
        &&& match self.length() {
            Some(len) => {
                &&& incoming.after(4).gives(len, self.payload)
                &&& self.payload is Ok ==> self.payload->Ok_0.len() == len
            },
            None => true,
        }
    }

    /// What is known of the stream after this.
    pub open spec fn leaves(self, incoming: Incoming) -> Incoming {
        match self.length() {
            None => incoming.after(4),
            Some(len) => incoming.after(4).after(len),
        }
    }
}

/// A read of one frame comes to an end.
pub open spec fn can_read_frame(incoming: Incoming) -> bool {
    match incoming {
        Incoming::Unknown => true,
        Incoming::Buffered { bytes, closed } => closed || bytes.len() >= 4 && match length_of(
            bytes.take(4),
        ) {
            Some(len) => 4 + len <= bytes.len(),
            None => true,
        },
    }
}

/// What the stream and the cipher gave for one write.
pub struct WriteOutcomes {
    pub encoded: Option<Seq<u8>>,
    pub header: Result<(), Exception>,
    pub payload: Result<(), Exception>,
    pub flush: Result<(), Exception>,
}

impl WriteOutcomes {
    /// What goes out; nothing if it cannot be encrypted or is too long.
    pub open spec fn outgoing(self, data: Seq<u8>, encrypted: bool) -> Option<Seq<u8>> {
        let payload = if encrypted {
            self.encoded
        } else {
            Some(data)
        };
        match payload {
            Some(payload) => if payload.len() <= MAX_ALLOWED_READ_BYTES {
                Some(payload)
            } else {
                None
            },
            None => None,
        }
    }

    /// What the write gives.
    pub open spec fn result(self, data: Seq<u8>, encrypted: bool) -> Exception {
        if self.outgoing(data, encrypted) is Some && self.header is Ok && self.payload is Ok
            && self.flush is Ok {
            Exception::Success
        } else {
            Exception::Io
        }
    }

    /// The stream may give this.
    pub open spec fn given_by(self, incoming: Incoming, loops_back: bool) -> bool {
        match incoming {
            Incoming::Buffered { bytes, closed } => loops_back ==> if closed {
                self.header is Err
            } else {
                self.header is Ok && self.payload is Ok && self.flush is Ok
            },
            Incoming::Unknown => true,
        }
    }

    /// What is known of a stream that gives back what is written to it, after this.
    pub open spec fn leaves(self, data: Seq<u8>, encrypted: bool, incoming: Incoming) -> Incoming {
        match self.outgoing(data, encrypted) {
            Some(payload) => incoming.sent(framed(payload)),
            None => incoming,
        }
    }

    /// How the stream is used: up to the first use that fails.
    pub open spec fn stream_uses(self, data: Seq<u8>, encrypted: bool) -> Seq<StreamUse> {
        match self.outgoing(data, encrypted) {
            None => Seq::empty(),
            Some(payload) => {
                let header = StreamUse::Write(header_of(payload.len()), self.header);
                let body = StreamUse::Write(payload, self.payload);
                if self.header is Err {
                    seq![header]
                } else if self.payload is Err {
                    seq![header, body]
                } else {
                    seq![header, body, StreamUse::Flush(self.flush)]
                }
            },
        }
    }
}

/// What is held for a channel, besides its stream and its cipher.
#[verifier::ext_equal]
pub struct StreamChannelView {
    pub service_id: Seq<char>,
    pub name: Seq<char>,
    pub medium: Medium,
    pub local_endpoint_id: Seq<char>,
    pub paused: bool,
    pub closed: bool,
}

/// A channel over a stream of bytes.
pub struct StreamChannel<S: DuplexStream, K: Cipher> {
    service_id: String,
    name: String,
    medium: Medium,
    stream: S,
    cipher: Option<K>,
    local_endpoint_id: String,
    paused: bool,
    closed: bool,
}

impl<S: DuplexStream, K: Cipher> View for StreamChannel<S, K> {
    type V = StreamChannelView;

    closed spec fn view(&self) -> StreamChannelView {
        StreamChannelView {
            service_id: self.service_id@,
            name: self.name@,
            medium: self.medium,
            local_endpoint_id: self.local_endpoint_id@,
            paused: self.paused,
            closed: self.closed,
        }
    }
}

/// How the cipher is used by the part of a channel that may have one.
pub open spec fn cipher_after<K: Cipher>(old: Option<K>, new: Option<K>, uses: Seq<CipherUse>) -> bool {
    match old {
        Some(k) => new matches Some(n) && n.uses() == k.uses() + uses,
        None => new is None,
    }
}

/// What it comes to that a channel is closed. The first time the stream is closed and a
/// write that is held back let go of; after that nothing happens.
pub open spec fn closed_from<S: DuplexStream, K: Cipher>(
    before: StreamChannel<S, K>,
    after: StreamChannel<S, K>,
) -> bool {
    &&& after.cipher() == before.cipher()
    &&& if before@.closed {
        after@ == before@ && after.stream() == before.stream()
    } else {
        &&& after@ == (StreamChannelView { paused: false, closed: true, ..before@ })
        &&& after.stream().uses() == before.stream().uses().push(StreamUse::Close)
        &&& after.stream().loops_back() == before.stream().loops_back()
        &&& before.stream().loops_back() ==> after.stream().incoming()
            == before.stream().incoming().ended()
    }
}

impl<S: DuplexStream, K: Cipher> StreamChannel<S, K> {
    /// The stream under the channel.
    pub closed spec fn stream(&self) -> S {
        self.stream
    }

    /// What encrypts the channel, if it is encrypted.
    pub closed spec fn cipher(&self) -> Option<K> {
        self.cipher
    }

    pub fn new(service_id: &str, name: &str, medium: Medium, stream: S) -> (r: StreamChannel<S, K>)
        ensures
            r@ == (StreamChannelView {
                service_id: service_id@,
                name: name@,
                medium,
                local_endpoint_id: Seq::empty(),
                paused: false,
                closed: false,
            }),
            r.stream() == stream,
            r.cipher() is None,
    {
        let r = StreamChannel {
            service_id: service_id.to_owned(),
            name: name.to_owned(),
            medium,
            stream,
            cipher: None,
            local_endpoint_id: String::new(),
            paused: false,
            closed: false,
        };
        assert(r@.local_endpoint_id =~= Seq::empty());
        r
    }

    /// Takes the stream out of the channel.
    pub fn into_stream(self) -> (r: S)
        ensures
            r == self.stream(),
    {
        self.stream
    }

    /// Encrypts what is written from now on, and decrypts what is read.
    pub fn enable_encryption(&mut self, cipher: K)
        ensures
            final(self)@ == old(self)@,
            final(self).stream() == old(self).stream(),
            final(self).cipher() == Some(cipher),
    {
        self.cipher = Some(cipher);
    }

    pub fn disable_encryption(&mut self)
        ensures
            final(self)@ == old(self)@,
            final(self).stream() == old(self).stream(),
            final(self).cipher() is None,
    {
        self.cipher = None;
    }

    pub fn is_encrypted(&self) -> (r: bool)
        ensures
            r == self.cipher() is Some,
    {
        self.cipher.is_some()
    }

    /// Decrypts data with the cipher of the channel: [`Exception::Failed`] without one,
    /// [`Exception::Execution`] if it rejects the data.
    pub fn try_decrypt(&mut self, data: &[u8]) -> (r: Result<Vec<u8>, Exception>)
        ensures
            final(self)@ == old(self)@,
            final(self).stream() == old(self).stream(),
            match old(self).cipher() {
                None => final(self).cipher() is None && r == Err::<Vec<u8>, Exception>(
                    Exception::Failed,
                ),
                Some(_) => exists|decoded: Option<Seq<u8>>|
                    {
                        &&& cipher_after(
                            old(self).cipher(),
                            final(self).cipher(),
                            seq![CipherUse::Decode(data@, decoded)],
                        )
                        &&& frames::result_view(r) == #[trigger] decrypted(decoded)
                    },
            },
    {
        match self.cipher.take() {
            None => Err(Exception::Failed),
            Some(cipher) => {
                let mut cipher = cipher;
                let ghost uses = cipher.uses();
                let decoded = cipher.decode(data);
                let ghost used = CipherUse::Decode(data@, wire::opt_view(decoded));
                assert(uses + seq![used] =~= uses.push(used));
                self.cipher = Some(cipher);
                assert(decrypted(wire::opt_view(decoded)) is Ok == decoded is Some);
                match decoded {
                    Some(plaintext) => Ok(plaintext),
                    None => Err(Exception::Execution),
                }
            },
        }
    }

    /// Reads one frame.
    pub fn read(&mut self) -> (r: Result<Vec<u8>, Exception>)
        requires
            can_read_frame(old(self).stream().incoming()),
        ensures
            final(self)@ == old(self)@,
            exists|o: ReadOutcomes|
                {
                    &&& #[trigger] o.given_by(old(self).stream().incoming())
                    &&& frames::result_view(r) == o.result(old(self).cipher() is Some)
                    &&& final(self).stream().uses() == old(self).stream().uses() + o.stream_uses()
                    &&& final(self).stream().incoming() == o.leaves(
                        old(self).stream().incoming(),
                    )
                    &&& cipher_after(old(self).cipher(), final(self).cipher(), o.cipher_uses())
                },
            final(self).stream().loops_back() == old(self).stream().loops_back(),
    {
        let ghost incoming = self.stream.incoming();
        let ghost uses = self.stream.uses();
        let mut header: Vec<u8> = vec![0, 0, 0, 0];
        let read = self.stream.read_exact(header.as_mut_slice());
        let ghost o = ReadOutcomes {
            header: read_view(read, header@),
            payload: Err(Exception::Io),
            decoded: None,
        };
        if let Err(e) = read {
            proof {
                assert(uses + o.stream_uses() =~= uses.push(StreamUse::Read(4, o.header)));
                assert(o.cipher_uses() =~= Seq::empty());
                assert(o.given_by(incoming));
                Self::lemma_no_use(old(self).cipher);
            }
            return Err(e);
        }
        let len: usize = match decode_header(&header) {
            Some(len) => len,
            None => {
                proof {
                    assert(uses + o.stream_uses() =~= uses.push(StreamUse::Read(4, o.header)));
                    assert(o.cipher_uses() =~= Seq::empty());
                    assert(o.given_by(incoming));
                    Self::lemma_no_use(old(self).cipher);
                }
                return Err(Exception::Io);
            },
        };
        let mut data: Vec<u8> = zeros(len);
        let read = self.stream.read_exact(data.as_mut_slice());
        let ghost o = ReadOutcomes { payload: read_view(read, data@), ..o };
        assert(uses + o.stream_uses() =~= uses.push(StreamUse::Read(4, o.header)).push(
            StreamUse::Read(len as nat, o.payload),
        ));
        if let Err(e) = read {
            proof {
                assert(o.cipher_uses() =~= Seq::empty());
                assert(o.given_by(incoming));
                Self::lemma_no_use(old(self).cipher);
            }
            return Err(e);
        }
        match self.cipher.take() {
            None => {
                assert(o.given_by(incoming));
                Ok(data)
            },
            Some(cipher) => {
                let mut cipher = cipher;
                let ghost before = cipher.uses();
                let decoded = cipher.decode(data.as_slice());
                self.cipher = Some(cipher);
                let ghost o = ReadOutcomes { decoded: wire::opt_view(decoded), ..o };
                assert(before + o.cipher_uses() =~= before.push(
                    CipherUse::Decode(data@, wire::opt_view(decoded)),
                ));
                assert(o.given_by(incoming));
                open_payload(data, decoded)
            },
        }
    }

    proof fn lemma_no_use(cipher: Option<K>)
        ensures
            cipher_after(cipher, cipher, Seq::empty()),
    {
        if let Some(k) = cipher {
            assert(k.uses() + Seq::empty() =~= k.uses());
        }
    }

    /// Writes one frame.
    pub fn write(&mut self, data: &[u8]) -> (r: Exception)
        requires
            !old(self)@.paused,
        ensures
            final(self)@ == old(self)@,
            exists|o: WriteOutcomes|
                {
                    &&& r == #[trigger] o.result(data@, old(self).cipher() is Some)
                    &&& final(self).stream().uses() == old(self).stream().uses() + o.stream_uses(
                        data@,
                        old(self).cipher() is Some,
                    )
                    &&& cipher_after(
                        old(self).cipher(),
                        final(self).cipher(),
                        seq![CipherUse::Encode(data@, o.encoded)],
                    )
                    &&& final(self).stream().loops_back() == old(self).stream().loops_back()
                    &&& o.given_by(
                        old(self).stream().incoming(),
                        old(self).stream().loops_back(),
                    )
                    &&& old(self).stream().loops_back() && old(self).stream().incoming()
                        is Buffered ==> final(self).stream().incoming() == o.leaves(
                        data@,
                        old(self).cipher() is Some,
                        old(self).stream().incoming(),
                    )
                },
    {
        let ghost incoming = self.stream.incoming();
        let ghost uses = self.stream.uses();
        let ghost encrypted = self.cipher is Some;
        let ghost o = WriteOutcomes {
            encoded: None,
            header: if incoming is Buffered && incoming->closed {
                Err(Exception::Io)
            } else {
                Ok(())
            },
            payload: Ok(()),
            flush: Ok(()),
        };
        let payload: Option<Vec<u8>> = match self.cipher.take() {
            Some(cipher) => {
                let mut cipher = cipher;
                let ghost before = cipher.uses();
                let encoded = cipher.encode(data);
                self.cipher = Some(cipher);
                let ghost used = CipherUse::Encode(data@, wire::opt_view(encoded));
                assert(before + seq![used] =~= before.push(used));
                proof {
                    o = WriteOutcomes { encoded: wire::opt_view(encoded), ..o };
                }
                encoded
            },
            None => Some(vstd::slice::slice_to_vec(data)),
        };
        let payload = match payload {
            Some(payload) => payload,
            None => {
                assert(uses + o.stream_uses(data@, encrypted) =~= uses);
                assert(o.result(data@, encrypted) == Exception::Io);
                return Exception::Io;
            },
        };
        if payload.len() > MAX_ALLOWED_READ_BYTES {
            assert(uses + o.stream_uses(data@, encrypted) =~= uses);
            assert(o.result(data@, encrypted) == Exception::Io);
            return Exception::Io;
        }
        let header = encode_header(payload.len());
        let written = self.stream.write_all(header.as_slice());
        proof {
            o = WriteOutcomes { header: written, ..o };
        }
        let ghost first = uses.push(StreamUse::Write(header@, o.header));
        if written.is_err() {
            assert(uses + o.stream_uses(data@, encrypted) =~= first);
            assert(o.result(data@, encrypted) == Exception::Io);
            return Exception::Io;
        }
        let written = self.stream.write_all(payload.as_slice());
        proof {
            o = WriteOutcomes { payload: written, ..o };
        }
        let ghost second = first.push(StreamUse::Write(payload@, o.payload));
        if written.is_err() {
            assert(uses + o.stream_uses(data@, encrypted) =~= second);
            assert(o.result(data@, encrypted) == Exception::Io);
            return Exception::Io;
        }
        proof {
            if incoming is Buffered {
                assert(incoming->bytes + header@ + payload@ =~= incoming->bytes + framed(payload@));
            }
        }
        let flushed = self.stream.flush();
        proof {
            o = WriteOutcomes { flush: flushed, ..o };
        }
        assert(uses + o.stream_uses(data@, encrypted) =~= second.push(StreamUse::Flush(flushed)));
        if flushed.is_err() {
            assert(o.result(data@, encrypted) == Exception::Io);
            return Exception::Io;
        }
        assert(o.result(data@, encrypted) == Exception::Success);
        Exception::Success
    }

    /// Closes the stream, and lets go of a write that is held back. A second time does
    /// nothing.
    fn do_close(&mut self)
        ensures
            closed_from(*old(self), *final(self)),
    {
        if self.closed {
            return ;
        }
        self.closed = true;
        self.paused = false;
        self.stream.close();
    }

    /// Closes the channel. A second time does nothing.
    pub fn close(&mut self)
        ensures
            closed_from(*old(self), *final(self)),
    {
        self.do_close();
    }

    /// Closes the channel. The reason decides nothing.
    pub fn close_with_reason(&mut self, _reason: DisconnectionReason)
        ensures
            closed_from(*old(self), *final(self)),
    {
        self.do_close();
    }

    pub fn medium(&self) -> (r: Medium)
        ensures
            r == self@.medium,
    {
        self.medium
    }

    pub fn service_id(&self) -> (r: String)
        ensures
            r@ == self@.service_id,
    {
        self.service_id.clone()
    }

    pub fn name(&self) -> (r: String)
        ensures
            r@ == self@.name,
    {
        self.name.clone()
    }

    /// The medium, and whether the channel is encrypted.
    pub fn channel_type(&self) -> (r: String)
        ensures
            r@ == if self.cipher() is Some {
                "ENCRYPTED_"@ + mediums::name_of(self@.medium)
            } else {
                mediums::name_of(self@.medium)
            },
    {
        if self.is_encrypted() {
            "ENCRYPTED_".to_owned().concat(self.medium.name())
        } else {
            self.medium.name().to_owned()
        }
    }

    pub fn local_endpoint_id(&self) -> (r: String)
        ensures
            r@ == self@.local_endpoint_id,
    {
        self.local_endpoint_id.clone()
    }

    pub fn set_local_endpoint_id(&mut self, local_endpoint_id: &str)
        ensures
            final(self)@ == (StreamChannelView {
                local_endpoint_id: local_endpoint_id@,
                ..old(self)@
            }),
            final(self).stream() == old(self).stream(),
            final(self).cipher() == old(self).cipher(),
    {
        self.local_endpoint_id = local_endpoint_id.to_owned();
    }

    /// Holds writes back.
    pub fn pause(&mut self)
        ensures
            final(self)@ == (StreamChannelView { paused: true, ..old(self)@ }),
            final(self).stream() == old(self).stream(),
            final(self).cipher() == old(self).cipher(),
    {
        self.paused = true;
    }

    /// Lets writes through again.
    pub fn resume(&mut self)
        ensures
            final(self)@ == (StreamChannelView { paused: false, ..old(self)@ }),
            final(self).stream() == old(self).stream(),
            final(self).cipher() == old(self).cipher(),
    {
        self.paused = false;
    }

    pub fn is_paused(&self) -> (r: bool)
        ensures
            r == self@.paused,
    {
        self.paused
    }
}

/// A frame that was written is the frame that is read, and what came after it is left.
pub proof fn lemma_read_back(payload: Seq<u8>, rest: Seq<u8>, closed: bool, o: ReadOutcomes)
    requires
        payload.len() <= MAX_ALLOWED_READ_BYTES,
        o.given_by(Incoming::Buffered { bytes: framed(payload) + rest, closed }),
    ensures
        can_read_frame(Incoming::Buffered { bytes: framed(payload) + rest, closed }),
        o.result(false) == Ok::<Seq<u8>, Exception>(payload),
        o.result(true) == opened(payload, o.decoded),
        o.leaves(Incoming::Buffered { bytes: framed(payload) + rest, closed })
            == (Incoming::Buffered { bytes: rest, closed }),
{
    let bytes = framed(payload) + rest;
    lemma_length_of_header(payload.len());
    assert(bytes.take(4) =~= header_of(payload.len()));
    assert(bytes.skip(4).take(payload.len() as int) =~= payload);
    assert(bytes.skip(4).skip(payload.len() as int) =~= rest);
}

/// Over a stream that gives back what is written to it, the frame that is read after a
/// write is the one that was written. This holds of an encrypted channel, too, if the
/// cipher makes of what it has encrypted what it was.
pub proof fn lemma_round_trip(data: Seq<u8>, encrypted: bool, w: WriteOutcomes, r: ReadOutcomes)
    requires
        w.given_by(Incoming::Buffered { bytes: Seq::empty(), closed: false }, true),
        w.result(data, encrypted).ok(),
        r.given_by(
            w.leaves(
                data,
                encrypted,
                Incoming::Buffered { bytes: Seq::empty(), closed: false },
            ),
        ),
        encrypted ==> r.decoded == Some(data) && data.len() > 0,
    ensures
        r.result(encrypted) == Ok::<Seq<u8>, Exception>(data),
{
    reveal(opened);
    let payload = w.outgoing(data, encrypted)->0;
    assert(Seq::<u8>::empty() + framed(payload) =~= framed(payload) + Seq::<u8>::empty());
    lemma_read_back(payload, Seq::empty(), false, r);
}

/// What some writes send, one after the other.
pub open spec fn payloads(
    datas: Seq<Seq<u8>>,
    encrypted: bool,
    ws: Seq<WriteOutcomes>,
) -> Seq<Seq<u8>> {
    Seq::new(datas.len(), |i: int| ws[i].outgoing(datas[i], encrypted)->0)
}

/// Some payloads on the stream, one after the other.
pub open spec fn all_framed(payloads: Seq<Seq<u8>>) -> Seq<u8>
    decreases payloads.len(),
{
    if payloads.len() == 0 {
        Seq::empty()
    } else {
        framed(payloads[0]) + all_framed(payloads.drop_first())
    }
}

/// What is known of a stream that gives back what is written to it, after some writes.
pub open spec fn after_writes(
    incoming: Incoming,
    datas: Seq<Seq<u8>>,
    encrypted: bool,
    ws: Seq<WriteOutcomes>,
) -> Incoming
    decreases datas.len(),
{
    if datas.len() == 0 {
        incoming
    } else {
        after_writes(
            ws[0].leaves(datas[0], encrypted, incoming),
            datas.drop_first(),
            encrypted,
            ws.drop_first(),
        )
    }
}

/// What is known of a stream after some reads.
pub open spec fn after_reads(incoming: Incoming, rs: Seq<ReadOutcomes>) -> Incoming
    decreases rs.len(),
{
    if rs.len() == 0 {
        incoming
    } else {
        after_reads(rs[0].leaves(incoming), rs.drop_first())
    }
}

proof fn lemma_after_writes(
    bytes: Seq<u8>,
    datas: Seq<Seq<u8>>,
    encrypted: bool,
    ws: Seq<WriteOutcomes>,
)
    requires
        ws.len() == datas.len(),
        forall|i: int|
            0 <= i < datas.len() ==> (#[trigger] ws[i]).outgoing(datas[i], encrypted) is Some,
    ensures
        after_writes(Incoming::Buffered { bytes, closed: false }, datas, encrypted, ws)
            == (Incoming::Buffered {
            bytes: bytes + all_framed(payloads(datas, encrypted, ws)),
            closed: false,
        }),
    decreases datas.len(),
{
    if datas.len() == 0 {
        assert(bytes + Seq::<u8>::empty() =~= bytes);
    } else {
        let first = ws[0].outgoing(datas[0], encrypted)->0;
        let rest = all_framed(payloads(datas.drop_first(), encrypted, ws.drop_first()));
        assert forall|i: int| 0 <= i < datas.drop_first().len() implies (
        #[trigger] ws.drop_first()[i]).outgoing(datas.drop_first()[i], encrypted) is Some by {
            assert(ws[i + 1].outgoing(datas[i + 1], encrypted) is Some);
        }
        lemma_after_writes(bytes + framed(first), datas.drop_first(), encrypted, ws.drop_first());
        assert(payloads(datas, encrypted, ws).drop_first() =~= payloads(
            datas.drop_first(),
            encrypted,
            ws.drop_first(),
        ));
        assert(bytes + framed(first) + rest =~= bytes + (framed(first) + rest));
    }
}

proof fn lemma_reads_back(
    payloads: Seq<Seq<u8>>,
    rest: Seq<u8>,
    closed: bool,
    rs: Seq<ReadOutcomes>,
    i: int,
)
    requires
        rs.len() == payloads.len(),
        forall|j: int|
            0 <= j < payloads.len() ==> (#[trigger] payloads[j]).len() <= MAX_ALLOWED_READ_BYTES,
        forall|j: int|
            0 <= j < rs.len() ==> (#[trigger] rs[j]).given_by(
                after_reads(
                    Incoming::Buffered { bytes: all_framed(payloads) + rest, closed },
                    rs.take(j),
                ),
            ),
        0 <= i < rs.len(),
    ensures
        rs[i].result(false) == Ok::<Seq<u8>, Exception>(payloads[i]),
        rs[i].result(true) == opened(payloads[i], rs[i].decoded),
        can_read_frame(
            after_reads(
                Incoming::Buffered { bytes: all_framed(payloads) + rest, closed },
                rs.take(i),
            ),
        ),
    decreases rs.len(),
{
    let incoming = Incoming::Buffered { bytes: all_framed(payloads) + rest, closed };
    let more = all_framed(payloads.drop_first()) + rest;
    let next = Incoming::Buffered { bytes: more, closed };
    assert(all_framed(payloads) + rest =~= framed(payloads[0]) + more);
    assert(rs.take(0) =~= Seq::empty());
    assert(rs[0].given_by(incoming));
    lemma_read_back(payloads[0], more, closed, rs[0]);
    if i > 0 {
        let tail = rs.drop_first();
        assert forall|j: int| 0 <= j < tail.len() implies (#[trigger] tail[j]).given_by(
            after_reads(next, tail.take(j)),
        ) by {
            assert(rs[j + 1].given_by(after_reads(incoming, rs.take(j + 1))));
            assert(rs.take(j + 1).drop_first() =~= tail.take(j));
            assert(rs.take(j + 1)[0] == rs[0]);
        }
        assert forall|j: int| 0 <= j < payloads.drop_first().len() implies (
        #[trigger] payloads.drop_first()[j]).len() <= MAX_ALLOWED_READ_BYTES by {
            assert(payloads[j + 1].len() <= MAX_ALLOWED_READ_BYTES);
        }
        lemma_reads_back(payloads.drop_first(), rest, closed, tail, i - 1);
        assert(rs.take(i).drop_first() =~= tail.take(i - 1));
        assert(rs.take(i)[0] == rs[0]);
    }
}

/// Over a stream that gives back what is written to it, and that nothing was written to
/// before, the frames that are read are those that were written, in that order, and no
/// read has to wait. This holds of an encrypted channel, too, if the cipher makes of what
/// it has encrypted what it was.
pub proof fn lemma_frames_in_order(
    datas: Seq<Seq<u8>>,
    encrypted: bool,
    ws: Seq<WriteOutcomes>,
    rs: Seq<ReadOutcomes>,
    i: int,
)
    requires
        ws.len() == datas.len(),
        rs.len() == datas.len(),
        forall|j: int|
            0 <= j < datas.len() ==> (#[trigger] ws[j]).result(datas[j], encrypted).ok(),
        forall|j: int|
            0 <= j < datas.len() ==> (#[trigger] rs[j]).given_by(
                after_reads(
                    after_writes(
                        Incoming::Buffered { bytes: Seq::empty(), closed: false },
                        datas,
                        encrypted,
                        ws,
                    ),
                    rs.take(j),
                ),
            ),
        encrypted ==> forall|j: int|
            0 <= j < datas.len() ==> (#[trigger] rs[j]).decoded == Some(datas[j])
                && datas[j].len() > 0,
        0 <= i < datas.len(),
    ensures
        can_read_frame(
            after_reads(
                after_writes(
                    Incoming::Buffered { bytes: Seq::empty(), closed: false },
                    datas,
                    encrypted,
                    ws,
                ),
                rs.take(i),
            ),
        ),
        rs[i].result(encrypted) == Ok::<Seq<u8>, Exception>(datas[i]),
{
    let sent = payloads(datas, encrypted, ws);
    let fresh = Incoming::Buffered { bytes: Seq::empty(), closed: false };
    assert forall|j: int| 0 <= j < datas.len() implies (#[trigger] ws[j]).outgoing(
        datas[j],
        encrypted,
    ) is Some by {
        assert(ws[j].result(datas[j], encrypted).ok());
    }
    lemma_after_writes(Seq::empty(), datas, encrypted, ws);
    assert(Seq::<u8>::empty() + all_framed(sent) =~= all_framed(sent) + Seq::<u8>::empty());
    assert forall|j: int| 0 <= j < sent.len() implies (#[trigger] sent[j]).len()
        <= MAX_ALLOWED_READ_BYTES by {
        assert(ws[j].outgoing(datas[j], encrypted) is Some);
    }
    assert(after_writes(fresh, datas, encrypted, ws) == (Incoming::Buffered {
        bytes: all_framed(sent) + Seq::<u8>::empty(),
        closed: false,
    }));
    lemma_reads_back(sent, Seq::empty(), false, rs, i);
    reveal(opened);
    assert(sent[i] == ws[i].outgoing(datas[i], encrypted)->0);
}

/// A read of a stream that was closed does not wait. Once no whole length is left, it gives
/// [`Exception::Io`].
pub proof fn lemma_read_after_close(incoming: Incoming, o: ReadOutcomes, encrypted: bool)
    requires
        incoming is Buffered,
    ensures
        can_read_frame(incoming.ended()),
        o.given_by(incoming.ended()) && incoming->bytes.len() < 4 ==> o.result(encrypted) == Err::<
            Seq<u8>,
            Exception,
        >(Exception::Io),
{
}

/// However often and in whichever way a channel is closed, its stream is closed once, the
/// first time, and no write is held back.
pub proof fn lemma_closed_once<S: DuplexStream, K: Cipher>(states: Seq<StreamChannel<S, K>>)
    requires
        states.len() >= 2,
        !states[0]@.closed,
        forall|i: int|
            0 <= i < states.len() - 1 ==> closed_from(#[trigger] states[i], states[i + 1]),
    ensures
        states.last().stream() == states[1].stream(),
        states.last().stream().uses() == states[0].stream().uses().push(StreamUse::Close),
        states.last()@ == (StreamChannelView { paused: false, closed: true, ..states[0]@ }),
        states.last().cipher() == states[0].cipher(),
    decreases states.len(),
{
    assert(closed_from(states[0], states[1]));
    if states.len() > 2 {
        let earlier = states.drop_last();
        assert forall|i: int| 0 <= i < earlier.len() - 1 implies closed_from(
            #[trigger] earlier[i],
            earlier[i + 1],
        ) by {
            assert(closed_from(states[i], states[i + 1]));
        }
        lemma_closed_once(earlier);
        assert(closed_from(states[states.len() - 2], states[states.len() - 2 + 1]));
    }
}

/// A keep-alive in the clear is let through, though the cipher rejects it.
pub proof fn lemma_clear_keep_alive(keep_alive: pb::KeepAliveFrame)
    requires
        frames::keep_alive_bytes(keep_alive).len() <= u64::MAX,
    ensures
        opened(frames::keep_alive_bytes(keep_alive), None) == Ok::<Seq<u8>, Exception>(
            frames::keep_alive_bytes(keep_alive),
        ),
{
    reveal(opened);
    frames::lemma_parsed_frame_bytes(
        pb::V1FrameView {
            type_: Some(pb::v1_frame::FrameType::KeepAlive.value()),
            keep_alive: Some(keep_alive),
            ..pb::V1FrameView::unset()
        },
    );
}

/// Any other frame in the clear is rejected.
pub proof fn lemma_clear_frame(v1: pb::V1FrameView)
    requires
        frames::frame_bytes(v1).len() <= u64::MAX,
        !(frames::frame_type_of(frames::version_1(v1)) is KeepAlive),
    ensures
        opened(frames::frame_bytes(v1), None) is Err,
{
    reveal(opened);
    frames::lemma_parsed_frame_bytes(v1);
}

/// The four bytes before a payload are its length, the most significant byte first.
pub proof fn lemma_header_written(len: nat)
    requires
        len <= 0x7fff_ffff,
    ensures
        header_of(len).len() == 4,
        header_of(len)[0] * 0x100_0000 + header_of(len)[1] * 0x1_0000 + header_of(len)[2] * 0x100
            + header_of(len)[3] == len,
{
    lemma_length_of_header(len);
    reveal(number_of);
}

/// A length is read from four bytes, the most significant first. One whose highest bit is
/// set is too long.
pub proof fn lemma_length_read(header: Seq<u8>)
    requires
        header.len() == 4,
    ensures
        length_of(header) is Some == (header[0] < 0x80),
        length_of(header) matches Some(len) ==> len == header[0] * 0x100_0000 + header[1] * 0x1_0000
            + header[2] * 0x100 + header[3],
{
    reveal(number_of);
}

/// A stream that gives back what is written to it keeps it in order: what is sent comes
/// after what is there, and nothing is sent once it was closed. A read takes the first bytes
/// and leaves the rest; one of more than there is fails, and leaves nothing. To close it
/// keeps what is there.
pub proof fn lemma_stream_in_order(bytes: Seq<u8>, closed: bool, more: Seq<u8>, len: nat)
    ensures
        ({
            let now = Incoming::Buffered { bytes, closed };
            &&& !closed ==> now.sent(more) == (Incoming::Buffered { bytes: bytes + more, closed })
            &&& closed ==> now.sent(more) == now
            &&& now.ended() == (Incoming::Buffered { bytes, closed: true })
            &&& len <= bytes.len() ==> {
                &&& now.can_read(len)
                &&& forall|r: Result<Seq<u8>, Exception>| #[trigger]
                    now.gives(len, r) == (r == Ok::<Seq<u8>, Exception>(bytes.take(len as int)))
                &&& now.after(len) == (Incoming::Buffered { bytes: bytes.skip(len as int), closed })
            }
            &&& len > bytes.len() ==> {
                &&& now.can_read(len) == closed
                &&& forall|r: Result<Seq<u8>, Exception>| #[trigger]
                    now.gives(len, r) == (r == Err::<Seq<u8>, Exception>(Exception::Io))
                &&& now.after(len) == (Incoming::Buffered { bytes: Seq::empty(), closed })
            }
        }),
{
}

/// A frame can be read if its length and all of its bytes are there, if its length is too
/// long, or if nothing more will come. Otherwise a read would wait.
pub proof fn lemma_read_waits(bytes: Seq<u8>)
    ensures
        can_read_frame(Incoming::Unknown),
        can_read_frame(Incoming::Buffered { bytes, closed: true }),
        bytes.len() < 4 ==> !can_read_frame(Incoming::Buffered { bytes, closed: false }),
        bytes.len() >= 4 ==> can_read_frame(Incoming::Buffered { bytes, closed: false }) == (
        bytes[0] >= 0x80 || 4 + bytes[0] * 0x100_0000 + bytes[1] * 0x1_0000 + bytes[2] * 0x100
            + bytes[3] <= bytes.len()),
{
    if bytes.len() >= 4 {
        lemma_length_read(bytes.take(4));
    }
}

/// A write to a stream that gives back what is written to it fails at its header once it was
/// closed, and not before. What could be sent is then there, with its length in front.
pub proof fn lemma_write_after_close(
    o: WriteOutcomes,
    bytes: Seq<u8>,
    data: Seq<u8>,
    encrypted: bool,
)
    ensures
        o.given_by(Incoming::Buffered { bytes, closed: true }, true) ==> o.result(data, encrypted)
            == Exception::Io && o.leaves(
            data,
            encrypted,
            Incoming::Buffered { bytes, closed: true },
        ) == (Incoming::Buffered { bytes, closed: true }),
        o.given_by(Incoming::Buffered { bytes, closed: false }, true) ==> match o.outgoing(
            data,
            encrypted,
        ) {
            Some(payload) => o.result(data, encrypted) == Exception::Success && o.leaves(
                data,
                encrypted,
                Incoming::Buffered { bytes, closed: false },
            ) == (Incoming::Buffered {
                bytes: bytes + (header_of(payload.len()) + payload),
                closed: false,
            }),
            None => o.result(data, encrypted) == Exception::Io && o.leaves(
                data,
                encrypted,
                Incoming::Buffered { bytes, closed: false },
            ) == (Incoming::Buffered { bytes, closed: false }),
        },
{
}

/// What came in encrypted is what the cipher makes of it, but nothing at all is malformed.
/// What the cipher rejects is read in the clear if it is a keep-alive, whose type is 5, and
/// is otherwise unreadable: for the reason for which it does not parse, or as malformed.
pub proof fn lemma_opened(raw: Seq<u8>, plaintext: Seq<u8>)
    ensures
        plaintext.len() > 0 ==> opened(raw, Some(plaintext)) == Ok::<Seq<u8>, Exception>(plaintext),
        plaintext.len() == 0 ==> opened(raw, Some(plaintext)) == Err::<Seq<u8>, Exception>(
            Exception::InvalidProtocolBuffer,
        ),
        match frames::parsed(raw) {
            Ok(frame) => opened(raw, None) == (if frame.version == Some(1i32) && frame.v1 is Some
                && frame.v1->0.type_ == Some(5i32) {
                Ok::<Seq<u8>, Exception>(raw)
            } else {
                Err(Exception::InvalidProtocolBuffer)
            }),
            Err(e) => opened(raw, None) == Err::<Seq<u8>, Exception>(e),
        },
        decrypted(Some(plaintext)) == Ok::<Seq<u8>, Exception>(plaintext),
        decrypted(None) == Err::<Seq<u8>, Exception>(Exception::Execution),
{
    reveal(opened);
}

/// What goes out on an encrypted channel is what the cipher made of the data, and never the
/// data itself; in the clear it is the data. Nothing that cannot be encrypted, or is longer
/// than a length can tell, goes out. What goes out is preceded by its length and flushed,
/// and the write succeeds if and only if all of that does.
pub proof fn lemma_sent(o: WriteOutcomes, data: Seq<u8>, encrypted: bool)
    ensures
        ({
            let sent = if encrypted {
                o.encoded
            } else {
                Some(data)
            };
            let uses = o.stream_uses(data, encrypted);
            &&& sent is None || sent->0.len() > 0x7fff_ffff ==> {
                &&& uses.len() == 0
                &&& o.result(data, encrypted) == Exception::Io
            }
            &&& sent is Some && sent->0.len() <= 0x7fff_ffff ==> {
                &&& o.outgoing(data, encrypted) == sent
                &&& uses[0] == StreamUse::Write(header_of(sent->0.len()), o.header)
                &&& o.header is Err ==> uses.len() == 1 && o.result(data, encrypted)
                    == Exception::Io
                &&& o.header is Ok ==> uses[1] == StreamUse::Write(sent->0, o.payload)
                &&& o.header is Ok && o.payload is Err ==> uses.len() == 2 && o.result(
                    data,
                    encrypted,
                ) == Exception::Io
                &&& o.header is Ok && o.payload is Ok ==> uses.len() == 3 && uses[2]
                    == StreamUse::Flush(o.flush) && o.result(data, encrypted) == (if o.flush
                    is Ok {
                    Exception::Success
                } else {
                    Exception::Io
                })
            }
        }),
{
}

/// A read takes four bytes, and then as many as they tell. It fails as the stream does, and
/// with [`Exception::Io`] if they tell too many. In the clear it gives what came; on an
/// encrypted channel the cipher is used once, on what came.
pub proof fn lemma_received(o: ReadOutcomes)
    ensures
        match o.header {
            Err(e) => {
                &&& o.result(true) == Err::<Seq<u8>, Exception>(e)
                &&& o.result(false) == Err::<Seq<u8>, Exception>(e)
                &&& o.stream_uses() == seq![StreamUse::Read(4, o.header)]
                &&& o.cipher_uses().len() == 0
            },
            Ok(header) => match length_of(header) {
                None => {
                    &&& o.result(true) == Err::<Seq<u8>, Exception>(Exception::Io)
                    &&& o.result(false) == Err::<Seq<u8>, Exception>(Exception::Io)
                    &&& o.stream_uses() == seq![StreamUse::Read(4, o.header)]
                    &&& o.cipher_uses().len() == 0
                },
                Some(len) => {
                    &&& o.stream_uses() == seq![
                        StreamUse::Read(4, o.header),
                        StreamUse::Read(len, o.payload),
                    ]
                    &&& o.result(false) == o.payload
                    &&& match o.payload {
                        Err(e) => o.result(true) == Err::<Seq<u8>, Exception>(e)
                            && o.cipher_uses().len() == 0,
                        Ok(raw) => o.result(true) == opened(raw, o.decoded) && o.cipher_uses()
                            == seq![CipherUse::Decode(raw, o.decoded)],
                    }
                },
            },
        },
{
}

fn zeros(len: usize) -> (r: Vec<u8>)
    ensures
        r@.len() == len,
{
    let mut r: Vec<u8> = Vec::new();
    let mut i: usize = 0;
    while i < len
        invariant
            i <= len,
            r@.len() == i,
        decreases len - i,
    {
        r.push(0);
        i = i + 1;
    }
    r
}

// ---------------------------------------------------------------------------
// Pipe
// ---------------------------------------------------------------------------

/// A stream in memory: what is written can be read back.
pub struct Pipe {
    buf: Vec<u8>,
    closed: bool,
    uses: Ghost<Seq<StreamUse>>,
}

impl Pipe {
    /// An open pipe with nothing in it, which was not used yet.
    pub fn new() -> (r: Pipe)
        ensures
            r.uses() == Seq::<StreamUse>::empty(),
            r.incoming() == (Incoming::Buffered { bytes: Seq::empty(), closed: false }),
            r.loops_back(),
    {
        Pipe { buf: Vec::new(), closed: false, uses: Ghost(Seq::empty()) }
    }

    /// Whether a read of `len` bytes comes to an end without another write.
    pub fn can_read(&self, len: usize) -> (r: bool)
        ensures
            r == self.incoming().can_read(len as nat),
    {
        self.closed || len <= self.buf.len()
    }
}

impl DuplexStream for Pipe {
    closed spec fn uses(&self) -> Seq<StreamUse> {
        self.uses@
    }

    closed spec fn incoming(&self) -> Incoming {
        Incoming::Buffered { bytes: self.buf@, closed: self.closed }
    }

    closed spec fn loops_back(&self) -> bool {
        true
    }

    fn read_exact(&mut self, buf: &mut [u8]) -> (r: Result<(), Exception>) {
        let n: usize = buf.len();
        if self.buf.len() < n {
            self.buf = Vec::new();
            assert(self.buf@ =~= Seq::empty());
            self.uses = Ghost(
                self.uses@.push(StreamUse::Read(n as nat, Err(Exception::Io))),
            );
            return Err(Exception::Io);
        }
        let mut i: usize = 0;
        while i < n
            invariant
                i <= n,
                n == buf@.len(),
                n <= self.buf@.len(),
                self.buf@ == old(self).buf@,
                self.closed == old(self).closed,
                self.uses@ == old(self).uses@,
                forall|j: int| 0 <= j < i ==> buf@[j] == self.buf@[j],
            decreases n - i,
        {
            buf[i] = self.buf[i];
            i = i + 1;
        }
        let rest = self.buf.split_off(n);
        assert(rest@ =~= old(self).buf@.skip(n as int));
        self.buf = rest;
        assert(buf@ =~= old(self).buf@.take(n as int));
        self.uses = Ghost(self.uses@.push(StreamUse::Read(n as nat, Ok(buf@))));
        Ok(())
    }

    /// What is written comes after what is there, unless the pipe is closed.
    fn write_all(&mut self, buf: &[u8]) -> (r: Result<(), Exception>)
        ensures
            old(self).incoming()->closed ==> r == Err::<(), Exception>(Exception::Io),
    {
        if self.closed {
            self.uses = Ghost(self.uses@.push(StreamUse::Write(buf@, Err(Exception::Io))));
            return Err(Exception::Io);
        }
        self.buf.extend_from_slice(buf);
        assert(self.buf@ =~= old(self).buf@ + buf@);
        self.uses = Ghost(self.uses@.push(StreamUse::Write(buf@, Ok(()))));
        Ok(())
    }

    fn flush(&mut self) -> (r: Result<(), Exception>) {
        self.uses = Ghost(self.uses@.push(StreamUse::Flush(Ok(()))));
        Ok(())
    }

    /// What is there can still be read.
    fn close(&mut self) {
        self.closed = true;
        self.uses = Ghost(self.uses@.push(StreamUse::Close));
    }
}

} // verus!

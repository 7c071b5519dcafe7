use std::cell::Cell;
use std::rc::Rc;

use nearby_rs::bwu::stream_channel::open_payload;
use nearby_rs::bwu::{Cipher, DisconnectionReason, DuplexStream, Pipe, StreamChannel};
use nearby_rs::frames::{for_bwu_last_write, for_keep_alive, Exception};
use nearby_rs::mediums::Medium;

const MARK: u8 = 0xE5;

/// Puts a mark before what it encrypts, and rejects what has none.
struct MarkerCipher;

impl Cipher for MarkerCipher {
    fn encode(&mut self, plaintext: &[u8]) -> Option<Vec<u8>> {
        let mut out = Vec::with_capacity(plaintext.len() + 1);
        out.push(MARK);
        out.extend_from_slice(plaintext);
        Some(out)
    }

    fn decode(&mut self, ciphertext: &[u8]) -> Option<Vec<u8>> {
        match ciphertext.split_first() {
            Some((&MARK, rest)) => Some(rest.to_vec()),
            _ => None,
        }
    }
}

/// Encrypts nothing.
struct BrokenCipher;

impl Cipher for BrokenCipher {
    fn encode(&mut self, _plaintext: &[u8]) -> Option<Vec<u8>> {
        None
    }

    fn decode(&mut self, _ciphertext: &[u8]) -> Option<Vec<u8>> {
        None
    }
}

fn channel(name: &str) -> StreamChannel<Pipe, MarkerCipher> {
    StreamChannel::new("svc", name, Medium::WifiLan, Pipe::new())
}

#[test]
fn read_write_round_trips_unencrypted() {
    let mut ch = channel("rw");
    assert!(!ch.is_encrypted());

    assert_eq!(ch.write(b"hello world"), Exception::Success);
    assert_eq!(ch.read().unwrap(), b"hello world");

    // An empty frame round-trips (length 0, no payload).
    assert_eq!(ch.write(b""), Exception::Success);
    assert_eq!(ch.read().unwrap(), b"");
}

#[test]
fn frames_are_read_in_the_order_of_their_writes() {
    for encrypted in [false, true] {
        let mut ch = channel("many");
        if encrypted {
            ch.enable_encryption(MarkerCipher);
        }
        let frames: [&[u8]; 3] = [b"one", b"second", b"3"];
        for frame in frames {
            assert_eq!(ch.write(frame), Exception::Success);
        }
        for frame in frames {
            assert_eq!(ch.read().unwrap(), frame);
        }
    }
}

#[test]
fn what_was_written_is_read_after_a_close() {
    let mut ch = channel("left");
    assert_eq!(ch.write(b"left"), Exception::Success);
    ch.pause();
    ch.close_with_reason(DisconnectionReason::Shutdown);
    // A write that was held back is let go of, and fails.
    assert!(!ch.is_paused());
    assert_eq!(ch.write(b"late"), Exception::Io);
    ch.close();
    ch.close_with_reason(DisconnectionReason::Upgraded);
    assert_eq!(ch.read().unwrap(), b"left");
    assert_eq!(ch.read(), Err(Exception::Io));
}

/// A stream that counts how often it is closed.
struct CountingStream {
    closes: Rc<Cell<u32>>,
}

impl DuplexStream for CountingStream {
    fn read_exact(&mut self, _buf: &mut [u8]) -> Result<(), Exception> {
        Err(Exception::Io)
    }

    fn write_all(&mut self, _buf: &[u8]) -> Result<(), Exception> {
        Ok(())
    }

    fn flush(&mut self) -> Result<(), Exception> {
        Ok(())
    }

    fn close(&mut self) {
        self.closes.set(self.closes.get() + 1);
    }
}

#[test]
fn stream_is_closed_once() {
    let closes = Rc::new(Cell::new(0));
    let stream = CountingStream { closes: closes.clone() };
    let mut ch: StreamChannel<CountingStream, MarkerCipher> =
        StreamChannel::new("svc", "count", Medium::WifiLan, stream);
    ch.close_with_reason(DisconnectionReason::Upgraded);
    assert_eq!(closes.get(), 1);
    ch.close();
    ch.close_with_reason(DisconnectionReason::IoError);
    assert_eq!(closes.get(), 1);
}

#[test]
fn encrypted_round_trips() {
    let mut ch = channel("enc");
    ch.enable_encryption(MarkerCipher);
    assert!(ch.is_encrypted());

    assert_eq!(ch.write(b"secret"), Exception::Success);
    assert_eq!(ch.read().unwrap(), b"secret");
}

#[test]
fn encrypted_payload_is_ciphertext_on_the_wire() {
    // A channel in the clear over the same pipe sees the bytes as they are.
    let mut enc = StreamChannel::new("svc", "enc", Medium::WifiLan, Pipe::new());
    enc.enable_encryption(MarkerCipher);
    assert_eq!(enc.write(b"secret"), Exception::Success);

    let mut wire: StreamChannel<Pipe, MarkerCipher> =
        StreamChannel::new("svc", "wire", Medium::WifiLan, enc.into_stream());
    let on_wire = wire.read().unwrap();
    let mut expected_ciphertext = vec![MARK];
    expected_ciphertext.extend_from_slice(b"secret");
    assert_eq!(on_wire, expected_ciphertext);
    assert_ne!(on_wire, b"secret");
}

#[test]
fn try_decrypt_behaviour() {
    let mut ch = channel("td");
    // Without encryption.
    assert_eq!(ch.try_decrypt(b"anything"), Err(Exception::Failed));

    ch.enable_encryption(MarkerCipher);
    let mut ciphertext = vec![MARK];
    ciphertext.extend_from_slice(b"hi");
    assert_eq!(ch.try_decrypt(&ciphertext).unwrap(), b"hi");
    // Data that the cipher rejects.
    assert_eq!(ch.try_decrypt(b"no-marker"), Err(Exception::Execution));
}

#[test]
fn read_after_close_returns_io() {
    let mut ch = channel("closed");
    ch.close();
    assert_eq!(ch.read(), Err(Exception::Io));
    // Closing again changes nothing.
    ch.close();
}

#[test]
fn unencrypted_keepalive_passes_but_other_frames_rejected_on_encrypted_channel() {
    // A peer that has not switched to encryption yet writes in the clear.
    let mut peer: StreamChannel<Pipe, MarkerCipher> =
        StreamChannel::new("svc", "peer", Medium::WifiLan, Pipe::new());
    let keep_alive = for_keep_alive();
    assert_eq!(peer.write(&keep_alive), Exception::Success);
    assert_eq!(peer.write(&for_bwu_last_write()), Exception::Success);

    let mut enc = StreamChannel::new("svc", "enc", Medium::WifiLan, peer.into_stream());
    enc.enable_encryption(MarkerCipher);
    // A keep-alive is let through though it cannot be decrypted.
    assert_eq!(enc.read().unwrap(), keep_alive);
    // Any other frame in the clear is rejected.
    assert_eq!(enc.read(), Err(Exception::InvalidProtocolBuffer));
}

#[test]
fn frame_has_a_length_before_its_payload() {
    let mut ch = channel("framing");
    assert_eq!(ch.write(&[7; 300]), Exception::Success);
    let mut pipe = ch.into_stream();
    let mut bytes = [0u8; 304];
    assert_eq!(pipe.read_exact(&mut bytes), Ok(()));
    assert_eq!(&bytes[..4], &[0, 0, 1, 44]);
    assert_eq!(&bytes[4..], &[7; 300][..]);
}

#[test]
fn length_beyond_the_limit_is_rejected() {
    for header in [[0x80, 0, 0, 0], [0xff, 0xff, 0xff, 0xff]] {
        let mut pipe = Pipe::new();
        assert_eq!(pipe.write_all(&header), Ok(()));
        let mut ch: StreamChannel<Pipe, MarkerCipher> =
            StreamChannel::new("svc", "long", Medium::WifiLan, pipe);
        assert_eq!(ch.read(), Err(Exception::Io));
    }
}

#[test]
fn frame_that_is_cut_off_is_an_error() {
    let mut pipe = Pipe::new();
    assert_eq!(pipe.write_all(&[0, 0, 0, 5, 1, 2]), Ok(()));
    pipe.close();
    let mut ch: StreamChannel<Pipe, MarkerCipher> =
        StreamChannel::new("svc", "cut", Medium::WifiLan, pipe);
    assert_eq!(ch.read(), Err(Exception::Io));
}

#[test]
fn frames_are_read_in_order() {
    let mut ch = channel("order");
    assert_eq!(ch.write(b"one"), Exception::Success);
    assert_eq!(ch.write(b"two"), Exception::Success);
    assert_eq!(ch.read().unwrap(), b"one");
    assert_eq!(ch.read().unwrap(), b"two");
}

#[test]
fn what_is_there_can_be_read_after_close() {
    let mut ch = channel("drain");
    assert_eq!(ch.write(b"last"), Exception::Success);
    ch.close_with_reason(DisconnectionReason::Upgraded);
    assert_eq!(ch.write(b"more"), Exception::Io);
    assert_eq!(ch.read().unwrap(), b"last");
    assert_eq!(ch.read(), Err(Exception::Io));
}

#[test]
fn empty_plaintext_is_an_error_when_encrypted() {
    let mut ch = channel("empty");
    ch.enable_encryption(MarkerCipher);
    assert_eq!(ch.write(b""), Exception::Success);
    assert_eq!(ch.read(), Err(Exception::InvalidProtocolBuffer));
}

#[test]
fn write_that_cannot_be_encrypted_fails() {
    let mut ch = StreamChannel::new("svc", "broken", Medium::WifiLan, Pipe::new());
    ch.enable_encryption(BrokenCipher);
    assert_eq!(ch.write(b"x"), Exception::Io);
    ch.disable_encryption();
    assert!(!ch.is_encrypted());
    assert_eq!(ch.write(b"x"), Exception::Success);
}

#[test]
fn payload_that_does_not_parse_gives_its_reason() {
    assert_eq!(open_payload(vec![0xff], None), Err(Exception::InvalidProtocolBuffer));
    assert_eq!(open_payload(vec![0xff], Some(vec![1])), Ok(vec![1]));
    assert_eq!(open_payload(for_keep_alive(), None), Ok(for_keep_alive()));
}

#[test]
fn channel_type_names_the_medium() {
    let mut ch = channel("type");
    assert_eq!(ch.channel_type(), "WifiLan");
    ch.enable_encryption(MarkerCipher);
    assert_eq!(ch.channel_type(), "ENCRYPTED_WifiLan");
    assert_eq!(ch.medium(), Medium::WifiLan);
    assert_eq!(ch.service_id(), "svc");
    assert_eq!(ch.name(), "type");
}

#[test]
fn pause_holds_until_resume_or_close() {
    let mut ch = channel("pause");
    ch.pause();
    assert!(ch.is_paused());
    ch.resume();
    assert!(!ch.is_paused());
    ch.pause();
    ch.close();
    assert!(!ch.is_paused());
    ch.set_local_endpoint_id("Me");
    assert_eq!(ch.local_endpoint_id(), "Me");
}

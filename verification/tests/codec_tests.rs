//! Round-trip, tamper-detection and pass-through behaviour of the codec,
//! checked with the real keyed hash.

use hmac::{Hmac, Mac};
use jute_kernel::codec::{constant_time_eq, decode, encode, Frame, WireMessage};
use jute_kernel::errors::Error;
use sha2::Sha256;

fn sample_message() -> WireMessage {
    WireMessage {
        header: b"{\"msg_id\":\"a-1\",\"msg_type\":\"execute_request\"}".to_vec(),
        parent_header: b"{}".to_vec(),
        metadata: b"{}".to_vec(),
        content: b"{\"code\":\"1+1\"}".to_vec(),
        buffers: vec![vec![0u8, 1, 2, 255], vec![]],
    }
}

fn expect_err(r: Result<WireMessage, Error>, expected: Error) {
    match r {
        Err(e) => assert_eq!(e, expected),
        Ok(_) => panic!("expected {:?}", expected),
    }
}

fn assert_messages_equal(a: &WireMessage, b: &WireMessage) {
    assert_eq!(a.header, b.header);
    assert_eq!(a.parent_header, b.parent_header);
    assert_eq!(a.metadata, b.metadata);
    assert_eq!(a.content, b.content);
    assert_eq!(a.buffers, b.buffers);
}

#[test]
fn round_trip_with_key() {
    let key = b"secret-signing-key".to_vec();
    let m = sample_message();
    let f = encode(&m, &key);
    assert_eq!(f.segments.len(), 7);
    let back = decode(&f, &key).expect("well-signed frame must decode");
    assert_messages_equal(&m, &back);
}

#[test]
fn round_trip_without_key() {
    let key = Vec::new();
    let m = sample_message();
    let f = encode(&m, &key);
    assert_eq!(f.segments[0], Vec::<u8>::new());
    let back = decode(&f, &key).expect("unkeyed frame must decode");
    assert_messages_equal(&m, &back);
}

#[test]
fn digest_matches_hmac_sha256_of_payload() {
    let key = b"another-key".to_vec();
    let m = sample_message();
    let f = encode(&m, &key);
    let mut payload = Vec::new();
    payload.extend_from_slice(&m.header);
    payload.extend_from_slice(&m.parent_header);
    payload.extend_from_slice(&m.metadata);
    payload.extend_from_slice(&m.content);
    let mut mac = <Hmac<Sha256> as Mac>::new_from_slice(&key).unwrap();
    mac.update(&payload);
    let expected = mac.finalize().into_bytes().to_vec();
    assert_eq!(f.segments[0], expected);
    assert_eq!(f.segments[0].len(), 32);
}

#[test]
fn tampered_digest_rejected() {
    let key = b"secret".to_vec();
    let m = sample_message();
    for bit in 0..8 {
        let mut f = encode(&m, &key);
        f.segments[0][5] ^= 1 << bit;
        expect_err(decode(&f, &key), Error::SignatureMismatch);
    }
}

#[test]
fn tampered_structured_segments_rejected() {
    let key = b"secret".to_vec();
    let m = sample_message();
    for seg in 1..5 {
        for bit in 0..8 {
            let mut f = encode(&m, &key);
            f.segments[seg][0] ^= 1 << bit;
            expect_err(decode(&f, &key), Error::SignatureMismatch);
        }
    }
}

#[test]
fn tampered_buffers_still_decode() {
    // Buffers are never part of the digest.
    let key = b"secret".to_vec();
    let m = sample_message();
    let mut f = encode(&m, &key);
    f.segments[5][0] ^= 0x80;
    assert!(decode(&f, &key).is_ok());
}

#[test]
fn no_key_pass_through_ignores_digest() {
    let key = b"secret".to_vec();
    let no_key = Vec::new();
    let m = sample_message();
    let mut f = encode(&m, &key);
    f.segments[0][0] ^= 0xff;
    let back = decode(&f, &no_key).expect("no key: any digest must pass");
    assert_eq!(back.header, m.header);
}

#[test]
fn malformed_frame_too_few_segments() {
    let key = b"secret".to_vec();
    let f = Frame {
        segments: vec![vec![], b"{}".to_vec(), b"{}".to_vec(), b"{}".to_vec()],
    };
    expect_err(decode(&f, &key), Error::MalformedFrame);
    let empty = Frame { segments: Vec::new() };
    expect_err(decode(&empty, &key), Error::MalformedFrame);
}

#[test]
fn constant_time_comparison_is_exact() {
    assert!(constant_time_eq(&vec![], &vec![]));
    assert!(constant_time_eq(&vec![1, 2, 3], &vec![1, 2, 3]));
    assert!(!constant_time_eq(&vec![1, 2, 3], &vec![1, 2, 4]));
    assert!(!constant_time_eq(&vec![1, 2, 3], &vec![1, 2]));
    assert!(!constant_time_eq(&vec![0x80, 0], &vec![0, 0x80]));
}

#[test]
fn error_messages_are_stable() {
    assert_eq!(Error::SignatureMismatch.message(), "signature mismatch");
    assert_eq!(Error::MalformedFrame.message(), "malformed frame");
    assert_eq!(Error::ChannelClosed.message(), "channel closed");
    assert_eq!(
        Error::KernelConnect.message(),
        "could not connect to the kernel"
    );
    assert_eq!(
        Error::KernelDisconnect.message(),
        "disconnected from the kernel"
    );
    assert_eq!(
        Error::AlreadyConnected.message(),
        "already connected to a kernel"
    );
    assert_eq!(
        Error::TransportUnavailable.message(),
        "transport endpoint unavailable"
    );
    assert_eq!(Error::Cancelled.message(), "request cancelled");
}

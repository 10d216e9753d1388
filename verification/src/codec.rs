//! Wire framing for one logical kernel message.
//!
//! A message travels as an ordered sequence of byte segments: a signature
//! digest, then the four structured segments (header, parent header,
//! metadata, content), then zero or more opaque binary buffers. The digest
//! is a keyed hash over the concatenation of the four structured segments;
//! with an empty signing key, signing is a no-op and verification always
//! succeeds. The codec is agnostic to what the structured segments contain:
//! deserialization into typed content happens above it.

use vstd::prelude::*;

use hmac::{Hmac, Mac};
use sha2::Sha256;

use crate::errors::Error;

verus! {

/// One logical message, as the codec sees it: four structured byte
/// segments plus any number of opaque binary buffers.
pub struct WireMessage {
    /// Serialized header segment.
    pub header: Vec<u8>,
    /// Serialized parent-header segment; empty object for unsolicited events.
    pub parent_header: Vec<u8>,
    /// Serialized metadata segment.
    pub metadata: Vec<u8>,
    /// Serialized content segment.
    pub content: Vec<u8>,
    /// Raw binary buffers, appended unmodified and never signed.
    pub buffers: Vec<Vec<u8>>,
}

/// The mathematical model of a [`WireMessage`]: the same five parts as
/// sequences of bytes.
#[verifier::ext_equal]
pub struct WireMessageView {
    /// Header bytes.
    pub header: Seq<u8>,
    /// Parent-header bytes.
    pub parent_header: Seq<u8>,
    /// Metadata bytes.
    pub metadata: Seq<u8>,
    /// Content bytes.
    pub content: Seq<u8>,
    /// Raw buffers.
    pub buffers: Seq<Seq<u8>>,
}

impl View for WireMessage {
    type V = WireMessageView;

    open spec fn view(&self) -> WireMessageView {
        WireMessageView {
            header: self.header@,
            parent_header: self.parent_header@,
            metadata: self.metadata@,
            content: self.content@,
            buffers: self.buffers@.map_values(|b: Vec<u8>| b@),
        }
    }
}

/// The wire representation of one message: its ordered byte segments.
/// Segment 0 is the digest, segments 1 to 4 the structured parts, and
/// anything after that the raw buffers.
pub struct Frame {
    /// The ordered segments of the frame.
    pub segments: Vec<Vec<u8>>,
}

impl View for Frame {
    type V = Seq<Seq<u8>>;

    open spec fn view(&self) -> Seq<Seq<u8>> {
        self.segments@.map_values(|s: Vec<u8>| s@)
    }
}

impl WireMessage {
    /// An exact, field-for-field copy of this message.
    pub fn duplicate(&self) -> (r: WireMessage)
        ensures
            r@ == self@,
    {
        let mut buffers: Vec<Vec<u8>> = Vec::new();
        let mut k: usize = 0;
        while k < self.buffers.len()
            invariant
                k <= self.buffers@.len(),
                buffers@.map_values(|b: Vec<u8>| b@) =~= self@.buffers.take(k as int),
            decreases self.buffers@.len() - k,
        {
            let elem = self.buffers[k].clone();
            proof {
                assert(elem@ =~= self.buffers@[k as int]@);
            }
            let ghost prev = buffers@;
            buffers.push(elem);
            proof {
                assert(buffers@ == prev.push(elem));
                assert(prev.map_values(|b: Vec<u8>| b@).len() == prev.len());
                assert(prev.map_values(|b: Vec<u8>| b@).len() == self@.buffers.take(
                    k as int,
                ).len());
                assert(self@.buffers.len() == self.buffers@.len());
                assert(prev.len() == k);
                assert(buffers@.len() == k + 1);
                assert forall|i: int| 0 <= i <= k implies (#[trigger] buffers@[i])@
                    == self@.buffers.take(k + 1)[i] by {
                    if i < k {
                        assert(buffers@[i] == prev[i]);
                        assert(prev.map_values(|b: Vec<u8>| b@)[i] == self@.buffers.take(
                            k as int,
                        )[i]);
                        assert(prev.map_values(|b: Vec<u8>| b@)[i] == prev[i]@);
                    } else {
                        assert(buffers@[i] == elem);
                        assert(self@.buffers.take(k + 1)[i] == self@.buffers[i]);
                        assert(self@.buffers[i] == self.buffers@[i]@);
                    }
                }
                assert(buffers@.map_values(|b: Vec<u8>| b@) =~= self@.buffers.take(k + 1));
            }
            k = k + 1;
        }
        let r = WireMessage {
            header: self.header.clone(),
            parent_header: self.parent_header.clone(),
            metadata: self.metadata.clone(),
            content: self.content.clone(),
            buffers,
        };
        proof {
            assert(self@.buffers.take(self.buffers@.len() as int) =~= self@.buffers);
            assert(r@ =~~= self@);
        }
        r
    }
}

/// The keyed authentication tag that HMAC-SHA-256 computes for `data`
/// under `key`. It depends on the key and the data alone.
pub uninterp spec fn digest_of(key: Seq<u8>, data: Seq<u8>) -> Seq<u8>;

/// Relies on `hmac::Hmac<sha2::Sha256>`: `new_from_slice` accepts a key of
/// any length, and the finalized tag is 32 bytes, a function of key and
/// data alone.
#[verifier::external_body]
fn hmac_sha256(key: &[u8], data: &[u8]) -> (r: Vec<u8>)
    ensures
        r@ == digest_of(key@, data@),
        r@.len() == 32,
{
    let mut mac = <Hmac<Sha256> as Mac>::new_from_slice(key)
        .expect("HMAC accepts keys of any length");
    mac.update(data);
    mac.finalize().into_bytes().to_vec()
}

/// The bytes the digest is computed over: the four structured segments of
/// the message, concatenated in wire order. Buffers are never signed.
pub open spec fn signed_payload(m: WireMessageView) -> Seq<u8> {
    m.header + m.parent_header + m.metadata + m.content
}

/// The digest segment a well-signed frame carries: empty when no key is
/// configured, the keyed tag of the signed payload otherwise.
pub open spec fn spec_digest(m: WireMessageView, key: Seq<u8>) -> Seq<u8> {
    if key.len() == 0 {
        Seq::empty()
    } else {
        digest_of(key, signed_payload(m))
    }
}

/// What encoding a message under a key puts on the wire.
pub open spec fn spec_encode(m: WireMessageView, key: Seq<u8>) -> Seq<Seq<u8>> {
    seq![spec_digest(m, key), m.header, m.parent_header, m.metadata, m.content] + m.buffers
}

/// The concatenation the verifier must re-hash for a received frame.
pub open spec fn payload_of(f: Seq<Seq<u8>>) -> Seq<u8>
    recommends
        f.len() >= 5,
{
    f[1] + f[2] + f[3] + f[4]
}

/// The message a structurally complete frame carries.
pub open spec fn message_of(f: Seq<Seq<u8>>) -> WireMessageView
    recommends
        f.len() >= 5,
{
    WireMessageView {
        header: f[1],
        parent_header: f[2],
        metadata: f[3],
        content: f[4],
        buffers: f.skip(5),
    }
}

/// Whether a frame's digest segment passes verification under `key`:
/// with no key configured every frame passes; otherwise segment 0 must
/// equal the recomputed tag.
pub open spec fn spec_digest_ok(f: Seq<Seq<u8>>, key: Seq<u8>) -> bool
    recommends
        f.len() >= 5,
{
    key.len() == 0 || f[0] == digest_of(key, payload_of(f))
}

/// What decoding a frame under a key yields: the carried message, or the
/// exact error. A frame with fewer than the digest plus four structured
/// segments is malformed; one whose digest disagrees with the recomputed
/// tag (when a key is configured) is rejected as unauthentic.
pub open spec fn spec_decode(f: Seq<Seq<u8>>, key: Seq<u8>) -> Result<WireMessageView, Error> {
    if f.len() < 5 {
        Err(Error::MalformedFrame)
    } else if !spec_digest_ok(f, key) {
        Err(Error::SignatureMismatch)
    } else {
        Ok(message_of(f))
    }
}

/// Appends `src` to `dst`.
fn append_bytes(dst: &mut Vec<u8>, src: &Vec<u8>)
    ensures
        final(dst)@ == old(dst)@ + src@,
{
    dst.extend_from_slice(src.as_slice());
    proof {
        assert(final(dst)@ =~= old(dst)@ + src@);
    }
}

/// Concatenates the four structured segments of `m` in wire order.
fn build_payload(m: &WireMessage) -> (r: Vec<u8>)
    ensures
        r@ == signed_payload(m@),
{
    let mut out: Vec<u8> = Vec::new();
    append_bytes(&mut out, &m.header);
    append_bytes(&mut out, &m.parent_header);
    append_bytes(&mut out, &m.metadata);
    append_bytes(&mut out, &m.content);
    proof {
        assert(out@ =~= signed_payload(m@));
    }
    out
}

/// Compares two byte strings in time that depends on their lengths alone,
/// never on where they first differ, so that digest verification leaks
/// nothing about secret material through timing.
pub fn constant_time_eq(a: &Vec<u8>, b: &Vec<u8>) -> (r: bool)
    ensures
        r == (a@ == b@),
{
    if a.len() != b.len() {
        proof {
            assert(a@ != b@);
        }
        return false;
    }
    let mut acc: u8 = 0;
    let mut i: usize = 0;
    while i < a.len()
        invariant
            a@.len() == b@.len(),
            i <= a@.len(),
            (acc == 0) <==> (forall|j: int| 0 <= j < i ==> a@[j] == b@[j]),
        decreases a@.len() - i,
    {
        let d = a[i] ^ b[i];
        proof {
            let x = acc;
            let y = d;
            assert(((x | y) == 0) == (x == 0 && y == 0)) by (bit_vector);
            let av = a@[i as int];
            let bv = b@[i as int];
            assert(((av ^ bv) == 0) == (av == bv)) by (bit_vector);
        }
        acc = acc | d;
        i = i + 1;
    }
    proof {
        if acc == 0 {
            assert(a@ =~= b@);
        } else {
            assert(a@[choose|j: int| 0 <= j < a@.len() && a@[j] != b@[j]]
                != b@[choose|j: int| 0 <= j < a@.len() && a@[j] != b@[j]]);
        }
    }
    acc == 0
}

/// Encodes a message under a signing key: computes the digest over the
/// four structured segments, prepends it, and appends the raw buffers
/// unmodified.
pub fn encode(m: &WireMessage, key: &Vec<u8>) -> (f: Frame)
    ensures
        f@ == spec_encode(m@, key@),
{
    let digest: Vec<u8> = if key.len() == 0 {
        Vec::new()
    } else {
        let payload = build_payload(m);
        hmac_sha256(key.as_slice(), payload.as_slice())
    };
    let mut segments: Vec<Vec<u8>> = Vec::new();
    segments.push(digest);
    segments.push(m.header.clone());
    segments.push(m.parent_header.clone());
    segments.push(m.metadata.clone());
    segments.push(m.content.clone());
    let mut k: usize = 0;
    while k < m.buffers.len()
        invariant
            k <= m.buffers@.len(),
            segments@.len() == 5 + k,
            segments@.map_values(|s: Vec<u8>| s@) =~= spec_encode(m@, key@).take(5 + k),
        decreases m.buffers@.len() - k,
    {
        segments.push(m.buffers[k].clone());
        k = k + 1;
    }
    let f = Frame { segments };
    proof {
        assert(f@ =~= spec_encode(m@, key@));
    }
    f
}

/// Decodes a frame under a signing key. Fails with `MalformedFrame` when
/// fewer than five segments (digest plus four structured parts) are
/// present, and with `SignatureMismatch` when a key is configured and the
/// carried digest disagrees with the recomputed one; otherwise returns the
/// carried message, buffers preserved as opaque byte strings.
pub fn decode(f: &Frame, key: &Vec<u8>) -> (r: Result<WireMessage, Error>)
    ensures
        match r {
            Ok(m) => spec_decode(f@, key@) == Ok::<WireMessageView, Error>(m@),
            Err(e) => spec_decode(f@, key@) == Err::<WireMessageView, Error>(e),
        },
{
    if f.segments.len() < 5 {
        return Err(Error::MalformedFrame);
    }
    if key.len() > 0 {
        let payload = {
            let mut p: Vec<u8> = Vec::new();
            append_bytes(&mut p, &f.segments[1]);
            append_bytes(&mut p, &f.segments[2]);
            append_bytes(&mut p, &f.segments[3]);
            append_bytes(&mut p, &f.segments[4]);
            p
        };
        proof {
            assert(payload@ =~= payload_of(f@));
        }
        let expected = hmac_sha256(key.as_slice(), payload.as_slice());
        if !constant_time_eq(&f.segments[0], &expected) {
            return Err(Error::SignatureMismatch);
        }
    }
    let mut buffers: Vec<Vec<u8>> = Vec::new();
    let mut k: usize = 5;
    while k < f.segments.len()
        invariant
            5 <= k <= f.segments@.len(),
            f@.len() == f.segments@.len(),
            buffers@.len() == k - 5,
            buffers@.map_values(|b: Vec<u8>| b@) =~= f@.skip(5).take(k - 5),
        decreases f.segments@.len() - k,
    {
        buffers.push(f.segments[k].clone());
        k = k + 1;
    }
    let m = WireMessage {
        header: f.segments[1].clone(),
        parent_header: f.segments[2].clone(),
        metadata: f.segments[3].clone(),
        content: f.segments[4].clone(),
        buffers,
    };
    proof {
        assert(m@ =~= message_of(f@));
    }
    Ok(m)
}

/// Round-trip: a message encoded under any key decodes, under the same
/// key, back to exactly that message.
pub proof fn lemma_round_trip(m: WireMessageView, key: Seq<u8>)
    ensures
        spec_decode(spec_encode(m, key), key) == Ok::<WireMessageView, Error>(m),
{
    let f = spec_encode(m, key);
    assert(payload_of(f) =~= signed_payload(m));
    assert(message_of(f).buffers =~= m.buffers);
    assert(message_of(f) =~= m);
}

/// No-key pass-through: with an empty signing key, every structurally
/// complete frame decodes successfully, whatever its digest segment holds.
pub proof fn lemma_no_key_pass_through(f: Seq<Seq<u8>>, key: Seq<u8>)
    requires
        key.len() == 0,
        f.len() >= 5,
    ensures
        spec_decode(f, key) == Ok::<WireMessageView, Error>(message_of(f)),
{
}

/// Tamper detection, digest side: when a key is configured, any frame
/// whose digest segment differs from the recomputed tag of its structured
/// segments — in particular an encoded frame whose digest had any bit
/// flipped — is rejected as `SignatureMismatch`, never decoded.
pub proof fn lemma_tampered_digest_rejected(f: Seq<Seq<u8>>, key: Seq<u8>)
    requires
        key.len() > 0,
        f.len() >= 5,
        f[0] != digest_of(key, payload_of(f)),
    ensures
        spec_decode(f, key) == Err::<WireMessageView, Error>(Error::SignatureMismatch),
{
}

/// Tamper detection, segment side: when a key is configured, a frame that
/// still carries the digest of the original message but whose structured
/// segments hash to a different tag is rejected as `SignatureMismatch`.
/// That a bit flip in a segment changes the tag is collision resistance of
/// the keyed hash, a property of the outside primitive that no proof here
/// can supply; it is assumed exactly where this lemma requires the two
/// tags to differ.
pub proof fn lemma_tampered_segments_rejected(m: WireMessageView, key: Seq<u8>, f: Seq<Seq<u8>>)
    requires
        key.len() > 0,
        f.len() >= 5,
        f[0] == spec_digest(m, key),
        digest_of(key, payload_of(f)) != digest_of(key, signed_payload(m)),
    ensures
        spec_decode(f, key) == Err::<WireMessageView, Error>(Error::SignatureMismatch),
{
}

} // verus!

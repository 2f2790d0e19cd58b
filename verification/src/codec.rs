//! The wire codec of the patch relay.
//!
//! A binary frame carries one self-describing domain message: a one- or
//! two-entry map from short field or variant names to values, with byte
//! payloads in the binary form, integers in their shortest form, and an
//! absent optional field as nil. The grammar is canonical: every message has
//! exactly one encoding, and the decoders accept exactly those encodings.

use vstd::prelude::*;

use crate::messages::{
    FromAttendeeV, FromConductorV, MessageFromAttendee, MessageFromConductor, MessageToClient,
    ToClientV,
};

verus! {

/// Two big-endian bytes of a length below 65536.
pub open spec fn be16(n: int) -> Seq<u8> {
    seq![((n / 256) % 256) as u8, (n % 256) as u8]
}

/// Four big-endian bytes of a length below 4294967296.
pub open spec fn be32(n: int) -> Seq<u8> {
    seq![
        ((n / 16777216) % 256) as u8,
        ((n / 65536) % 256) as u8,
        ((n / 256) % 256) as u8,
        (n % 256) as u8,
    ]
}

/// A byte payload: marker, shortest length form, then the bytes verbatim.
pub open spec fn bin_enc(b: Seq<u8>) -> Seq<u8> {
    if b.len() < 256 {
        seq![0xc4u8, b.len() as u8] + b
    } else if b.len() < 65536 {
        seq![0xc5u8] + be16(b.len() as int) + b
    } else {
        seq![0xc6u8] + be32(b.len() as int) + b
    }
}

/// A small unsigned integer in its shortest form.
pub open spec fn uint_enc(n: u8) -> Seq<u8> {
    if n < 128 {
        seq![n]
    } else {
        seq![0xccu8, n]
    }
}

/// The encoded field name of a presence beacon.
pub open spec fn key_presence() -> Seq<u8> {
    seq![0xa8u8, 0x70u8, 0x72u8, 0x65u8, 0x73u8, 0x65u8, 0x6eu8, 0x63u8, 0x65u8]
}

/// The encoded field name of a document blob.
pub open spec fn key_blob() -> Seq<u8> {
    seq![0xa4u8, 0x62u8, 0x6cu8, 0x6fu8, 0x62u8]
}

/// The encoded field name of a patch.
pub open spec fn key_patch() -> Seq<u8> {
    seq![0xa5u8, 0x70u8, 0x61u8, 0x74u8, 0x63u8, 0x68u8]
}

/// The encoding of an outbound message: a one-entry map from the variant
/// name to its payload.
pub open spec fn enc_to_client(m: ToClientV) -> Seq<u8> {
    match m {
        ToClientV::Presence(n) => seq![0x81u8] + key_presence() + uint_enc(n),
        ToClientV::Blob(b) => seq![0x81u8] + key_blob() + bin_enc(b),
        ToClientV::Patch(p) => seq![0x81u8] + key_patch() + bin_enc(p),
    }
}

/// The encoding of a conductor message: a two-entry map carrying the blob
/// and the optional patch, in that order.
pub open spec fn enc_from_conductor(m: FromConductorV) -> Seq<u8> {
    seq![0x82u8] + key_blob() + bin_enc(m.blob) + key_patch() + (match m.patch {
        Some(p) => bin_enc(p),
        None => seq![0xc0u8],
    })
}

/// The encoding of an attendee message: a one-entry map carrying the patch.
pub open spec fn enc_from_attendee(m: FromAttendeeV) -> Seq<u8> {
    seq![0x81u8] + key_patch() + bin_enc(m.patch)
}

/// Whether a payload is small enough for the wire's length forms.
pub open spec fn fits_wire(b: Seq<u8>) -> bool {
    b.len() < 0x100000000
}

/// Append the binary form of `b`.
fn push_bin(out: &mut Vec<u8>, b: &[u8])
    requires
        fits_wire(b@),
    ensures
        final(out)@ == old(out)@ + bin_enc(b@),
{
    let ghost o0 = out@;
    let n = b.len();
    if n < 256 {
        out.push(0xc4);
        out.push(n as u8);
    } else if n < 65536 {
        out.push(0xc5);
        out.push((n / 256) as u8);
        out.push((n % 256) as u8);
    } else {
        out.push(0xc6);
        out.push(((n / 16777216) % 256) as u8);
        out.push(((n / 65536) % 256) as u8);
        out.push(((n / 256) % 256) as u8);
        out.push((n % 256) as u8);
    }
    let mut i: usize = 0;
    while i < b.len()
        invariant
            i <= b@.len(),
            out@ == o0 + (if b@.len() < 256 {
                seq![0xc4u8, b@.len() as u8]
            } else if b@.len() < 65536 {
                seq![0xc5u8] + be16(b@.len() as int)
            } else {
                seq![0xc6u8] + be32(b@.len() as int)
            }) + b@.take(i as int),
        decreases b@.len() - i,
    {
        let ghost prev = out@;
        out.push(b[i]);
        proof {
            assert(prev.push(b@[i as int]) =~= prev + seq![b@[i as int]]);
            assert(b@.take(i as int) + seq![b@[i as int]] =~= b@.take(i as int + 1));
            assert((prev + seq![b@[i as int]]).subrange(o0.len() as int, prev.len() as int + 1)
                =~= prev.subrange(o0.len() as int, prev.len() as int) + seq![b@[i as int]]);
        }
        i += 1;
    }
    proof {
        assert(b@.take(b@.len() as int) =~= b@);
        assert(o0 + (if b@.len() < 256 {
            seq![0xc4u8, b@.len() as u8]
        } else if b@.len() < 65536 {
            seq![0xc5u8] + be16(b@.len() as int)
        } else {
            seq![0xc6u8] + be32(b@.len() as int)
        }) + b@ =~= o0 + bin_enc(b@));
    }
}

/// Append the shortest form of `n`.
fn push_uint(out: &mut Vec<u8>, n: u8)
    ensures
        final(out)@ == old(out)@ + uint_enc(n),
{
    let ghost o0 = out@;
    if n < 128 {
        out.push(n);
        proof {
            assert(out@ =~= o0 + uint_enc(n));
        }
    } else {
        out.push(0xcc);
        out.push(n);
        proof {
            assert(out@ =~= o0 + uint_enc(n));
        }
    }
}

/// Encode one outbound message.
pub fn encode_to_client(m: &MessageToClient) -> (r: Vec<u8>)
    requires
        match m@ {
            ToClientV::Presence(_) => true,
            ToClientV::Blob(b) => fits_wire(b),
            ToClientV::Patch(p) => fits_wire(p),
        },
    ensures
        r@ == enc_to_client(m@),
{
    let mut out: Vec<u8> = Vec::new();
    out.push(0x81);
    match m {
        MessageToClient::Presence(n) => {
            out.push(0xa8);
            out.push(0x70);
            out.push(0x72);
            out.push(0x65);
            out.push(0x73);
            out.push(0x65);
            out.push(0x6e);
            out.push(0x63);
            out.push(0x65);
            proof {
                assert(out@ =~= seq![0x81u8] + key_presence());
            }
            push_uint(&mut out, *n);
            proof {
                assert(out@ =~= enc_to_client(m@));
            }
        },
        MessageToClient::Blob(b) => {
            out.push(0xa4);
            out.push(0x62);
            out.push(0x6c);
            out.push(0x6f);
            out.push(0x62);
            proof {
                assert(out@ =~= seq![0x81u8] + key_blob());
            }
            push_bin(&mut out, b.as_slice());
            proof {
                assert(out@ =~= enc_to_client(m@));
            }
        },
        MessageToClient::Patch(p) => {
            out.push(0xa5);
            out.push(0x70);
            out.push(0x61);
            out.push(0x74);
            out.push(0x63);
            out.push(0x68);
            proof {
                assert(out@ =~= seq![0x81u8] + key_patch());
            }
            push_bin(&mut out, p.as_slice());
            proof {
                assert(out@ =~= enc_to_client(m@));
            }
        },
    }
    out
}

/// Encode one conductor message.
pub fn encode_from_conductor(m: &MessageFromConductor) -> (r: Vec<u8>)
    requires
        fits_wire(m.blob@),
        match m.patch {
            Some(p) => fits_wire(p@),
            None => true,
        },
    ensures
        r@ == enc_from_conductor(m@),
{
    let mut out: Vec<u8> = Vec::new();
    out.push(0x82);
    out.push(0xa4);
    out.push(0x62);
    out.push(0x6c);
    out.push(0x6f);
    out.push(0x62);
    proof {
        assert(out@ =~= seq![0x82u8] + key_blob());
    }
    push_bin(&mut out, m.blob.as_slice());
    let ghost mid = out@;
    out.push(0xa5);
    out.push(0x70);
    out.push(0x61);
    out.push(0x74);
    out.push(0x63);
    out.push(0x68);
    proof {
        assert(out@ =~= mid + key_patch());
    }
    match &m.patch {
        Some(p) => {
            push_bin(&mut out, p.as_slice());
        },
        None => {
            out.push(0xc0);
        },
    }
    proof {
        assert(out@ =~= enc_from_conductor(m@));
    }
    out
}

/// Encode one attendee message.
pub fn encode_from_attendee(m: &MessageFromAttendee) -> (r: Vec<u8>)
    requires
        fits_wire(m.patch@),
    ensures
        r@ == enc_from_attendee(m@),
{
    let mut out: Vec<u8> = Vec::new();
    out.push(0x81);
    out.push(0xa5);
    out.push(0x70);
    out.push(0x61);
    out.push(0x74);
    out.push(0x63);
    out.push(0x68);
    proof {
        assert(out@ =~= seq![0x81u8] + key_patch());
    }
    push_bin(&mut out, m.patch.as_slice());
    proof {
        assert(out@ =~= enc_from_attendee(m@));
    }
    out
}

/// Parse a binary payload at `i`: the payload and the index just past it.
/// Only the shortest length form is accepted, so every payload has exactly
/// one parse.
pub open spec fn bin_dec_at(s: Seq<u8>, i: int) -> Option<(Seq<u8>, int)> {
    if i < s.len() && s[i] == 0xc4 {
        if s.len() - i >= 2 && s.len() - i - 2 >= s[i + 1] as int {
            Some((s.subrange(i + 2, i + 2 + s[i + 1] as int), i + 2 + s[i + 1] as int))
        } else {
            None
        }
    } else if i < s.len() && s[i] == 0xc5 {
        if s.len() - i >= 3 {
            let n = s[i + 1] as int * 256 + s[i + 2] as int;
            if n >= 256 && s.len() - i - 3 >= n {
                Some((s.subrange(i + 3, i + 3 + n), i + 3 + n))
            } else {
                None
            }
        } else {
            None
        }
    } else if i < s.len() && s[i] == 0xc6 {
        if s.len() - i >= 5 {
            let n = s[i + 1] as int * 16777216 + s[i + 2] as int * 65536 + s[i + 3] as int * 256
                + s[i + 4] as int;
            if n >= 65536 && s.len() - i - 5 >= n {
                Some((s.subrange(i + 5, i + 5 + n), i + 5 + n))
            } else {
                None
            }
        } else {
            None
        }
    } else {
        None
    }
}

/// Parse a small unsigned integer at `i`, in its shortest form only.
pub open spec fn uint_dec_at(s: Seq<u8>, i: int) -> Option<(u8, int)> {
    if i < s.len() && s[i] < 128 {
        Some((s[i], i + 1))
    } else if i < s.len() && s[i] == 0xcc && s.len() - i >= 2 && s[i + 1] >= 128 {
        Some((s[i + 1], i + 2))
    } else {
        None
    }
}

/// Parse one attendee message: exactly a one-entry map carrying the patch.
pub open spec fn dec_from_attendee(s: Seq<u8>) -> Option<FromAttendeeV> {
    if s.len() >= 7 && s.subrange(0, 7) == seq![0x81u8] + key_patch() {
        match bin_dec_at(s, 7) {
            Some((p, j)) => if j == s.len() {
                Some(FromAttendeeV { patch: p })
            } else {
                None
            },
            None => None,
        }
    } else {
        None
    }
}

/// Parse one conductor message: exactly a two-entry map carrying the blob
/// and the optional patch.
pub open spec fn dec_from_conductor(s: Seq<u8>) -> Option<FromConductorV> {
    if s.len() >= 6 && s.subrange(0, 6) == seq![0x82u8] + key_blob() {
        match bin_dec_at(s, 6) {
            Some((blob, j)) => if s.len() - j >= 6 && s.subrange(j, j + 6) == key_patch() {
                let k = j + 6;
                if k < s.len() && s[k] == 0xc0 {
                    if k + 1 == s.len() {
                        Some(FromConductorV { blob, patch: None })
                    } else {
                        None
                    }
                } else {
                    match bin_dec_at(s, k) {
                        Some((p, e)) => if e == s.len() {
                            Some(FromConductorV { blob, patch: Some(p) })
                        } else {
                            None
                        },
                        None => None,
                    }
                }
            } else {
                None
            },
            None => None,
        }
    } else {
        None
    }
}

/// Parse one outbound message; clients use this, and it closes the codec's
/// round trip.
pub open spec fn dec_to_client(s: Seq<u8>) -> Option<ToClientV> {
    if s.len() >= 10 && s.subrange(0, 10) == seq![0x81u8] + key_presence() {
        match uint_dec_at(s, 10) {
            Some((n, j)) => if j == s.len() {
                Some(ToClientV::Presence(n))
            } else {
                None
            },
            None => None,
        }
    } else if s.len() >= 6 && s.subrange(0, 6) == seq![0x81u8] + key_blob() {
        match bin_dec_at(s, 6) {
            Some((b, j)) => if j == s.len() {
                Some(ToClientV::Blob(b))
            } else {
                None
            },
            None => None,
        }
    } else if s.len() >= 7 && s.subrange(0, 7) == seq![0x81u8] + key_patch() {
        match bin_dec_at(s, 7) {
            Some((p, j)) => if j == s.len() {
                Some(ToClientV::Patch(p))
            } else {
                None
            },
            None => None,
        }
    } else {
        None
    }
}

/// The four big-endian digits of a length rebuild it.
proof fn lemma_be32_reconstruct(n: u32)
    ensures
        (n as int / 16777216 % 256) * 16777216 + (n as int / 65536 % 256) * 65536 + (n as int / 256
            % 256) * 256 + (n as int % 256) == n as int,
{
    assert(n / 16777216u32 % 256 * 16777216 + n / 65536 % 256 * 65536 + n / 256 % 256 * 256 + n
        % 256 == n) by (bit_vector);
}

/// A binary payload parses back out of any byte string that embeds its
/// encoding: the parse finds exactly the payload and stops exactly past it.
proof fn lemma_bin_dec_of_enc(pre: Seq<u8>, b: Seq<u8>, post: Seq<u8>)
    requires
        fits_wire(b),
    ensures
        bin_dec_at(pre + bin_enc(b) + post, pre.len() as int) == Some((
            b,
            pre.len() + bin_enc(b).len() as int,
        )),
{
    let s = pre + bin_enc(b) + post;
    let i = pre.len() as int;
    let e = bin_enc(b);
    assert forall|k: int| 0 <= k < e.len() implies s[i + k] == e[k] by {
        assert(s[i + k] == (pre + bin_enc(b))[i + k] || s[i + k] == post[i + k - (pre
            + bin_enc(b)).len()]);
    }
    if b.len() < 256 {
        assert(s[i] == 0xc4 && s[i + 1] == b.len() as u8);
        assert(s[i + 1] as int == b.len());
        assert(s.subrange(i + 2, i + 2 + b.len() as int) =~= b);
    } else if b.len() < 65536 {
        assert(s[i] == 0xc5);
        assert(s[i + 1] as int == b.len() as int / 256 % 256);
        assert(s[i + 2] as int == b.len() as int % 256);
        assert(b.len() as int / 256 % 256 == b.len() as int / 256);
        assert(s[i + 1] as int * 256 + s[i + 2] as int == b.len() as int);
        assert(s.subrange(i + 3, i + 3 + b.len() as int) =~= b);
    } else {
        assert(s[i] == 0xc6);
        lemma_be32_reconstruct(b.len() as u32);
        assert(b.len() as u32 as int == b.len() as int);
        assert(s[i + 1] as int * 16777216 + s[i + 2] as int * 65536 + s[i + 3] as int * 256 + s[i
            + 4] as int == b.len() as int);
        assert(s.subrange(i + 5, i + 5 + b.len() as int) =~= b);
    }
}

/// Round trip: every attendee message decodes back from its encoding.
pub proof fn lemma_attendee_round_trip(m: FromAttendeeV)
    requires
        fits_wire(m.patch),
    ensures
        dec_from_attendee(enc_from_attendee(m)) == Some(m),
{
    let s = enc_from_attendee(m);
    let pre = seq![0x81u8] + key_patch();
    assert(s =~= pre + bin_enc(m.patch) + Seq::<u8>::empty());
    lemma_bin_dec_of_enc(pre, m.patch, Seq::<u8>::empty());
    assert(s.subrange(0, 7) =~= pre);
}

/// Round trip: every conductor message decodes back from its encoding.
pub proof fn lemma_conductor_round_trip(m: FromConductorV)
    requires
        fits_wire(m.blob),
        match m.patch {
            Some(p) => fits_wire(p),
            None => true,
        },
    ensures
        dec_from_conductor(enc_from_conductor(m)) == Some(m),
{
    let s = enc_from_conductor(m);
    let pre = seq![0x82u8] + key_blob();
    let tail = key_patch() + (match m.patch {
        Some(p) => bin_enc(p),
        None => seq![0xc0u8],
    });
    assert(s =~= pre + bin_enc(m.blob) + tail);
    lemma_bin_dec_of_enc(pre, m.blob, tail);
    assert(s.subrange(0, 6) =~= pre);
    let j = pre.len() + bin_enc(m.blob).len();
    assert(s.subrange(j as int, j as int + 6) =~= key_patch());
    let k = j as int + 6;
    match m.patch {
        Some(p) => {
            let pre2 = pre + bin_enc(m.blob) + key_patch();
            assert(s =~= pre2 + bin_enc(p) + Seq::<u8>::empty());
            lemma_bin_dec_of_enc(pre2, p, Seq::<u8>::empty());
            assert(s[k] == bin_enc(p)[0]);
            assert(s[k] != 0xc0);
        },
        None => {
            assert(s[k] == 0xc0);
            assert(k + 1 == s.len());
        },
    }
}

/// Round trip: every outbound message decodes back from its encoding.
pub proof fn lemma_to_client_round_trip(m: ToClientV)
    requires
        match m {
            ToClientV::Presence(_) => true,
            ToClientV::Blob(b) => fits_wire(b),
            ToClientV::Patch(p) => fits_wire(p),
        },
    ensures
        dec_to_client(enc_to_client(m)) == Some(m),
{
    let s = enc_to_client(m);
    match m {
        ToClientV::Presence(n) => {
            let pre = seq![0x81u8] + key_presence();
            assert(s =~= pre + uint_enc(n));
            assert(s.subrange(0, 10) =~= pre);
            if n < 128 {
                assert(s[10] == n);
                assert(uint_dec_at(s, 10) == Some((n, 11int)));
                assert(11 == s.len());
            } else {
                assert(s[10] == 0xcc && s[11] == n);
                assert(uint_dec_at(s, 10) == Some((n, 12int)));
                assert(12 == s.len());
            }
        },
        ToClientV::Blob(b) => {
            let pre = seq![0x81u8] + key_blob();
            assert(s =~= pre + bin_enc(b) + Seq::<u8>::empty());
            lemma_bin_dec_of_enc(pre, b, Seq::<u8>::empty());
            assert(s.subrange(0, 6) =~= pre);
            assert(s[1] == 0xa4);
            if s.len() >= 10 {
                assert((seq![0x81u8] + key_presence())[1] == 0xa8);
                assert(s.subrange(0, 10) != seq![0x81u8] + key_presence()) by {
                    assert(s.subrange(0, 10)[1] == 0xa4);
                }
            }
        },
        ToClientV::Patch(p) => {
            let pre = seq![0x81u8] + key_patch();
            assert(s =~= pre + bin_enc(p) + Seq::<u8>::empty());
            lemma_bin_dec_of_enc(pre, p, Seq::<u8>::empty());
            assert(s.subrange(0, 7) =~= pre);
            assert(s[1] == 0xa5);
            if s.len() >= 10 {
                assert(s.subrange(0, 10) != seq![0x81u8] + key_presence()) by {
                    assert(s.subrange(0, 10)[1] == 0xa5);
                    assert((seq![0x81u8] + key_presence())[1] == 0xa8);
                }
            }
            assert(s.subrange(0, 6) != seq![0x81u8] + key_blob()) by {
                assert(s.subrange(0, 6)[1] == 0xa5);
                assert((seq![0x81u8] + key_blob())[1] == 0xa4);
            }
        },
    }
}

/// The digits of a four-byte length are recovered by division.
proof fn lemma_be32_digits(d0: u32, d1: u32, d2: u32, d3: u32)
    requires
        d0 < 256,
        d1 < 256,
        d2 < 256,
        d3 < 256,
    ensures
        (d0 * 16777216 + d1 * 65536 + d2 * 256 + d3) / 16777216 % 256 == d0,
        (d0 * 16777216 + d1 * 65536 + d2 * 256 + d3) / 65536 % 256 == d1,
        (d0 * 16777216 + d1 * 65536 + d2 * 256 + d3) / 256 % 256 == d2,
        (d0 * 16777216 + d1 * 65536 + d2 * 256 + d3) % 256 == d3,
{
    assert(d0 < 256 && d1 < 256 && d2 < 256 && d3 < 256 ==> (d0 * 16777216 + d1 * 65536 + d2
        * 256 + d3) / 16777216 % 256 == d0 && (d0 * 16777216 + d1 * 65536 + d2 * 256 + d3) / 65536
        % 256 == d1 && (d0 * 16777216 + d1 * 65536 + d2 * 256 + d3) / 256 % 256 == d2 && (d0
        * 16777216 + d1 * 65536 + d2 * 256 + d3) % 256 == d3) by (bit_vector);
}

/// A successful payload parse pins the bytes: what was consumed is exactly
/// the canonical encoding of the payload.
proof fn lemma_bin_dec_exact(s: Seq<u8>, i: int, p: Seq<u8>, j: int)
    requires
        0 <= i,
        bin_dec_at(s, i) == Some((p, j)),
    ensures
        fits_wire(p),
        j == i + bin_enc(p).len(),
        j <= s.len(),
        s.subrange(i, j) == bin_enc(p),
{
    if s[i] == 0xc4 {
        let n = s[i + 1] as int;
        assert(p == s.subrange(i + 2, i + 2 + n) && j == i + 2 + n);
        assert(p.len() == n < 256);
        assert(p.len() as u8 as int == s[i + 1] as int);
        assert(s.subrange(i, j) =~= seq![0xc4u8, p.len() as u8] + p) by {
            assert forall|k: int| 0 <= k < j - i implies s.subrange(i, j)[k] == (seq![
                0xc4u8,
                p.len() as u8,
            ] + p)[k] by {
                if k >= 2 {
                    assert(p[k - 2] == s[i + k]);
                }
            }
        }
    } else if s[i] == 0xc5 {
        let n = s[i + 1] as int * 256 + s[i + 2] as int;
        assert(p == s.subrange(i + 3, i + 3 + n) && j == i + 3 + n);
        assert(256 <= p.len() == n < 65536);
        assert(n / 256 % 256 == s[i + 1] as int && n % 256 == s[i + 2] as int);
        assert(s.subrange(i, j) =~= seq![0xc5u8] + be16(n) + p) by {
            assert forall|k: int| 0 <= k < j - i implies s.subrange(i, j)[k] == (seq![0xc5u8]
                + be16(n) + p)[k] by {
                if k >= 3 {
                    assert(p[k - 3] == s[i + k]);
                }
            }
        }
    } else {
        assert(s[i] == 0xc6);
        let n = s[i + 1] as int * 16777216 + s[i + 2] as int * 65536 + s[i + 3] as int * 256 + s[i
            + 4] as int;
        assert(p == s.subrange(i + 5, i + 5 + n) && j == i + 5 + n);
        assert(65536 <= p.len() == n < 0x100000000);
        lemma_be32_digits(s[i + 1] as u32, s[i + 2] as u32, s[i + 3] as u32, s[i + 4] as u32);
        assert(n / 16777216 % 256 == s[i + 1] as int && n / 65536 % 256 == s[i + 2] as int && n
            / 256 % 256 == s[i + 3] as int && n % 256 == s[i + 4] as int);
        assert(s.subrange(i, j) =~= seq![0xc6u8] + be32(n) + p) by {
            assert forall|k: int| 0 <= k < j - i implies s.subrange(i, j)[k] == (seq![0xc6u8]
                + be32(n) + p)[k] by {
                if k >= 5 {
                    assert(p[k - 5] == s[i + k]);
                }
            }
        }
    }
}

/// Exactness: a byte string an attendee message decodes from is that
/// message's one canonical encoding.
pub proof fn lemma_attendee_decode_exact(s: Seq<u8>, m: FromAttendeeV)
    requires
        dec_from_attendee(s) == Some(m),
    ensures
        fits_wire(m.patch),
        s == enc_from_attendee(m),
{
    assert(bin_dec_at(s, 7) == Some((m.patch, s.len() as int)));
    lemma_bin_dec_exact(s, 7, m.patch, s.len() as int);
    assert(s =~= s.subrange(0, 7) + s.subrange(7, s.len() as int));
    assert(s =~= enc_from_attendee(m));
}

/// Exactness for conductor messages.
pub proof fn lemma_conductor_decode_exact(s: Seq<u8>, m: FromConductorV)
    requires
        dec_from_conductor(s) == Some(m),
    ensures
        fits_wire(m.blob),
        match m.patch {
            Some(p) => fits_wire(p),
            None => true,
        },
        s == enc_from_conductor(m),
{
    let (blob, j) = choose|blob: Seq<u8>, j: int| bin_dec_at(s, 6) == Some((blob, j));
    assert(bin_dec_at(s, 6) == Some((blob, j)));
    assert(blob == m.blob);
    lemma_bin_dec_exact(s, 6, m.blob, j);
    let k = j + 6;
    assert(s.subrange(j, k) == key_patch());
    match m.patch {
        None => {
            assert(k < s.len() && s[k] == 0xc0 && k + 1 == s.len());
            assert(s.subrange(k, s.len() as int) =~= seq![0xc0u8]);
            assert(s =~= s.subrange(0, 6) + s.subrange(6, j) + s.subrange(j, k) + s.subrange(
                k,
                s.len() as int,
            ));
            assert(s =~= enc_from_conductor(m));
        },
        Some(p) => {
            assert(bin_dec_at(s, k) == Some((p, s.len() as int)));
            lemma_bin_dec_exact(s, k, p, s.len() as int);
            assert(s =~= s.subrange(0, 6) + s.subrange(6, j) + s.subrange(j, k) + s.subrange(
                k,
                s.len() as int,
            ));
            assert(s =~= enc_from_conductor(m));
        },
    }
}

/// Exactness for outbound messages.
pub proof fn lemma_to_client_decode_exact(s: Seq<u8>, m: ToClientV)
    requires
        dec_to_client(s) == Some(m),
    ensures
        match m {
            ToClientV::Presence(_) => true,
            ToClientV::Blob(b) => fits_wire(b),
            ToClientV::Patch(p) => fits_wire(p),
        },
        s == enc_to_client(m),
{
    match m {
        ToClientV::Presence(n) => {
            assert(s.len() >= 10 && s.subrange(0, 10) == seq![0x81u8] + key_presence());
            if s[10] < 128 {
                assert(uint_dec_at(s, 10) == Some((s[10], 11int)));
                assert(n == s[10] && s.len() == 11);
                assert(s =~= s.subrange(0, 10) + seq![n]);
                assert(s =~= enc_to_client(m));
            } else {
                assert(s[10] == 0xcc && s[11] >= 128);
                assert(uint_dec_at(s, 10) == Some((s[11], 12int)));
                assert(n == s[11] && s.len() == 12);
                assert(s =~= s.subrange(0, 10) + seq![0xccu8, n]);
                assert(s =~= enc_to_client(m));
            }
        },
        ToClientV::Blob(b) => {
            assert(s.len() >= 6 && s.subrange(0, 6) == seq![0x81u8] + key_blob());
            assert(bin_dec_at(s, 6) == Some((b, s.len() as int)));
            lemma_bin_dec_exact(s, 6, b, s.len() as int);
            assert(s =~= s.subrange(0, 6) + s.subrange(6, s.len() as int));
            assert(s =~= enc_to_client(m));
        },
        ToClientV::Patch(p) => {
            assert(s.len() >= 7 && s.subrange(0, 7) == seq![0x81u8] + key_patch());
            assert(bin_dec_at(s, 7) == Some((p, s.len() as int)));
            lemma_bin_dec_exact(s, 7, p, s.len() as int);
            assert(s =~= s.subrange(0, 7) + s.subrange(7, s.len() as int));
            assert(s =~= enc_to_client(m));
        },
    }
}

/// View of an optionally decoded attendee message.
pub open spec fn opt_att_view(r: Option<MessageFromAttendee>) -> Option<FromAttendeeV> {
    match r {
        Some(m) => Some(m@),
        None => None,
    }
}

/// View of an optionally decoded conductor message.
pub open spec fn opt_cond_view(r: Option<MessageFromConductor>) -> Option<FromConductorV> {
    match r {
        Some(m) => Some(m@),
        None => None,
    }
}

/// View of an optionally decoded outbound message.
pub open spec fn opt_client_view(r: Option<MessageToClient>) -> Option<ToClientV> {
    match r {
        Some(m) => Some(m@),
        None => None,
    }
}

/// Whether `buf` starts with `pat`.
fn prefix_matches(buf: &[u8], pat: &[u8]) -> (r: bool)
    ensures
        r == (buf@.len() >= pat@.len() && buf@.subrange(0, pat@.len() as int) == pat@),
{
    if buf.len() < pat.len() {
        return false;
    }
    let n = pat.len();
    let mut i: usize = 0;
    while i < n
        invariant
            i <= n,
            n == pat@.len() <= buf@.len(),
            forall|j: int| 0 <= j < i ==> buf@[j] == pat@[j],
        decreases n - i,
    {
        if buf[i] != pat[i] {
            proof {
                assert(buf@.subrange(0, pat@.len() as int)[i as int] == buf@[i as int]);
            }
            return false;
        }
        i += 1;
    }
    proof {
        assert(buf@.subrange(0, pat@.len() as int) =~= pat@);
    }
    true
}

/// Parse a binary payload at `i`, per `bin_dec_at`.
fn parse_bin(buf: &[u8], i: usize) -> (r: Option<(Vec<u8>, usize)>)
    requires
        i <= buf@.len(),
    ensures
        match r {
            Some(pj) => bin_dec_at(buf@, i as int) == Some((pj.0@, pj.1 as int)) && i <= pj.1
                <= buf@.len(),
            None => bin_dec_at(buf@, i as int) is None,
        },
{
    if i >= buf.len() {
        return None;
    }
    let marker = buf[i];
    if marker == 0xc4 {
        if buf.len() - i < 2 {
            return None;
        }
        let n = buf[i + 1] as usize;
        if buf.len() - i - 2 < n {
            return None;
        }
        let j = i + 2 + n;
        let payload = vstd::slice::slice_to_vec(vstd::slice::slice_subrange(buf, i + 2, j));
        Some((payload, j))
    } else if marker == 0xc5 {
        if buf.len() - i < 3 {
            return None;
        }
        let n = buf[i + 1] as usize * 256 + buf[i + 2] as usize;
        if n < 256 || buf.len() - i - 3 < n {
            return None;
        }
        let j = i + 3 + n;
        let payload = vstd::slice::slice_to_vec(vstd::slice::slice_subrange(buf, i + 3, j));
        Some((payload, j))
    } else if marker == 0xc6 {
        if buf.len() - i < 5 {
            return None;
        }
        let n64 = buf[i + 1] as u64 * 16777216 + buf[i + 2] as u64 * 65536 + buf[i + 3] as u64
            * 256 + buf[i + 4] as u64;
        if n64 < 65536 || ((buf.len() - i - 5) as u64) < n64 {
            return None;
        }
        let n = n64 as usize;
        let j = i + 5 + n;
        let payload = vstd::slice::slice_to_vec(vstd::slice::slice_subrange(buf, i + 5, j));
        Some((payload, j))
    } else {
        None
    }
}

/// Parse a small unsigned integer at `i`, per `uint_dec_at`.
fn parse_uint(buf: &[u8], i: usize) -> (r: Option<(u8, usize)>)
    requires
        i <= buf@.len(),
    ensures
        match r {
            Some(nj) => uint_dec_at(buf@, i as int) == Some((nj.0, nj.1 as int)) && i <= nj.1
                <= buf@.len(),
            None => uint_dec_at(buf@, i as int) is None,
        },
{
    if i >= buf.len() {
        return None;
    }
    let b = buf[i];
    if b < 128 {
        Some((b, i + 1))
    } else if b == 0xcc {
        if buf.len() - i < 2 {
            return None;
        }
        let v = buf[i + 1];
        if v < 128 {
            return None;
        }
        Some((v, i + 2))
    } else {
        None
    }
}

/// Decode one attendee message; accepts exactly the canonical encodings.
pub fn decode_from_attendee(buf: &[u8]) -> (r: Option<MessageFromAttendee>)
    ensures
        opt_att_view(r) == dec_from_attendee(buf@),
{
    let pre: Vec<u8> = vec![0x81u8, 0xa5, 0x70, 0x61, 0x74, 0x63, 0x68];
    proof {
        assert(pre@ =~= seq![0x81u8] + key_patch());
    }
    if !prefix_matches(buf, pre.as_slice()) {
        return None;
    }
    match parse_bin(buf, 7) {
        Some((p, j)) => {
            if j == buf.len() {
                Some(MessageFromAttendee { patch: p })
            } else {
                None
            }
        },
        None => None,
    }
}

/// Decode one conductor message; accepts exactly the canonical encodings.
pub fn decode_from_conductor(buf: &[u8]) -> (r: Option<MessageFromConductor>)
    ensures
        opt_cond_view(r) == dec_from_conductor(buf@),
{
    let pre: Vec<u8> = vec![0x82u8, 0xa4, 0x62, 0x6c, 0x6f, 0x62];
    proof {
        assert(pre@ =~= seq![0x82u8] + key_blob());
    }
    if !prefix_matches(buf, pre.as_slice()) {
        return None;
    }
    match parse_bin(buf, 6) {
        Some((blob, j)) => {
            if buf.len() - j < 6 {
                return None;
            }
            let pk: Vec<u8> = vec![0xa5u8, 0x70, 0x61, 0x74, 0x63, 0x68];
            proof {
                assert(pk@ =~= key_patch());
            }
            let tail = vstd::slice::slice_subrange(buf, j, buf.len());
            if !prefix_matches(tail, pk.as_slice()) {
                proof {
                    assert(tail@.subrange(0, 6) =~= buf@.subrange(j as int, j as int + 6));
                }
                return None;
            }
            proof {
                assert(tail@.subrange(0, 6) =~= buf@.subrange(j as int, j as int + 6));
            }
            let k = j + 6;
            if k < buf.len() && buf[k] == 0xc0 {
                if buf.len() - k == 1 {
                    Some(MessageFromConductor { blob, patch: None })
                } else {
                    None
                }
            } else {
                match parse_bin(buf, k) {
                    Some((p, e)) => {
                        if e == buf.len() {
                            Some(MessageFromConductor { blob, patch: Some(p) })
                        } else {
                            None
                        }
                    },
                    None => None,
                }
            }
        },
        None => None,
    }
}

/// Decode one outbound message; accepts exactly the canonical encodings.
pub fn decode_to_client(buf: &[u8]) -> (r: Option<MessageToClient>)
    ensures
        opt_client_view(r) == dec_to_client(buf@),
{
    let pre_presence: Vec<u8> = vec![0x81u8, 0xa8, 0x70, 0x72, 0x65, 0x73, 0x65, 0x6e, 0x63, 0x65];
    let pre_blob: Vec<u8> = vec![0x81u8, 0xa4, 0x62, 0x6c, 0x6f, 0x62];
    let pre_patch: Vec<u8> = vec![0x81u8, 0xa5, 0x70, 0x61, 0x74, 0x63, 0x68];
    proof {
        assert(pre_presence@ =~= seq![0x81u8] + key_presence());
        assert(pre_blob@ =~= seq![0x81u8] + key_blob());
        assert(pre_patch@ =~= seq![0x81u8] + key_patch());
    }
    if prefix_matches(buf, pre_presence.as_slice()) {
        match parse_uint(buf, 10) {
            Some((n, j)) => {
                if j == buf.len() {
                    Some(MessageToClient::Presence(n))
                } else {
                    None
                }
            },
            None => None,
        }
    } else if prefix_matches(buf, pre_blob.as_slice()) {
        match parse_bin(buf, 6) {
            Some((b, j)) => {
                if j == buf.len() {
                    Some(MessageToClient::Blob(b))
                } else {
                    None
                }
            },
            None => None,
        }
    } else if prefix_matches(buf, pre_patch.as_slice()) {
        match parse_bin(buf, 7) {
            Some((p, j)) => {
                if j == buf.len() {
                    Some(MessageToClient::Patch(p))
                } else {
                    None
                }
            },
            None => None,
        }
    } else {
        None
    }
}

} // verus!

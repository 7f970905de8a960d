//! The big-request encoder.
//!
//! Every request starts with an opcode byte, a detail byte, and a 16-bit
//! length field counting 4-byte words. A request longer than 65535 words
//! cannot carry its length there: it is reframed with a zero length field
//! (the big-request marker) followed by a 32-bit extended length of
//! word-count plus one, the extra word paying for the four inserted bytes.

use vstd::prelude::*;

use crate::errors::ConnectionError;
use crate::iov::{self, total_len};

verus! {

/// The value of a 16-bit little-endian field.
pub open spec fn le16(b0: u8, b1: u8) -> int {
    b0 + 256 * b1
}

/// The value of a 32-bit little-endian field.
pub open spec fn le32(b0: u8, b1: u8, b2: u8, b3: u8) -> int {
    b0 + 0x100 * b1 + 0x1_0000 * b2 + 0x100_0000 * b3
}

/// The four little-endian bytes of a 32-bit value.
pub open spec fn le32_bytes(n: int) -> Seq<u8> {
    seq![
        (n % 0x100) as u8,
        ((n / 0x100) % 0x100) as u8,
        ((n / 0x1_0000) % 0x100) as u8,
        ((n / 0x100_0000) % 0x100) as u8,
    ]
}

/// A well-formed serialized request: at least one buffer, a first buffer
/// long enough to hold the four header bytes, a total length that is whole
/// words, and — whenever the word count fits 16 bits — a length field that
/// already carries exactly that count.
pub open spec fn wf_request(bufs: Seq<Seq<u8>>) -> bool {
    &&& bufs.len() >= 1
    &&& bufs[0].len() >= 4
    &&& total_len(bufs) % 4 == 0
    &&& (total_len(bufs) / 4 <= 0xffff ==> le16(bufs[0][2], bufs[0][3]) == total_len(bufs) / 4)
}

/// The reframed buffer list of a request of `w` words: the first four header
/// bytes are replaced by opcode, detail, a zero length field and the 32-bit
/// extended length `w + 1`; everything after them is unchanged.
pub open spec fn big_request_encode(bufs: Seq<Seq<u8>>) -> Seq<Seq<u8>>
    recommends
        wf_request(bufs),
{
    seq![
        seq![bufs[0][0], bufs[0][1], 0u8, 0u8] + le32_bytes(total_len(bufs) / 4 + 1),
        bufs[0].skip(4),
    ] + bufs.drop_first()
}

/// A request as a decoder sees it on the wire.
pub struct DecodedRequest {
    /// The opcode byte.
    pub opcode: u8,
    /// The detail byte.
    pub detail: u8,
    /// The request's length in 4-byte words, not counting the extended
    /// length word of a big request.
    pub words: int,
    /// Everything after the length encoding.
    pub payload: Seq<u8>,
}

/// Decode the header of a serialized request: a zero 16-bit length field is
/// the big-request marker and shifts the length to the following 32-bit
/// field, which counts one extra word for itself.
pub open spec fn spec_decode(bytes: Seq<u8>) -> DecodedRequest
    recommends
        bytes.len() >= 4,
{
    if le16(bytes[2], bytes[3]) == 0 {
        DecodedRequest {
            opcode: bytes[0],
            detail: bytes[1],
            words: le32(bytes[4], bytes[5], bytes[6], bytes[7]) - 1,
            payload: bytes.skip(8),
        }
    } else {
        DecodedRequest {
            opcode: bytes[0],
            detail: bytes[1],
            words: le16(bytes[2], bytes[3]),
            payload: bytes.skip(4),
        }
    }
}

/// Compute the wire length encoding of a request, reframing it as a big
/// request when its word count does not fit the 16-bit length field. Fails
/// exactly when a reframed request would still exceed the negotiated
/// maximum request length.
pub fn compute_length_field(bufs: Vec<Vec<u8>>, max_request_bytes: usize) -> (r: Result<
    Vec<Vec<u8>>,
    ConnectionError,
>)
    requires
        wf_request(bufs.deep_view()),
        total_len(bufs.deep_view()) <= usize::MAX,
        total_len(bufs.deep_view()) / 4 + 1 <= u32::MAX,
    ensures
        match r {
            Ok(out) => {
                &&& (total_len(bufs.deep_view()) / 4 <= 0xffff ==> out.deep_view()
                    == bufs.deep_view())
                &&& (total_len(bufs.deep_view()) / 4 > 0xffff ==> {
                    &&& total_len(bufs.deep_view()) <= max_request_bytes
                    &&& out.deep_view() == big_request_encode(bufs.deep_view())
                })
                &&& total_len(out.deep_view()) == total_len(bufs.deep_view()) + (
                if total_len(bufs.deep_view()) / 4 > 0xffff {
                    4int
                } else {
                    0int
                })
            },
            Err(e) => {
                &&& e == ConnectionError::MaximumRequestLengthExceeded
                &&& total_len(bufs.deep_view()) / 4 > 0xffff
                &&& total_len(bufs.deep_view()) > max_request_bytes
            },
        },
{
    let ghost orig = bufs.deep_view();
    let ghost origv = bufs@;
    proof {
        iov::lemma_total_len_nonneg(orig);
        iov::lemma_deep_view_elems(bufs);
    }
    let length = iov::buffers_total_len(&bufs);
    let words = length / 4;

    if words <= 0xffff {
        return Ok(bufs);
    }

    // The request needs big-request framing; make sure it is allowed at all.
    if length > max_request_bytes {
        return Err(ConnectionError::MaximumRequestLengthExceeded);
    }

    // One extra word pays for the four extended-length bytes.
    let wire_length: u32 = (words + 1) as u32;

    let mut bufs = bufs;
    let first = bufs.remove(0);

    let mut head: Vec<u8> = Vec::new();
    head.push(first[0]);
    head.push(first[1]);
    head.push(0);
    head.push(0);
    head.push((wire_length % 0x100) as u8);
    head.push(((wire_length / 0x100) % 0x100) as u8);
    head.push(((wire_length / 0x1_0000) % 0x100) as u8);
    head.push(((wire_length / 0x100_0000) % 0x100) as u8);
    proof {
        assert(head@ =~= seq![orig[0][0], orig[0][1], 0u8, 0u8] + le32_bytes(
            total_len(orig) / 4 + 1,
        ));
    }

    // The remaining part of the first buffer of the request.
    let mut tail: Vec<u8> = Vec::new();
    let mut i: usize = 4;
    while i < first.len()
        invariant
            4 <= i <= first@.len(),
            tail@ == first@.subrange(4, i as int),
        decreases first@.len() - i,
    {
        tail.push(first[i]);
        proof {
            assert(tail@ =~= first@.subrange(4, i + 1));
        }
        i = i + 1;
    }
    proof {
        assert(tail@ =~= first@.skip(4));
    }

    let mut out: Vec<Vec<u8>> = Vec::new();
    out.push(head);
    out.push(tail);
    let mut rest = bufs;
    let ghost restv = rest@;
    out.append(&mut rest);
    proof {
        iov::lemma_deep_view_elems(out);
        assert(out.deep_view() =~~= big_request_encode(orig)) by {
            assert(first@ == orig[0]);
            assert forall|j: int| 0 <= j < out@.len() implies out.deep_view()[j]
                =~= big_request_encode(orig)[j] by {
                if j >= 2 {
                    assert(out@[j] == restv[j - 2]);
                    assert(restv[j - 2] == origv[j - 1]);
                    assert(out.deep_view()[j] == orig[j - 1]);
                }
            }
        }
        lemma_big_encode_len(orig);
    }
    Ok(out)
}

/// Reframing adds exactly the four extended-length bytes.
pub proof fn lemma_big_encode_len(bufs: Seq<Seq<u8>>)
    requires
        wf_request(bufs),
    ensures
        total_len(big_request_encode(bufs)) == total_len(bufs) + 4,
{
    let enc = big_request_encode(bufs);
    let d = bufs.drop_first();
    assert(enc.drop_first() =~= seq![bufs[0].skip(4)] + d);
    assert((seq![bufs[0].skip(4)] + d).drop_first() =~= d);
    assert(total_len(enc) == enc.first().len() + total_len(enc.drop_first()));
    assert(total_len(enc.drop_first()) == bufs[0].skip(4).len() + total_len(d));
    assert(total_len(bufs) == bufs.first().len() + total_len(d));
}

/// Law: reframing a too-long request writes a zero 16-bit length field and a
/// correct 32-bit extended length of word-count plus one, and decoding the
/// reframed wire bytes recovers the original opcode, detail byte, word count
/// and payload.
pub proof fn lemma_big_request_round_trip(bufs: Seq<Seq<u8>>)
    requires
        wf_request(bufs),
        total_len(bufs) / 4 > 0xffff,
        total_len(bufs) / 4 + 1 <= u32::MAX,
    ensures
        ({
            let enc = big_request_encode(bufs).flatten();
            let dec = spec_decode(enc);
            &&& le16(enc[2], enc[3]) == 0
            &&& le32(enc[4], enc[5], enc[6], enc[7]) == total_len(bufs) / 4 + 1
            &&& enc.len() == total_len(bufs) + 4
            &&& dec.opcode == bufs[0][0]
            &&& dec.detail == bufs[0][1]
            &&& dec.words == total_len(bufs) / 4
            &&& dec.payload == bufs.flatten().skip(4)
        }),
{
    let w = total_len(bufs) / 4 + 1;
    lemma_le32_roundtrip(w);
    let head = seq![bufs[0][0], bufs[0][1], 0u8, 0u8] + le32_bytes(w);
    let enc_bufs = big_request_encode(bufs);
    vstd::seq_lib::lemma_flatten_concat(
        seq![head, bufs[0].skip(4)],
        bufs.drop_first(),
    );
    assert(seq![head, bufs[0].skip(4)].flatten() =~= head + bufs[0].skip(4)) by {
        seq![bufs[0].skip(4)].lemma_flatten_one_element();
        seq![head, bufs[0].skip(4)].lemma_flatten_one_element();
        assert(seq![head, bufs[0].skip(4)].drop_first() =~= seq![bufs[0].skip(4)]);
    }
    let enc = enc_bufs.flatten();
    assert(enc =~= head + bufs[0].skip(4) + bufs.drop_first().flatten());
    iov::lemma_flatten_len(bufs);
    iov::lemma_flatten_len(bufs.drop_first());
    assert(bufs.flatten() =~= bufs[0] + bufs.drop_first().flatten());
    assert(enc.skip(8) =~= bufs.flatten().skip(4));
    assert(enc[2] == 0 && enc[3] == 0);
}

/// A 32-bit value is recovered from its four little-endian bytes.
pub proof fn lemma_le32_roundtrip(n: int)
    requires
        0 <= n <= u32::MAX,
    ensures
        le32(le32_bytes(n)[0], le32_bytes(n)[1], le32_bytes(n)[2], le32_bytes(n)[3]) == n,
{
    assert(le32(
        (n % 0x100) as u8,
        ((n / 0x100) % 0x100) as u8,
        ((n / 0x1_0000) % 0x100) as u8,
        ((n / 0x100_0000) % 0x100) as u8,
    ) == n) by (nonlinear_arith)
        requires
            0 <= n <= u32::MAX,
    ;
}

} // verus!

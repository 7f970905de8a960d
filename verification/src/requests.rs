//! The few fixed requests the engine sends for its own protocol machinery,
//! and the fields it reads from their replies.
//!
//! Each is a four-byte header — opcode, detail, 16-bit little-endian length
//! in words — possibly followed by padded payload bytes. The layouts are
//! fixed by the protocol; the builders' contracts give the exact bytes.

use vstd::prelude::*;

use crate::iov::total_len;
use crate::length::{le16, le32, wf_request};

verus! {

/// The opcode of the synchronizing request: minimal, reply-carrying,
/// dependency-free.
pub const GET_INPUT_FOCUS_OPCODE: u8 = 43;

/// The opcode of the extension presence query.
pub const QUERY_EXTENSION_OPCODE: u8 = 98;

/// The wire bytes of the synchronizing request.
pub open spec fn sync_request_bytes() -> Seq<u8> {
    seq![GET_INPUT_FOCUS_OPCODE, 0u8, 1u8, 0u8]
}

/// Build the synchronizing request: a single-word request whose reply the
/// dispatcher discards.
pub fn get_input_focus_request() -> (r: Vec<Vec<u8>>)
    ensures
        r.deep_view() == seq![sync_request_bytes()],
        wf_request(r.deep_view()),
        total_len(r.deep_view()) == 4,
{
    let mut buf: Vec<u8> = Vec::new();
    buf.push(GET_INPUT_FOCUS_OPCODE);
    buf.push(0);
    buf.push(1);
    buf.push(0);
    let mut r: Vec<Vec<u8>> = Vec::new();
    r.push(buf);
    proof {
        assert(r.deep_view() =~~= seq![sync_request_bytes()]);
        crate::iov::lemma_total_len_single(sync_request_bytes());
    }
    r
}

/// Build a one-word extension request: opcode, minor-opcode detail byte, and
/// a length field of one word.
pub fn plain_extension_request(major_opcode: u8, minor_opcode: u8) -> (r: Vec<Vec<u8>>)
    ensures
        r.deep_view() == seq![seq![major_opcode, minor_opcode, 1u8, 0u8]],
        wf_request(r.deep_view()),
        total_len(r.deep_view()) == 4,
{
    let mut buf: Vec<u8> = Vec::new();
    buf.push(major_opcode);
    buf.push(minor_opcode);
    buf.push(1);
    buf.push(0);
    let mut r: Vec<Vec<u8>> = Vec::new();
    r.push(buf);
    proof {
        assert(r.deep_view() =~~= seq![seq![major_opcode, minor_opcode, 1u8, 0u8]]);
        crate::iov::lemma_total_len_single(seq![major_opcode, minor_opcode, 1u8, 0u8]);
    }
    r
}

/// The bytes needed to pad `n` bytes to whole 4-byte words.
pub open spec fn pad4(n: int) -> int {
    (4 - (n % 4)) % 4
}

/// The exact wire bytes of the extension presence query for `name`: the
/// eight-byte header (opcode, detail, word count, name length, padding),
/// the name, and zero padding to whole words.
pub open spec fn query_extension_request_bytes(name: Seq<u8>) -> Seq<u8> {
    let total = 8 + name.len() + pad4(name.len() as int);
    let words = total / 4;
    seq![
        QUERY_EXTENSION_OPCODE,
        0u8,
        (words % 0x100) as u8,
        (words / 0x100) as u8,
        (name.len() % 0x100) as u8,
        ((name.len() as int) / 0x100) as u8,
        0u8,
        0u8,
    ] + name + Seq::new(pad4(name.len() as int) as nat, |i: int| 0u8)
}

/// Build the extension presence query for `name`: an eight-byte header
/// carrying the name's length, then the name, padded to whole words.
pub fn query_extension_request(name: &Vec<u8>) -> (r: Vec<Vec<u8>>)
    requires
        name@.len() <= 0xfffc,
    ensures
        wf_request(r.deep_view()),
        r.deep_view() == seq![query_extension_request_bytes(name@)],
        total_len(r.deep_view()) == 8 + name@.len() + pad4(name@.len() as int),
        le16(r.deep_view()[0][4], r.deep_view()[0][5]) == name@.len(),
        r.deep_view()[0].subrange(8, 8 + name@.len() as int) == name@,
{
    let pad = (4 - (name.len() % 4)) % 4;
    let total = 8 + name.len() + pad;
    let words = total / 4;
    proof {
        assert(total % 4 == 0);
        assert(words <= 0xffff);
    }
    let mut buf: Vec<u8> = Vec::new();
    buf.push(QUERY_EXTENSION_OPCODE);
    buf.push(0);
    buf.push((words % 0x100) as u8);
    buf.push((words / 0x100) as u8);
    buf.push((name.len() % 0x100) as u8);
    buf.push((name.len() / 0x100) as u8);
    buf.push(0);
    buf.push(0);
    let ghost header = buf@;
    proof {
        assert(header.len() == 8);
        assert(header[0] == QUERY_EXTENSION_OPCODE);
        assert(header[1] == 0);
        assert(header[2] == (words % 0x100) as u8);
        assert(header[3] == (words / 0x100) as u8);
        assert(header[4] == (name@.len() % 0x100) as u8);
        assert(header[5] == ((name@.len() as int / 0x100) as u8));
        assert(header[6] == 0);
        assert(header[7] == 0);
        assert(buf@.subrange(0, 8) =~= header);
    }
    let mut i: usize = 0;
    while i < name.len()
        invariant
            i <= name@.len(),
            buf@.len() == 8 + i,
            buf@.subrange(0, 8) == header,
            header.len() == 8,
            forall|j: int| 0 <= j < i ==> buf@[8 + j] == name@[j],
        decreases name@.len() - i,
    {
        buf.push(name[i]);
        proof {
            assert(buf@.subrange(0, 8) =~= header);
        }
        i = i + 1;
    }
    let mut p: usize = 0;
    while p < pad
        invariant
            p <= pad,
            pad < 4,
            buf@.len() == 8 + name@.len() + p,
            buf@.subrange(0, 8) == header,
            header.len() == 8,
            forall|j: int| 0 <= j < name@.len() ==> buf@[8 + j] == name@[j],
            forall|j: int| 8 + name@.len() <= j < buf@.len() ==> buf@[j] == 0,
        decreases pad - p,
    {
        buf.push(0);
        proof {
            assert(buf@.subrange(0, 8) =~= header);
        }
        p = p + 1;
    }
    let mut r: Vec<Vec<u8>> = Vec::new();
    proof {
        assert(buf@.subrange(8, 8 + name@.len() as int) =~= name@);
        assert forall|j: int| 0 <= j < 8 implies buf@[j] == header[j] by {
            assert(buf@.subrange(0, 8)[j] == buf@[j]);
        }
    }
    let ghost bv = buf@;
    r.push(buf);
    proof {
        assert(r.deep_view() =~~= seq![bv]);
        let qb = query_extension_request_bytes(name@);
        assert(qb.len() == 8 + name@.len() + pad4(name@.len() as int));
        assert(pad == pad4(name@.len() as int));
        assert forall|j: int| 0 <= j < bv.len() implies bv[j] == qb[j] by {
            if j < 8 {
                assert(bv[j] == header[j]);
            } else if j < 8 + name@.len() {
                assert(bv[j] == name@[j - 8]);
                assert(qb[j] == name@[j - 8]);
            } else {
                assert(bv[j] == 0);
                assert(qb[j] == 0);
            }
        }
        assert(bv =~= qb);
        crate::iov::lemma_total_len_single(bv);
        assert(le16(bv[2], bv[3]) == (words % 0x100) + 0x100 * (words / 0x100));
        assert((words % 0x100) + 0x100 * (words / 0x100) == words) by (nonlinear_arith)
            requires 0 <= words <= 0xffff,
        ;
        assert(le16(bv[4], bv[5]) == (name@.len() as int % 0x100) + 0x100 * (name@.len() as int
            / 0x100));
        assert((name@.len() as int % 0x100) + 0x100 * (name@.len() as int / 0x100)
            == name@.len() as int) by (nonlinear_arith)
            requires 0 <= name@.len() as int <= 0xfffc,
        ;
    }
    r
}

/// The name of the extension that lifts the 16-bit request length limit.
pub open spec fn big_requests_name_spec() -> Seq<u8> {
    seq![66u8, 73u8, 71u8, 45u8, 82u8, 69u8, 81u8, 85u8, 69u8, 83u8, 84u8, 83u8]
}

/// The name bytes of the big-requests extension, `BIG-REQUESTS`.
pub fn big_requests_name() -> (r: Vec<u8>)
    ensures
        r@ == big_requests_name_spec(),
        r@.len() == 12,
{
    let mut v: Vec<u8> = Vec::new();
    v.push(66);
    v.push(73);
    v.push(71);
    v.push(45);
    v.push(82);
    v.push(69);
    v.push(81);
    v.push(85);
    v.push(69);
    v.push(83);
    v.push(84);
    v.push(83);
    proof {
        assert(v@ =~= big_requests_name_spec());
    }
    v
}

/// The name of the extension that hands out fresh resource-id ranges.
pub open spec fn xc_misc_name_spec() -> Seq<u8> {
    seq![88u8, 67u8, 45u8, 77u8, 73u8, 83u8, 67u8]
}

/// The name bytes of the miscellaneous extension, `XC-MISC`.
pub fn xc_misc_name() -> (r: Vec<u8>)
    ensures
        r@ == xc_misc_name_spec(),
        r@.len() == 7,
{
    let mut v: Vec<u8> = Vec::new();
    v.push(88);
    v.push(67);
    v.push(45);
    v.push(77);
    v.push(73);
    v.push(83);
    v.push(67);
    proof {
        assert(v@ =~= xc_misc_name_spec());
    }
    v
}

/// Read the fields of a presence-query reply: whether the extension is
/// present, its major opcode, and its first event and error numbers. A
/// packet shorter than the protocol's fixed reply length is malformed.
pub fn parse_query_extension_reply(buf: &Vec<u8>) -> (r: Option<(bool, u8, u8, u8)>)
    ensures
        match r {
            Some(f) => {
                &&& buf@.len() >= 32
                &&& f.0 == (buf@[8] != 0)
                &&& f.1 == buf@[9]
                &&& f.2 == buf@[10]
                &&& f.3 == buf@[11]
            },
            None => buf@.len() < 32,
        },
{
    if buf.len() < 32 {
        return None;
    }
    Some((buf[8] != 0, buf[9], buf[10], buf[11]))
}

/// Read the maximum request length, in words, from the big-request enabling
/// reply.
pub fn parse_bigreq_enable_reply(buf: &Vec<u8>) -> (r: Option<u32>)
    ensures
        match r {
            Some(words) => buf@.len() >= 32 && words == le32(
                buf@[8],
                buf@[9],
                buf@[10],
                buf@[11],
            ),
            None => buf@.len() < 32,
        },
{
    if buf.len() < 32 {
        return None;
    }
    Some(read_le32(buf, 8))
}

/// Read the start and count of a fresh resource-id range from the id-range
/// reply.
pub fn parse_xid_range_reply(buf: &Vec<u8>) -> (r: Option<(u32, u32)>)
    ensures
        match r {
            Some(f) => {
                &&& buf@.len() >= 32
                &&& f.0 == le32(buf@[8], buf@[9], buf@[10], buf@[11])
                &&& f.1 == le32(buf@[12], buf@[13], buf@[14], buf@[15])
            },
            None => buf@.len() < 32,
        },
{
    if buf.len() < 32 {
        return None;
    }
    Some((read_le32(buf, 8), read_le32(buf, 12)))
}

/// Read a 32-bit little-endian field at `at`.
pub fn read_le32(buf: &Vec<u8>, at: usize) -> (r: u32)
    requires
        at + 4 <= buf@.len(),
    ensures
        r == le32(buf@[at as int], buf@[at as int + 1], buf@[at as int + 2], buf@[at as int + 3]),
{
    let l = buf.len();
    assert(at + 4 <= l);
    buf[at] as u32 + buf[at + 1] as u32 * 0x100 + buf[at + 2] as u32 * 0x1_0000 + buf[at + 3] as u32
        * 0x100_0000
}

} // verus!

//! The canonical CBOR subset (RFC 8949) used for program descriptors and
//! chat messages: unsigned integers, byte strings, text strings, booleans
//! and map headers, every head in its shortest form. Readers accept only
//! that shortest form, so each item has exactly one encoding.
use vstd::prelude::*;
use vstd::slice::{slice_subrange, slice_to_vec};
use vstd::string::*;
use vstd::utf8::*;
use crate::hashing::{push_bytes, push_u32_be, push_u64_be, u32_be, u64_be};

verus! {

/// Big-endian encoding of the low 16 bits of `v`.
pub open spec fn be16(v: u64) -> Seq<u8> {
    seq![((v / 0x100) % 256) as u8, (v % 256) as u8]
}

/// The head of a data item with major type `major` and argument `v`, in
/// its shortest form.
pub open spec fn cbor_head(major: u8, v: u64) -> Seq<u8> {
    if v < 24 {
        seq![(major * 32 + v) as u8]
    } else if v < 0x100 {
        seq![(major * 32 + 24) as u8, v as u8]
    } else if v < 0x1_0000 {
        seq![(major * 32 + 25) as u8] + be16(v)
    } else if v < 0x1_0000_0000 {
        seq![(major * 32 + 26) as u8] + u32_be(v as u32)
    } else {
        seq![(major * 32 + 27) as u8] + u64_be(v)
    }
}

/// An unsigned integer item.
pub open spec fn cbor_uint(v: u64) -> Seq<u8> {
    cbor_head(0, v)
}

/// A byte-string item.
pub open spec fn cbor_bytes(b: Seq<u8>) -> Seq<u8> {
    cbor_head(2, b.len() as u64) + b
}

/// A text-string item: the UTF-8 bytes of `t` behind their length.
pub open spec fn cbor_text(t: Seq<char>) -> Seq<u8> {
    cbor_head(3, encode_utf8(t).len() as u64) + encode_utf8(t)
}

/// A boolean item (simple value 20 or 21).
pub open spec fn cbor_bool(b: bool) -> Seq<u8> {
    cbor_head(7, if b { 21 } else { 20 })
}

/// The head of a map with `n` entries.
pub open spec fn cbor_map(n: u64) -> Seq<u8> {
    cbor_head(5, n)
}

/// `s` holds `item` starting at `pos`.
pub open spec fn prefix_at(s: Seq<u8>, pos: int, item: Seq<u8>) -> bool {
    0 <= pos && pos + item.len() <= s.len() && s.subrange(pos, pos + item.len()) == item
}

proof fn lemma_be16_value(v: u64)
    requires
        v < 0x1_0000,
    ensures
        v == be16(v)[0] as int * 0x100 + be16(v)[1] as int,
{
}

proof fn lemma_be16_of(b1: u8, b2: u8)
    ensures
        be16(((b1 as u64) * 0x100 + b2 as u64) as u64) =~= seq![b1, b2],
{
}

proof fn lemma_u32_value(v: u32)
    by (bit_vector)
    ensures
        v == ((v / 0x100_0000) % 256) * 0x100_0000 + ((v / 0x1_0000) % 256) * 0x1_0000 + ((v
            / 0x100) % 256) * 0x100 + v % 256,
{
}

proof fn lemma_u32_of(v: u32, b0: u32, b1: u32, b2: u32, b3: u32)
    by (bit_vector)
    requires
        b0 < 256,
        b1 < 256,
        b2 < 256,
        b3 < 256,
        v == b0 * 0x100_0000 + b1 * 0x1_0000 + b2 * 0x100 + b3,
    ensures
        (v / 0x100_0000) % 256 == b0,
        (v / 0x1_0000) % 256 == b1,
        (v / 0x100) % 256 == b2,
        v % 256 == b3,
{
}

/// The four bytes of `u32_be(v)` as an integer.
spec fn u32_be_value(s: Seq<u8>) -> int {
    s[0] as int * 0x100_0000 + s[1] as int * 0x1_0000 + s[2] as int * 0x100 + s[3] as int
}

proof fn lemma_u32_be_value(v: u32)
    ensures
        u32_be(v).len() == 4,
        u32_be_value(u32_be(v)) == v,
{
    lemma_u32_value(v);
}

proof fn lemma_u32_be_of(b0: u8, b1: u8, b2: u8, b3: u8) -> (v: u32)
    ensures
        v == u32_be_value(seq![b0, b1, b2, b3]),
        u32_be(v) =~= seq![b0, b1, b2, b3],
{
    let v: u32 = ((b0 as u32) * 0x100_0000 + (b1 as u32) * 0x1_0000 + (b2 as u32) * 0x100
        + b3 as u32) as u32;
    lemma_u32_of(v, b0 as u32, b1 as u32, b2 as u32, b3 as u32);
    v
}

proof fn lemma_u64_split(v: u64)
    ensures
        v == (v / 0x1_0000_0000) * 0x1_0000_0000 + v % 0x1_0000_0000,
        v / 0x1_0000_0000 < 0x1_0000_0000,
{
}

proof fn lemma_u64_join(hi: u32, lo: u32)
    ensures
        ((hi as u64) * 0x1_0000_0000 + lo as u64) / 0x1_0000_0000 == hi,
        ((hi as u64) * 0x1_0000_0000 + lo as u64) % 0x1_0000_0000 == lo,
{
}

/// Appends the head of an item.
pub fn push_head(out: &mut Vec<u8>, major: u8, v: u64)
    requires
        major < 8,
    ensures
        final(out)@ == old(out)@ + cbor_head(major, v),
{
    let m: u8 = major * 32;
    if v < 24 {
        out.push(m + v as u8);
    } else if v < 0x100 {
        out.push(m + 24);
        out.push(v as u8);
    } else if v < 0x1_0000 {
        out.push(m + 25);
        out.push(((v / 0x100) % 256) as u8);
        out.push((v % 256) as u8);
    } else if v < 0x1_0000_0000 {
        out.push(m + 26);
        push_u32_be(out, v as u32);
    } else {
        out.push(m + 27);
        push_u64_be(out, v);
    }
    assert(out@ =~= old(out)@ + cbor_head(major, v));
}

/// The first byte of a head and its length fix its major type, its class
/// and its length.
proof fn lemma_head_first_byte(major: u8, v: u64)
    requires
        major < 8,
    ensures
        cbor_head(major, v).len() >= 1,
        cbor_head(major, v)[0] / 32 == major,
        v < 24 ==> cbor_head(major, v)[0] % 32 == v && cbor_head(major, v).len() == 1,
        24 <= v < 0x100 ==> cbor_head(major, v)[0] % 32 == 24 && cbor_head(major, v).len() == 2
            && cbor_head(major, v)[1] == v,
        0x100 <= v < 0x1_0000 ==> cbor_head(major, v)[0] % 32 == 25 && cbor_head(major, v).len()
            == 3 && cbor_head(major, v)[1] as int * 0x100 + cbor_head(major, v)[2] as int == v,
        0x1_0000 <= v < 0x1_0000_0000 ==> cbor_head(major, v)[0] % 32 == 26 && cbor_head(
            major,
            v,
        ).len() == 5 && u32_be_value(cbor_head(major, v).subrange(1, 5)) == v,
        0x1_0000_0000 <= v ==> cbor_head(major, v)[0] % 32 == 27 && cbor_head(major, v).len() == 9
            && u32_be_value(cbor_head(major, v).subrange(1, 5)) * 0x1_0000_0000 + u32_be_value(
            cbor_head(major, v).subrange(5, 9),
        ) == v,
{
    let h = cbor_head(major, v);
    if v < 24 {
    } else if v < 0x100 {
    } else if v < 0x1_0000 {
        lemma_be16_value(v);
    } else if v < 0x1_0000_0000 {
        lemma_u32_be_value(v as u32);
        assert(h.subrange(1, 5) =~= u32_be(v as u32));
    } else {
        lemma_u64_split(v);
        lemma_u32_be_value((v / 0x1_0000_0000) as u32);
        lemma_u32_be_value((v % 0x1_0000_0000) as u32);
        assert(h.subrange(1, 5) =~= u32_be((v / 0x1_0000_0000) as u32));
        assert(h.subrange(5, 9) =~= u32_be((v % 0x1_0000_0000) as u32));
    }
}

/// The additional-information field of the first byte of a head for
/// argument `v`.
spec fn head_class(v: u64) -> int {
    if v < 24 {
        v as int
    } else if v < 0x100 {
        24
    } else if v < 0x1_0000 {
        25
    } else if v < 0x1_0000_0000 {
        26
    } else {
        27
    }
}

/// What a head found at `pos` tells about the bytes there.
proof fn lemma_match_class(bytes: Seq<u8>, pos: int, m2: u8, v2: u64)
    requires
        m2 < 8,
        prefix_at(bytes, pos, cbor_head(m2, v2)),
    ensures
        bytes[pos] / 32 == m2,
        bytes[pos] % 32 == head_class(v2),
        head_class(v2) < 24 ==> v2 == bytes[pos] % 32,
        head_class(v2) == 24 ==> pos + 2 <= bytes.len() && v2 == bytes[pos + 1],
        head_class(v2) == 25 ==> pos + 3 <= bytes.len() && v2 == bytes[pos + 1] as int * 0x100
            + bytes[pos + 2] as int,
        head_class(v2) == 26 ==> pos + 5 <= bytes.len() && v2 == u32_be_value(
            bytes.subrange(pos + 1, pos + 5),
        ),
        head_class(v2) == 27 ==> pos + 9 <= bytes.len() && v2 == u32_be_value(
            bytes.subrange(pos + 1, pos + 5),
        ) * 0x1_0000_0000 + u32_be_value(bytes.subrange(pos + 5, pos + 9)),
{
    lemma_head_first_byte(m2, v2);
    let h = cbor_head(m2, v2);
    assert(bytes[pos] == h[0]);
    if head_class(v2) >= 24 {
        assert(bytes[pos + 1] == h[1]);
    }
    if head_class(v2) == 25 {
        assert(bytes[pos + 2] == h[2]);
    }
    if head_class(v2) == 26 {
        assert(h.subrange(1, 5) =~= bytes.subrange(pos + 1, pos + 5));
    }
    if head_class(v2) == 27 {
        assert(h.subrange(1, 5) =~= bytes.subrange(pos + 1, pos + 5));
        assert(h.subrange(5, 9) =~= bytes.subrange(pos + 5, pos + 9));
    }
}

/// No head of any major type is found at `pos`.
pub open spec fn no_head_at(bytes: Seq<u8>, pos: int) -> bool {
    forall|m2: u8, v2: u64| m2 < 8 ==> !#[trigger] prefix_at(bytes, pos, cbor_head(m2, v2))
}

/// The head at `pos` has major type `m` and argument `v`, ends at `p`,
/// and is the only head found there.
pub open spec fn head_at(bytes: Seq<u8>, pos: int, m: u8, v: u64, p: int) -> bool {
    &&& m < 8
    &&& p == pos + cbor_head(m, v).len()
    &&& prefix_at(bytes, pos, cbor_head(m, v))
    &&& forall|m2: u8, v2: u64|
        m2 < 8 && #[trigger] prefix_at(bytes, pos, cbor_head(m2, v2)) ==> m2 == m && v2 == v
}

fn read_head_short(bytes: &[u8], pos: usize) -> (r: Option<(u8, u64, usize)>)
    requires
        pos < bytes@.len(),
        bytes@[pos as int] % 32 < 24,
    ensures
        match r {
            Some((m, v, p)) => head_at(bytes@, pos as int, m, v, p as int),
            None => no_head_at(bytes@, pos as int),
        },
{
    let b = bytes[pos];
    let major: u8 = b / 32;
    let v: u64 = (b % 32) as u64;
    proof {
        lemma_head_first_byte(major, v);
        assert(bytes@.subrange(pos as int, pos + 1) =~= cbor_head(major, v));
        assert forall|m2: u8, v2: u64| m2 < 8 && #[trigger] prefix_at(
            bytes@,
            pos as int,
            cbor_head(m2, v2),
        ) implies m2 == major && v2 == v by {
            lemma_match_class(bytes@, pos as int, m2, v2);
        }
    }
    Some((major, v, pos + 1))
}

fn read_head_24(bytes: &[u8], pos: usize) -> (r: Option<(u8, u64, usize)>)
    requires
        pos < bytes@.len(),
        bytes@[pos as int] % 32 == 24,
    ensures
        match r {
            Some((m, v, p)) => head_at(bytes@, pos as int, m, v, p as int),
            None => no_head_at(bytes@, pos as int),
        },
{
    let b = bytes[pos];
    let major: u8 = b / 32;
    if bytes.len() - pos < 2 {
        proof {
            assert forall|m2: u8, v2: u64| m2 < 8 implies !#[trigger] prefix_at(
                bytes@,
                pos as int,
                cbor_head(m2, v2),
            ) by {
                if prefix_at(bytes@, pos as int, cbor_head(m2, v2)) {
                    lemma_match_class(bytes@, pos as int, m2, v2);
                }
            }
        }
        return None;
    }
    let x = bytes[pos + 1];
    if x < 24 {
        proof {
            assert forall|m2: u8, v2: u64| m2 < 8 implies !#[trigger] prefix_at(
                bytes@,
                pos as int,
                cbor_head(m2, v2),
            ) by {
                if prefix_at(bytes@, pos as int, cbor_head(m2, v2)) {
                    lemma_match_class(bytes@, pos as int, m2, v2);
                }
            }
        }
        return None;
    }
    let v: u64 = x as u64;
    proof {
        lemma_head_first_byte(major, v);
        assert(bytes@.subrange(pos as int, pos + 2) =~= cbor_head(major, v));
        assert forall|m2: u8, v2: u64| m2 < 8 && #[trigger] prefix_at(
            bytes@,
            pos as int,
            cbor_head(m2, v2),
        ) implies m2 == major && v2 == v by {
            lemma_match_class(bytes@, pos as int, m2, v2);
        }
    }
    Some((major, v, pos + 2))
}

fn read_head_25(bytes: &[u8], pos: usize) -> (r: Option<(u8, u64, usize)>)
    requires
        pos < bytes@.len(),
        bytes@[pos as int] % 32 == 25,
    ensures
        match r {
            Some((m, v, p)) => head_at(bytes@, pos as int, m, v, p as int),
            None => no_head_at(bytes@, pos as int),
        },
{
    let b = bytes[pos];
    let major: u8 = b / 32;
    if bytes.len() - pos < 3 {
        proof {
            assert forall|m2: u8, v2: u64| m2 < 8 implies !#[trigger] prefix_at(
                bytes@,
                pos as int,
                cbor_head(m2, v2),
            ) by {
                if prefix_at(bytes@, pos as int, cbor_head(m2, v2)) {
                    lemma_match_class(bytes@, pos as int, m2, v2);
                }
            }
        }
        return None;
    }
    let b1 = bytes[pos + 1];
    let b2 = bytes[pos + 2];
    let v: u64 = (b1 as u64) * 0x100 + b2 as u64;
    if v < 0x100 {
        proof {
            assert forall|m2: u8, v2: u64| m2 < 8 implies !#[trigger] prefix_at(
                bytes@,
                pos as int,
                cbor_head(m2, v2),
            ) by {
                if prefix_at(bytes@, pos as int, cbor_head(m2, v2)) {
                    lemma_match_class(bytes@, pos as int, m2, v2);
                }
            }
        }
        return None;
    }
    proof {
        lemma_be16_of(b1, b2);
        lemma_head_first_byte(major, v);
        assert(bytes@.subrange(pos as int, pos + 3) =~= cbor_head(major, v));
        assert forall|m2: u8, v2: u64| m2 < 8 && #[trigger] prefix_at(
            bytes@,
            pos as int,
            cbor_head(m2, v2),
        ) implies m2 == major && v2 == v by {
            lemma_match_class(bytes@, pos as int, m2, v2);
        }
    }
    Some((major, v, pos + 3))
}

fn read_head_26(bytes: &[u8], pos: usize) -> (r: Option<(u8, u64, usize)>)
    requires
        pos < bytes@.len(),
        bytes@[pos as int] % 32 == 26,
    ensures
        match r {
            Some((m, v, p)) => head_at(bytes@, pos as int, m, v, p as int),
            None => no_head_at(bytes@, pos as int),
        },
{
    let b = bytes[pos];
    let major: u8 = b / 32;
    if bytes.len() - pos < 5 {
        proof {
            assert forall|m2: u8, v2: u64| m2 < 8 implies !#[trigger] prefix_at(
                bytes@,
                pos as int,
                cbor_head(m2, v2),
            ) by {
                if prefix_at(bytes@, pos as int, cbor_head(m2, v2)) {
                    lemma_match_class(bytes@, pos as int, m2, v2);
                }
            }
        }
        return None;
    }
    let v32: u32 = (bytes[pos + 1] as u32) * 0x100_0000 + (bytes[pos + 2] as u32) * 0x1_0000
        + (bytes[pos + 3] as u32) * 0x100 + bytes[pos + 4] as u32;
    let v: u64 = v32 as u64;
    proof {
        let w = lemma_u32_be_of(bytes@[pos + 1], bytes@[pos + 2], bytes@[pos + 3], bytes@[pos + 4]);
        assert(bytes@.subrange(pos + 1, pos + 5) =~= seq![
            bytes@[pos + 1],
            bytes@[pos + 2],
            bytes@[pos + 3],
            bytes@[pos + 4],
        ]);
    }
    if v < 0x1_0000 {
        proof {
            assert forall|m2: u8, v2: u64| m2 < 8 implies !#[trigger] prefix_at(
                bytes@,
                pos as int,
                cbor_head(m2, v2),
            ) by {
                if prefix_at(bytes@, pos as int, cbor_head(m2, v2)) {
                    lemma_match_class(bytes@, pos as int, m2, v2);
                }
            }
        }
        return None;
    }
    proof {
        lemma_head_first_byte(major, v);
        assert(bytes@.subrange(pos as int, pos + 5) =~= cbor_head(major, v));
        assert forall|m2: u8, v2: u64| m2 < 8 && #[trigger] prefix_at(
            bytes@,
            pos as int,
            cbor_head(m2, v2),
        ) implies m2 == major && v2 == v by {
            lemma_match_class(bytes@, pos as int, m2, v2);
        }
    }
    Some((major, v, pos + 5))
}

fn read_head_27(bytes: &[u8], pos: usize) -> (r: Option<(u8, u64, usize)>)
    requires
        pos < bytes@.len(),
        bytes@[pos as int] % 32 == 27,
    ensures
        match r {
            Some((m, v, p)) => head_at(bytes@, pos as int, m, v, p as int),
            None => no_head_at(bytes@, pos as int),
        },
{
    let b = bytes[pos];
    let major: u8 = b / 32;
    if bytes.len() - pos < 9 {
        proof {
            assert forall|m2: u8, v2: u64| m2 < 8 implies !#[trigger] prefix_at(
                bytes@,
                pos as int,
                cbor_head(m2, v2),
            ) by {
                if prefix_at(bytes@, pos as int, cbor_head(m2, v2)) {
                    lemma_match_class(bytes@, pos as int, m2, v2);
                }
            }
        }
        return None;
    }
    let hi: u32 = (bytes[pos + 1] as u32) * 0x100_0000 + (bytes[pos + 2] as u32) * 0x1_0000
        + (bytes[pos + 3] as u32) * 0x100 + bytes[pos + 4] as u32;
    let lo: u32 = (bytes[pos + 5] as u32) * 0x100_0000 + (bytes[pos + 6] as u32) * 0x1_0000
        + (bytes[pos + 7] as u32) * 0x100 + bytes[pos + 8] as u32;
    let v: u64 = (hi as u64) * 0x1_0000_0000 + lo as u64;
    proof {
        let w1 = lemma_u32_be_of(bytes@[pos + 1], bytes@[pos + 2], bytes@[pos + 3], bytes@[pos + 4]);
        let w2 = lemma_u32_be_of(bytes@[pos + 5], bytes@[pos + 6], bytes@[pos + 7], bytes@[pos + 8]);
        assert(bytes@.subrange(pos + 1, pos + 5) =~= seq![
            bytes@[pos + 1],
            bytes@[pos + 2],
            bytes@[pos + 3],
            bytes@[pos + 4],
        ]);
        assert(bytes@.subrange(pos + 5, pos + 9) =~= seq![
            bytes@[pos + 5],
            bytes@[pos + 6],
            bytes@[pos + 7],
            bytes@[pos + 8],
        ]);
        lemma_u64_join(hi, lo);
    }
    if v < 0x1_0000_0000 {
        proof {
            assert forall|m2: u8, v2: u64| m2 < 8 implies !#[trigger] prefix_at(
                bytes@,
                pos as int,
                cbor_head(m2, v2),
            ) by {
                if prefix_at(bytes@, pos as int, cbor_head(m2, v2)) {
                    lemma_match_class(bytes@, pos as int, m2, v2);
                }
            }
        }
        return None;
    }
    proof {
        lemma_head_first_byte(major, v);
        assert(cbor_head(major, v).subrange(1, 5) =~= u32_be(hi));
        assert(cbor_head(major, v).subrange(5, 9) =~= u32_be(lo));
        assert(bytes@.subrange(pos as int, pos + 9) =~= cbor_head(major, v));
        assert forall|m2: u8, v2: u64| m2 < 8 && #[trigger] prefix_at(
            bytes@,
            pos as int,
            cbor_head(m2, v2),
        ) implies m2 == major && v2 == v by {
            lemma_match_class(bytes@, pos as int, m2, v2);
        }
    }
    Some((major, v, pos + 9))
}

/// Reads the head of an item at `pos`: its major type, its argument and
/// the position after it. Only the shortest form is accepted, so at most
/// one head is found at any position.
pub fn read_head(bytes: &[u8], pos: usize) -> (r: Option<(u8, u64, usize)>)
    ensures
        match r {
            Some((m, v, p)) => head_at(bytes@, pos as int, m, v, p as int),
            None => no_head_at(bytes@, pos as int),
        },
{
    if pos >= bytes.len() {
        proof {
            assert forall|m2: u8, v2: u64| m2 < 8 implies !#[trigger] prefix_at(
                bytes@,
                pos as int,
                cbor_head(m2, v2),
            ) by {
                lemma_head_first_byte(m2, v2);
            }
        }
        return None;
    }
    let info: u8 = bytes[pos] % 32;
    if info < 24 {
        read_head_short(bytes, pos)
    } else if info == 24 {
        read_head_24(bytes, pos)
    } else if info == 25 {
        read_head_25(bytes, pos)
    } else if info == 26 {
        read_head_26(bytes, pos)
    } else if info == 27 {
        read_head_27(bytes, pos)
    } else {
        proof {
            assert forall|m2: u8, v2: u64| m2 < 8 implies !#[trigger] prefix_at(
                bytes@,
                pos as int,
                cbor_head(m2, v2),
            ) by {
                if prefix_at(bytes@, pos as int, cbor_head(m2, v2)) {
                    lemma_match_class(bytes@, pos as int, m2, v2);
                }
            }
        }
        None
    }
}

/// `s` holds `a + b` at `pos` exactly when it holds `a` there and `b`
/// right after it.
pub proof fn lemma_prefix_concat(s: Seq<u8>, pos: int, a: Seq<u8>, b: Seq<u8>)
    ensures
        prefix_at(s, pos, a + b) == (prefix_at(s, pos, a) && prefix_at(s, pos + a.len(), b)),
{
    if prefix_at(s, pos, a + b) {
        assert(s.subrange(pos, pos + a.len()) =~= (a + b).subrange(0, a.len() as int));
        assert((a + b).subrange(0, a.len() as int) =~= a);
        assert(s.subrange(pos + a.len(), pos + a.len() + b.len()) =~= (a + b).subrange(
            a.len() as int,
            (a + b).len() as int,
        ));
        assert((a + b).subrange(a.len() as int, (a + b).len() as int) =~= b);
    }
    if prefix_at(s, pos, a) && prefix_at(s, pos + a.len(), b) {
        assert(s.subrange(pos, pos + (a + b).len()) =~= s.subrange(pos, pos + a.len()) + s.subrange(
            pos + a.len(),
            pos + a.len() + b.len(),
        ));
        assert(s.subrange(pos, pos + (a + b).len()) =~= a + b);
    }
}

/// A text item whose encoded length fits the slice has an exact length
/// argument.
proof fn lemma_text_len_fits(bytes: Seq<u8>, pos: int, t: Seq<char>)
    requires
        bytes.len() <= usize::MAX,
        prefix_at(bytes, pos, cbor_text(t)),
    ensures
        encode_utf8(t).len() < 0x1_0000_0000_0000_0000,
        (encode_utf8(t).len() as u64) as int == encode_utf8(t).len(),
{
    lemma_prefix_concat(bytes, pos, cbor_head(3, encode_utf8(t).len() as u64), encode_utf8(t));
}

/// Appends an unsigned integer item.
pub fn push_uint(out: &mut Vec<u8>, v: u64)
    ensures
        final(out)@ == old(out)@ + cbor_uint(v),
{
    push_head(out, 0, v);
}

/// Appends a boolean item.
pub fn push_bool(out: &mut Vec<u8>, b: bool)
    ensures
        final(out)@ == old(out)@ + cbor_bool(b),
{
    if b {
        push_head(out, 7, 21);
    } else {
        push_head(out, 7, 20);
    }
}

/// Appends the head of a map with `n` entries.
pub fn push_map(out: &mut Vec<u8>, n: u64)
    ensures
        final(out)@ == old(out)@ + cbor_map(n),
{
    push_head(out, 5, n);
}

/// Appends a byte-string item.
pub fn push_byte_string(out: &mut Vec<u8>, b: &[u8])
    ensures
        final(out)@ == old(out)@ + cbor_bytes(b@),
{
    push_head(out, 2, b.len() as u64);
    push_bytes(out, b);
    assert(out@ =~= old(out)@ + cbor_bytes(b@));
}

/// Appends a text-string item.
pub fn push_text(out: &mut Vec<u8>, t: &str)
    ensures
        final(out)@ == old(out)@ + cbor_text(t@),
{
    let b = t.as_bytes();
    push_head(out, 3, b.len() as u64);
    push_bytes(out, b);
    assert(out@ =~= old(out)@ + cbor_text(t@));
}

/// Checks that the head with major type `major` and argument `v` stands
/// at `pos`, and gives the position after it.
pub fn expect_head(bytes: &[u8], pos: usize, major: u8, v: u64) -> (r: Option<usize>)
    requires
        major < 8,
    ensures
        match r {
            Some(p) => p == pos + cbor_head(major, v).len() && prefix_at(
                bytes@,
                pos as int,
                cbor_head(major, v),
            ),
            None => !prefix_at(bytes@, pos as int, cbor_head(major, v)),
        },
{
    match read_head(bytes, pos) {
        Some((m, w, p)) => {
            if m == major && w == v {
                Some(p)
            } else {
                None
            }
        },
        None => None,
    }
}

/// A text item whose chars are given by their (ASCII) bytes `k`.
pub open spec fn cbor_key(k: Seq<u8>) -> Seq<u8> {
    cbor_head(3, k.len() as u64) + k
}

/// Checks that the key `k` stands at `pos`, and gives the position after
/// it.
pub fn expect_key(bytes: &[u8], pos: usize, k: &[u8]) -> (r: Option<usize>)
    requires
        k@.len() < 24,
    ensures
        match r {
            Some(p) => p == pos + cbor_key(k@).len() && prefix_at(bytes@, pos as int, cbor_key(k@)),
            None => !prefix_at(bytes@, pos as int, cbor_key(k@)),
        },
{
    proof {
        lemma_prefix_concat(bytes@, pos as int, cbor_head(3, k@.len() as u64), k@);
    }
    let p = match expect_head(bytes, pos, 3, k.len() as u64) {
        Some(p) => p,
        None => return None,
    };
    if bytes.len() - p < k.len() {
        return None;
    }
    let mut i: usize = 0;
    let mut same = true;
    while i < k.len()
        invariant
            p + k.len() <= bytes.len(),
            i <= k@.len(),
            same == (forall|j: int| 0 <= j < i ==> bytes@[p + j] == k@[j]),
        decreases k@.len() - i,
    {
        same = same && bytes[p + i] == k[i];
        i += 1;
    }
    if !same {
        proof {
            let j = choose|j: int| 0 <= j < k@.len() && bytes@[p + j] != k@[j];
            assert(bytes@.subrange(p as int, p + k@.len())[j] != k@[j]);
        }
        return None;
    }
    proof {
        assert(bytes@.subrange(p as int, p + k@.len()) =~= k@);
    }
    Some(p + k.len())
}

/// Reads an unsigned integer item at `pos`.
pub fn read_uint(bytes: &[u8], pos: usize) -> (r: Option<(u64, usize)>)
    ensures
        match r {
            Some((v, p)) => {
                &&& p == pos + cbor_uint(v).len()
                &&& prefix_at(bytes@, pos as int, cbor_uint(v))
                &&& forall|v2: u64| #[trigger] prefix_at(bytes@, pos as int, cbor_uint(v2)) ==> v2 == v
            },
            None => forall|v2: u64| !#[trigger] prefix_at(bytes@, pos as int, cbor_uint(v2)),
        },
{
    match read_head(bytes, pos) {
        Some((m, v, p)) => {
            if m == 0 {
                Some((v, p))
            } else {
                None
            }
        },
        None => None,
    }
}

/// Reads a boolean item at `pos`.
pub fn read_bool(bytes: &[u8], pos: usize) -> (r: Option<(bool, usize)>)
    ensures
        match r {
            Some((b, p)) => {
                &&& p == pos + cbor_bool(b).len()
                &&& prefix_at(bytes@, pos as int, cbor_bool(b))
                &&& forall|b2: bool| #[trigger] prefix_at(bytes@, pos as int, cbor_bool(b2)) ==> b2 == b
            },
            None => forall|b2: bool| !#[trigger] prefix_at(bytes@, pos as int, cbor_bool(b2)),
        },
{
    match read_head(bytes, pos) {
        Some((m, v, p)) => {
            if m == 7 && v == 21 {
                Some((true, p))
            } else if m == 7 && v == 20 {
                Some((false, p))
            } else {
                None
            }
        },
        None => None,
    }
}

/// Copies `bytes[from..to]`.
fn copy_range(bytes: &[u8], from: usize, to: usize) -> (r: Vec<u8>)
    requires
        from <= to <= bytes@.len(),
    ensures
        r@ == bytes@.subrange(from as int, to as int),
{
    let part = slice_subrange(bytes, from, to);
    slice_to_vec(part)
}

/// Reads a byte-string item at `pos`.
pub fn read_byte_string(bytes: &[u8], pos: usize) -> (r: Option<(Vec<u8>, usize)>)
    ensures
        match r {
            Some((b, p)) => {
                &&& p == pos + cbor_bytes(b@).len()
                &&& prefix_at(bytes@, pos as int, cbor_bytes(b@))
                &&& forall|b2: Seq<u8>| #[trigger] prefix_at(bytes@, pos as int, cbor_bytes(b2)) ==> b2 == b@
            },
            None => forall|b2: Seq<u8>| !#[trigger] prefix_at(bytes@, pos as int, cbor_bytes(b2)),
        },
{
    let (m, n, p) = match read_head(bytes, pos) {
        Some(h) => h,
        None => {
            proof {
                assert forall|b2: Seq<u8>| !#[trigger] prefix_at(bytes@, pos as int, cbor_bytes(b2)) by {
                    lemma_prefix_concat(bytes@, pos as int, cbor_head(2, b2.len() as u64), b2);
                }
            }
            return None;
        },
    };
    if m != 2 || ((bytes.len() - p) as u64) < n {
        proof {
            assert forall|b2: Seq<u8>| !#[trigger] prefix_at(bytes@, pos as int, cbor_bytes(b2)) by {
                lemma_prefix_concat(bytes@, pos as int, cbor_head(2, b2.len() as u64), b2);
            }
        }
        return None;
    }
    let end: usize = p + n as usize;
    let b = copy_range(bytes, p, end);
    proof {
        lemma_prefix_concat(bytes@, pos as int, cbor_head(2, n), b@);
        assert forall|b2: Seq<u8>| #[trigger] prefix_at(bytes@, pos as int, cbor_bytes(b2)) implies b2
            == b@ by {
            lemma_prefix_concat(bytes@, pos as int, cbor_head(2, b2.len() as u64), b2);
        }
    }
    Some((b, end))
}

/// Calls `String::from_utf8`, which accepts exactly the byte strings that
/// are valid UTF-8 and hands back the string they encode.
#[verifier::external_body]
pub(crate) fn string_from_utf8(bytes: Vec<u8>) -> (r: Option<String>)
    ensures
        match r {
            Some(s) => valid_utf8(bytes@) && s@ == decode_utf8(bytes@),
            None => !valid_utf8(bytes@),
        },
{
    String::from_utf8(bytes).ok()
}

/// Reads a text-string item at `pos`; its bytes must be valid UTF-8.
pub fn read_text(bytes: &[u8], pos: usize) -> (r: Option<(String, usize)>)
    ensures
        match r {
            Some((t, p)) => {
                &&& p == pos + cbor_text(t@).len()
                &&& prefix_at(bytes@, pos as int, cbor_text(t@))
                &&& forall|t2: Seq<char>| #[trigger] prefix_at(bytes@, pos as int, cbor_text(t2)) ==> t2 == t@
            },
            None => forall|t2: Seq<char>| !#[trigger] prefix_at(bytes@, pos as int, cbor_text(t2)),
        },
{
    broadcast use encode_utf8_valid_utf8, encode_utf8_decode_utf8;

    let (m, n, p) = match read_head(bytes, pos) {
        Some(h) => h,
        None => {
            proof {
                assert forall|t2: Seq<char>| !#[trigger] prefix_at(bytes@, pos as int, cbor_text(t2)) by {
                    lemma_prefix_concat(
                        bytes@,
                        pos as int,
                        cbor_head(3, encode_utf8(t2).len() as u64),
                        encode_utf8(t2),
                    );
                }
            }
            return None;
        },
    };
    if m != 3 || ((bytes.len() - p) as u64) < n {
        proof {
            assert forall|t2: Seq<char>| !#[trigger] prefix_at(bytes@, pos as int, cbor_text(t2)) by {
                lemma_prefix_concat(
                    bytes@,
                    pos as int,
                    cbor_head(3, encode_utf8(t2).len() as u64),
                    encode_utf8(t2),
                );
                if prefix_at(bytes@, pos as int, cbor_text(t2)) {
                    lemma_text_len_fits(bytes@, pos as int, t2);
                }
            }
        }
        return None;
    }
    let end: usize = p + n as usize;
    let b = copy_range(bytes, p, end);
    proof {
        assert forall|t2: Seq<char>| #[trigger] prefix_at(bytes@, pos as int, cbor_text(t2)) implies encode_utf8(t2) == b@ by {
            lemma_prefix_concat(
                bytes@,
                pos as int,
                cbor_head(3, encode_utf8(t2).len() as u64),
                encode_utf8(t2),
            );
            lemma_text_len_fits(bytes@, pos as int, t2);
        }
    }
    match string_from_utf8(b) {
        None => {
            proof {
                assert forall|t2: Seq<char>| !#[trigger] prefix_at(bytes@, pos as int, cbor_text(t2)) by {
                    if prefix_at(bytes@, pos as int, cbor_text(t2)) {
                        assert(valid_utf8(encode_utf8(t2)));
                    }
                }
            }
            None
        },
        Some(t) => {
            proof {
                decode_utf8_encode_utf8(b@);
                lemma_prefix_concat(bytes@, pos as int, cbor_head(3, n), b@);
                assert(cbor_text(t@) == cbor_head(3, n) + b@);
                assert forall|t2: Seq<char>| #[trigger] prefix_at(bytes@, pos as int, cbor_text(t2)) implies t2 == t@ by {
                    assert(decode_utf8(encode_utf8(t2)) == t2);
                }
            }
            Some((t, end))
        },
    }
}

/// At most one head is found at any position.
pub proof fn lemma_head_unique(s: Seq<u8>, pos: int, m1: u8, v1: u64, m2: u8, v2: u64)
    requires
        m1 < 8,
        m2 < 8,
        prefix_at(s, pos, cbor_head(m1, v1)),
        prefix_at(s, pos, cbor_head(m2, v2)),
    ensures
        m1 == m2,
        v1 == v2,
{
    lemma_match_class(s, pos, m1, v1);
    lemma_match_class(s, pos, m2, v2);
}

/// At most one unsigned integer item is found at any position.
pub proof fn lemma_uint_unique(s: Seq<u8>, pos: int, v1: u64, v2: u64)
    requires
        prefix_at(s, pos, cbor_uint(v1)),
        prefix_at(s, pos, cbor_uint(v2)),
    ensures
        v1 == v2,
{
    lemma_head_unique(s, pos, 0, v1, 0, v2);
}

/// At most one boolean item is found at any position.
pub proof fn lemma_bool_unique(s: Seq<u8>, pos: int, b1: bool, b2: bool)
    requires
        prefix_at(s, pos, cbor_bool(b1)),
        prefix_at(s, pos, cbor_bool(b2)),
    ensures
        b1 == b2,
{
    lemma_head_unique(s, pos, 7, if b1 { 21 } else { 20 }, 7, if b2 { 21 } else { 20 });
}

/// At most one byte-string item is found at any position.
pub proof fn lemma_bytes_unique(s: Seq<u8>, pos: int, b1: Seq<u8>, b2: Seq<u8>)
    requires
        s.len() <= usize::MAX,
        prefix_at(s, pos, cbor_bytes(b1)),
        prefix_at(s, pos, cbor_bytes(b2)),
    ensures
        b1 == b2,
{
    lemma_prefix_concat(s, pos, cbor_head(2, b1.len() as u64), b1);
    lemma_prefix_concat(s, pos, cbor_head(2, b2.len() as u64), b2);
    lemma_head_unique(s, pos, 2, b1.len() as u64, 2, b2.len() as u64);
}

/// At most one text item is found at any position.
pub proof fn lemma_text_unique(s: Seq<u8>, pos: int, t1: Seq<char>, t2: Seq<char>)
    requires
        s.len() <= usize::MAX,
        prefix_at(s, pos, cbor_text(t1)),
        prefix_at(s, pos, cbor_text(t2)),
    ensures
        t1 == t2,
{
    broadcast use encode_utf8_decode_utf8;

    lemma_text_len_fits(s, pos, t1);
    lemma_text_len_fits(s, pos, t2);
    lemma_prefix_concat(s, pos, cbor_head(3, encode_utf8(t1).len() as u64), encode_utf8(t1));
    lemma_prefix_concat(s, pos, cbor_head(3, encode_utf8(t2).len() as u64), encode_utf8(t2));
    lemma_head_unique(
        s,
        pos,
        3,
        encode_utf8(t1).len() as u64,
        3,
        encode_utf8(t2).len() as u64,
    );
    assert(encode_utf8(t1) == encode_utf8(t2));
    assert(decode_utf8(encode_utf8(t1)) == t1);
}

} // verus!

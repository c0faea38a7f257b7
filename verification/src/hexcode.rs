//! Lower-case hexadecimal encoding and decoding.
use vstd::prelude::*;
use vstd::string::StringSliceAdditionalSpecFns;
use vstd::utf8::{encode_utf8, is_ascii_chars, is_ascii_chars_encode_utf8};

verus! {

/// The lower-case hex digit for `n` (`0 <= n < 16`).
pub open spec fn hex_char(n: int) -> char {
    if n < 10 {
        (48 + n) as char
    } else {
        (87 + n) as char
    }
}

/// Lower-case hex encoding: two digits per byte, high nibble first.
pub open spec fn hex_spec(b: Seq<u8>) -> Seq<char>
    decreases b.len(),
{
    if b.len() == 0 {
        Seq::empty()
    } else {
        hex_spec(b.drop_last()) + seq![hex_char(b.last() as int / 16), hex_char(b.last() as int % 16)]
    }
}

/// Value of a hex digit byte (either case), if it is one.
pub open spec fn hex_val(c: u8) -> Option<u8> {
    if 48 <= c <= 57 {
        Some((c - 48) as u8)
    } else if 97 <= c <= 102 {
        Some((c - 87) as u8)
    } else if 65 <= c <= 70 {
        Some((c - 55) as u8)
    } else {
        None
    }
}

/// Hex decoding: defined for an even number of hex digits of either case,
/// two digits per byte, high nibble first.
pub open spec fn hex_decode_spec(s: Seq<u8>) -> Option<Seq<u8>> {
    if s.len() % 2 == 0 && forall|i: int| 0 <= i < s.len() ==> (#[trigger] hex_val(s[i])) is Some {
        Some(
            Seq::new(
                s.len() / 2,
                |i: int| (hex_val(s[2 * i]).unwrap() * 16 + hex_val(s[2 * i + 1]).unwrap()) as u8,
            ),
        )
    } else {
        None
    }
}

/// Calls `hex::encode`, which writes each byte as two lower-case hex digits,
/// high nibble first.
#[verifier::external_body]
pub(crate) fn hex_encode(data: &[u8]) -> (r: String)
    ensures
        r@ == hex_spec(data@),
{
    hex::encode(data)
}

/// Calls `hex::decode`, which accepts an even number of hex digits of either
/// case and fails otherwise; the error is handed back as its message, whose
/// text is not stated.
#[verifier::external_body]
pub(crate) fn hex_decode(s: &str) -> (r: Result<Vec<u8>, String>)
    ensures
        match r {
            Ok(v) => hex_decode_spec(s.spec_bytes()) == Some(v@),
            Err(_) => hex_decode_spec(s.spec_bytes()) is None,
        },
{
    match hex::decode(s) {
        Ok(v) => Ok(v),
        Err(e) => Err(e.to_string()),
    }
}

/// The digits of `hex_spec(b)`, two per byte.
pub proof fn lemma_hex_spec_index(b: Seq<u8>)
    ensures
        hex_spec(b).len() == 2 * b.len(),
        forall|i: int|
            #![trigger b[i]]
            0 <= i < b.len() ==> hex_spec(b)[2 * i] == hex_char(b[i] as int / 16) && hex_spec(b)[2
                * i + 1] == hex_char(b[i] as int % 16),
    decreases b.len(),
{
    if b.len() > 0 {
        lemma_hex_spec_index(b.drop_last());
        assert forall|i: int| #![trigger b[i]] 0 <= i < b.len() implies hex_spec(b)[2 * i]
            == hex_char(b[i] as int / 16) && hex_spec(b)[2 * i + 1] == hex_char(
            b[i] as int % 16,
        ) by {
            if i < b.len() - 1 {
                assert(b.drop_last()[i] == b[i]);
            }
        }
    }
}

/// A hex digit is an ASCII character whose byte decodes to its value.
proof fn lemma_hex_char_val(n: int)
    requires
        0 <= n < 16,
    ensures
        (hex_char(n) as u32) < 128,
        hex_val(hex_char(n) as u8) == Some(n as u8),
{
}

/// Hex decoding inverts hex encoding: decoding the UTF-8 bytes of the hex
/// form of `b` gives `b` back.
pub proof fn lemma_hex_roundtrip(b: Seq<u8>)
    ensures
        hex_decode_spec(encode_utf8(hex_spec(b))) == Some(b),
{
    let h = hex_spec(b);
    lemma_hex_spec_index(b);
    assert forall|j: int| 0 <= j < h.len() implies '\0' <= #[trigger] h[j] <= '\u{7f}' by {
        let i = j / 2;
        assert(b[i] == b[i]);
        lemma_hex_char_val(b[i] as int / 16);
        lemma_hex_char_val(b[i] as int % 16);
        if j % 2 == 0 {
            assert(j == 2 * i);
        } else {
            assert(j == 2 * i + 1);
        }
    }
    is_ascii_chars_encode_utf8(h);
    let e = encode_utf8(h);
    assert forall|j: int| 0 <= j < e.len() implies (#[trigger] hex_val(e[j])) is Some by {
        let i = j / 2;
        assert(b[i] == b[i]);
        assert(h[j] as u8 == e[j]);
        lemma_hex_char_val(b[i] as int / 16);
        lemma_hex_char_val(b[i] as int % 16);
        if j % 2 == 0 {
            assert(j == 2 * i);
        } else {
            assert(j == 2 * i + 1);
        }
    }
    let d = Seq::new(
        e.len() / 2,
        |i: int| (hex_val(e[2 * i]).unwrap() * 16 + hex_val(e[2 * i + 1]).unwrap()) as u8,
    );
    assert forall|i: int| 0 <= i < b.len() implies d[i] == b[i] by {
        assert(b[i] == b[i]);
        assert(h[2 * i] as u8 == e[2 * i]);
        assert(h[2 * i + 1] as u8 == e[2 * i + 1]);
        lemma_hex_char_val(b[i] as int / 16);
        lemma_hex_char_val(b[i] as int % 16);
    }
    assert(d =~= b);
}

} // verus!

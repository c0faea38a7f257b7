//! The classic hex dump of a byte string: sixteen bytes a line, each line
//! with its offset, the bytes in hex and the bytes as printable ASCII.
use vstd::prelude::*;
use vstd::utf8::*;
use crate::cbor::string_from_utf8;

verus! {

/// The lower-case hex digit of `n` (`0 <= n < 16`), as an ASCII byte.
pub open spec fn hex_digit_byte(n: int) -> u8 {
    if n < 10 {
        (48 + n) as u8
    } else {
        (87 + n) as u8
    }
}

/// `o` in lower-case hex, zero-padded to at least `w` digits.
pub open spec fn hex_padded(o: nat, w: nat) -> Seq<u8>
    decreases o + w,
{
    if o < 16 && w <= 1 {
        seq![hex_digit_byte(o as int)]
    } else {
        hex_padded(o / 16, if w > 0 { (w - 1) as nat } else { 0 }) + seq![hex_digit_byte((o % 16) as int)]
    }
}

/// The cell of the byte at position `j` of a line: two hex digits and a
/// space, and one more space after the eighth byte.
pub open spec fn byte_cell(b: u8, j: int) -> Seq<u8> {
    hex_padded(b as nat, 2) + seq![0x20u8] + if j == 7 { seq![0x20u8] } else { Seq::empty() }
}

/// The cells of the first `n` bytes of a line.
pub open spec fn cells(chunk: Seq<u8>, n: nat) -> Seq<u8>
    decreases n,
{
    if n == 0 {
        Seq::empty()
    } else {
        cells(chunk, (n - 1) as nat) + byte_cell(chunk[n - 1], n - 1)
    }
}

/// The blank cells that fill a line of `len` bytes up to `len + k`: three
/// spaces per missing byte, and one more when the gap after the eighth
/// position falls among them.
pub open spec fn pads(len: nat, k: nat) -> Seq<u8> {
    Seq::new((3 * k + if len <= 7 && 7 < len + k { 1int } else { 0int }) as nat, |i: int| 0x20u8)
}

/// How a byte shows in the text column: itself if it is a printable ASCII
/// character or a space, else a dot.
pub open spec fn shown(b: u8) -> u8 {
    if 0x20 <= b <= 0x7e {
        b
    } else {
        0x2e
    }
}

/// The line of the `i`-th sixteen bytes of `data`.
pub open spec fn dump_line(data: Seq<u8>, i: nat) -> Seq<u8> {
    let start = 16 * i;
    let end: int = if start + 16 <= data.len() { (start + 16) as int } else { data.len() as int };
    let chunk = data.subrange(start as int, end);
    hex_padded(start, 8) + seq![0x20u8, 0x20u8] + cells(chunk, chunk.len()) + pads(
        chunk.len(),
        (16 - chunk.len()) as nat,
    ) + seq![0x20u8, 0x7cu8] + chunk.map_values(|b: u8| shown(b)) + seq![0x7cu8, 0x0au8]
}

/// The first `n` lines of the dump of `data`.
pub open spec fn dump_lines(data: Seq<u8>, n: nat) -> Seq<u8>
    decreases n,
{
    if n == 0 {
        Seq::empty()
    } else {
        dump_lines(data, (n - 1) as nat) + dump_line(data, (n - 1) as nat)
    }
}

/// The whole dump of `data`: one line per sixteen bytes (the last one
/// possibly shorter), none for empty data.
pub open spec fn hex_dump_bytes(data: Seq<u8>) -> Seq<u8> {
    dump_lines(data, ((data.len() + 15) / 16) as nat)
}

/// The text of ASCII bytes.
pub open spec fn ascii_text(b: Seq<u8>) -> Seq<char> {
    b.map_values(|x: u8| x as char)
}

/// Bytes below 0x80 are valid UTF-8 and decode to the characters of the
/// same values.
pub proof fn lemma_ascii_utf8(b: Seq<u8>)
    requires
        all_ascii(b),
    ensures
        valid_utf8(b),
        decode_utf8(b) == ascii_text(b),
    decreases b.len(),
{
    if b.len() > 0 {
        let x = b[0];
        assert(x & 0x7f == x) by (bit_vector)
            requires
                x < 0x80,
        ;
        let rest = b.subrange(1, b.len() as int);
        assert(pop_first_scalar(b) == rest);
        lemma_ascii_utf8(rest);
        assert(decode_utf8(b) =~= ascii_text(b));
    } else {
        assert(decode_utf8(b) =~= ascii_text(b));
    }
}

/// The hex digit byte of `n`.
fn hex_digit(n: usize) -> (r: u8)
    requires
        n < 16,
    ensures
        r == hex_digit_byte(n as int),
{
    if n < 10 {
        48 + n as u8
    } else {
        87 + n as u8
    }
}

/// Appends `o` in lower-case hex, zero-padded to at least `w` digits.
fn push_hex_padded(out: &mut Vec<u8>, o: usize, w: usize)
    ensures
        final(out)@ == old(out)@ + hex_padded(o as nat, w as nat),
    decreases o + w,
{
    if o < 16 && w <= 1 {
        out.push(hex_digit(o));
    } else {
        let w2: usize = if w > 0 { w - 1 } else { 0 };
        push_hex_padded(out, o / 16, w2);
        out.push(hex_digit(o % 16));
    }
    assert(out@ =~= old(out)@ + hex_padded(o as nat, w as nat));
}

/// Every byte is below 0x80.
pub open spec fn all_ascii(b: Seq<u8>) -> bool {
    forall|i: int| 0 <= i < b.len() ==> #[trigger] b[i] < 0x80
}

/// Joining ASCII byte strings gives an ASCII byte string.
proof fn lemma_ascii_join(a: Seq<u8>, b: Seq<u8>)
    requires
        all_ascii(a),
        all_ascii(b),
    ensures
        all_ascii(a + b),
{
    assert forall|i: int| 0 <= i < (a + b).len() implies #[trigger] (a + b)[i] < 0x80 by {
        if i < a.len() {
            assert((a + b)[i] == a[i]);
        } else {
            assert((a + b)[i] == b[i - a.len()]);
        }
    }
}

/// Every byte of `hex_padded` is ASCII.
proof fn lemma_hex_padded_ascii(o: nat, w: nat)
    ensures
        all_ascii(hex_padded(o, w)),
    decreases o + w,
{
    if !(o < 16 && w <= 1) {
        let w2: nat = if w > 0 { (w - 1) as nat } else { 0 };
        lemma_hex_padded_ascii(o / 16, w2);
        lemma_ascii_join(hex_padded(o / 16, w2), seq![hex_digit_byte((o % 16) as int)]);
    }
}

/// Every byte of the cells is ASCII.
proof fn lemma_cells_ascii(chunk: Seq<u8>, n: nat)
    requires
        n <= chunk.len(),
    ensures
        all_ascii(cells(chunk, n)),
    decreases n,
{
    if n > 0 {
        lemma_cells_ascii(chunk, (n - 1) as nat);
        let b = chunk[n - 1];
        let j = n - 1;
        lemma_hex_padded_ascii(b as nat, 2);
        let tail: Seq<u8> = if j == 7 { seq![0x20u8] } else { Seq::empty() };
        lemma_ascii_join(hex_padded(b as nat, 2), seq![0x20u8]);
        lemma_ascii_join(hex_padded(b as nat, 2) + seq![0x20u8], tail);
        lemma_ascii_join(cells(chunk, (n - 1) as nat), byte_cell(b, j));
    }
}

/// Every byte of the padding is ASCII.
proof fn lemma_pads_ascii(len: nat, k: nat)
    ensures
        all_ascii(pads(len, k)),
{
}

/// Every byte of the first `n` dump lines is ASCII.
proof fn lemma_dump_ascii(data: Seq<u8>, n: nat)
    ensures
        all_ascii(dump_lines(data, n)),
    decreases n,
{
    if n > 0 {
        lemma_dump_ascii(data, (n - 1) as nat);
        let i = (n - 1) as nat;
        let start = 16 * i;
        let end: int = if start + 16 <= data.len() { (start + 16) as int } else { data.len() as int };
        let chunk = data.subrange(start as int, end);
        let a0 = hex_padded(start, 8);
        let a1 = seq![0x20u8, 0x20u8];
        let a2 = cells(chunk, chunk.len());
        let a3 = pads(chunk.len(), (16 - chunk.len()) as nat);
        let a4 = seq![0x20u8, 0x7cu8];
        let a5 = chunk.map_values(|b: u8| shown(b));
        let a6 = seq![0x7cu8, 0x0au8];
        lemma_hex_padded_ascii(start, 8);
        lemma_cells_ascii(chunk, chunk.len());
        lemma_pads_ascii(chunk.len(), (16 - chunk.len()) as nat);
        assert(all_ascii(a5));
        lemma_ascii_join(a0, a1);
        lemma_ascii_join(a0 + a1, a2);
        lemma_ascii_join(a0 + a1 + a2, a3);
        lemma_ascii_join(a0 + a1 + a2 + a3, a4);
        lemma_ascii_join(a0 + a1 + a2 + a3 + a4, a5);
        lemma_ascii_join(a0 + a1 + a2 + a3 + a4 + a5, a6);
        assert(dump_line(data, i) == a0 + a1 + a2 + a3 + a4 + a5 + a6);
        lemma_ascii_join(dump_lines(data, i), dump_line(data, i));
    }
}

/// `i` lines cover fewer bytes than `len` while `i` is below the line
/// count.
proof fn lemma_line_start(i: int, len: int)
    requires
        0 <= i,
        0 <= len,
        i < (len + 15) / 16,
    ensures
        16 * i < len,
{
    assert(16 * i < len) by (nonlinear_arith)
        requires
            0 <= i,
            0 <= len,
            i < (len + 15) / 16,
    ;
}

/// Appends the dump line of the sixteen bytes of `data` from `start` on.
#[verifier::rlimit(40)]
fn push_dump_line(out: &mut Vec<u8>, data: &[u8], start: usize, Ghost(line): Ghost<nat>)
    requires
        start < data@.len(),
        start == 16 * line,
    ensures
        final(out)@ == old(out)@ + dump_line(data@, line),
{
    let end: usize = if data.len() - start > 16 { start + 16 } else { data.len() };
    let ghost chunk = data@.subrange(start as int, end as int);
    push_hex_padded(out, start, 8);
    out.push(0x20);
    out.push(0x20);
    let ghost after_offset = out@;
    let mut j: usize = start;
    while j < end
        invariant
            start <= j <= end,
            end <= data@.len(),
            chunk == data@.subrange(start as int, end as int),
            out@ == after_offset + cells(chunk, (j - start) as nat),
        decreases end - j,
    {
        let b = data[j];
        push_hex_padded(out, b as usize, 2);
        out.push(0x20);
        if j - start == 7 {
            out.push(0x20);
        }
        proof {
            assert(chunk[(j - start) as int] == b);
        }
        j += 1;
        proof {
            assert(out@ =~= after_offset + cells(chunk, (j - start) as nat));
        }
    }
    let len: usize = end - start;
    let ghost after_cells = out@;
    let mut k: usize = 0;
    while k < 16 - len
        invariant
            len <= 16,
            k <= 16 - len,
            out@ == after_cells + pads(len as nat, k as nat),
        decreases 16 - len - k,
    {
        out.push(0x20);
        out.push(0x20);
        out.push(0x20);
        if len + k == 7 {
            out.push(0x20);
        }
        k += 1;
        proof {
            assert(out@ =~= after_cells + pads(len as nat, k as nat));
        }
    }
    out.push(0x20);
    out.push(0x7c);
    let ghost after_pads = out@;
    let mut m: usize = start;
    while m < end
        invariant
            start <= m <= end,
            end <= data@.len(),
            chunk == data@.subrange(start as int, end as int),
            out@ == after_pads + chunk.subrange(0, (m - start) as int).map_values(|b: u8| shown(b)),
        decreases end - m,
    {
        let b = data[m];
        let c: u8 = if 0x20 <= b && b <= 0x7e { b } else { 0x2e };
        out.push(c);
        proof {
            assert(chunk[(m - start) as int] == b);
        }
        m += 1;
        proof {
            assert(out@ =~= after_pads + chunk.subrange(0, (m - start) as int).map_values(|b: u8| shown(b)));
        }
    }
    out.push(0x7c);
    out.push(0x0a);
    proof {
        assert(chunk.subrange(0, chunk.len() as int) =~= chunk);
        assert(out@ =~= old(out)@ + dump_line(data@, line));
    }
}

/// A hex dump of `data`: for each sixteen bytes, the offset in at least
/// eight hex digits, two spaces, the bytes as two hex digits and a space
/// each (an extra space after the eighth, and blanks filling a short last
/// line), then ` |`, the bytes as text (a dot for what is not printable
/// ASCII), `|` and a newline.
pub fn format_hex_dump(data: &[u8]) -> (r: String)
    ensures
        r@ == ascii_text(hex_dump_bytes(data@)),
{
    let mut out: Vec<u8> = Vec::new();
    let n_lines: usize = data.len() / 16 + if data.len() % 16 == 0 { 0 } else { 1 };
    let mut i: usize = 0;
    while i < n_lines
        invariant
            i <= n_lines,
            n_lines == (data@.len() + 15) / 16,
            out@ == dump_lines(data@, i as nat),
        decreases n_lines - i,
    {
        proof {
            lemma_line_start(i as int, data@.len() as int);
        }
        assert(16 * i < data.len());
        let start: usize = 16 * i;
        push_dump_line(&mut out, data, start, Ghost(i as nat));
        i += 1;
    }
    proof {
        lemma_dump_ascii(data@, i as nat);
        lemma_ascii_utf8(out@);
    }
    match string_from_utf8(out) {
        Some(s) => s,
        None => String::new(),
    }
}

} // verus!

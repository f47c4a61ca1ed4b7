//! Exact text rendering used by the attribute display layer: canonical
//! decimal integers, lowercase two-digit hex bytes, comma separators with a
//! line break after every 16th element, and control-character escaping.
use vstd::prelude::*;

verus! {

/// Relies on `String::push`: appends the given character to the end of the
/// string.
pub assume_specification[ std::string::String::push ](s: &mut String, ch: char)
    ensures
        final(s)@ == old(s)@.push(ch),
;

/// Character for one decimal digit.
pub open spec fn dec_digit(d: int) -> char
    recommends
        0 <= d <= 9,
{
    ((48 + d) as u32) as char
}

/// Canonical decimal text of a natural number, most significant digit first,
/// with no leading zeros (a single `0` for zero).
pub open spec fn dec_text(n: nat) -> Seq<char>
    decreases n,
{
    if n < 10 {
        seq![dec_digit(n as int)]
    } else {
        dec_text(n / 10).push(dec_digit((n % 10) as int))
    }
}

/// Canonical decimal text of an integer: a `-` sign for negative values,
/// then the digits of the magnitude.
pub open spec fn int_text(v: int) -> Seq<char> {
    if v < 0 {
        seq!['-'] + dec_text((-v) as nat)
    } else {
        dec_text(v as nat)
    }
}

/// Text of a scalar boolean, as Rust's `Display` prints it.
pub open spec fn bool_text(b: bool) -> Seq<char> {
    if b {
        "true"@
    } else {
        "false"@
    }
}

/// Character for one lowercase hexadecimal digit.
pub open spec fn hex_digit(d: int) -> char
    recommends
        0 <= d < 16,
{
    if d < 10 {
        ((48 + d) as u32) as char
    } else {
        ((87 + d) as u32) as char
    }
}

/// Two-digit lowercase hexadecimal text of one byte.
pub open spec fn byte_hex(b: u8) -> Seq<char> {
    seq![hex_digit(b as int / 16), hex_digit(b as int % 16)]
}

/// Separator written after the element at index `i` of an array rendering:
/// a comma and a line break after every 16th element, a comma and a space
/// otherwise.
pub open spec fn sep_text(i: int) -> Seq<char> {
    if i % 16 == 15 {
        seq![',', '\n']
    } else {
        seq![',', ' ']
    }
}

/// Rendering of a sequence of already-rendered cells: each cell followed by
/// its positional separator, every element included.
pub open spec fn render_cells(cells: Seq<Seq<char>>) -> Seq<char>
    decreases cells.len(),
{
    if cells.len() == 0 {
        Seq::<char>::empty()
    } else {
        render_cells(cells.drop_last()) + cells.last() + sep_text(cells.len() - 1)
    }
}

/// Escaping of one character of a text attribute: newline and tab pass
/// through, carriage return becomes `\r`, any other control character
/// (code point at most 0x1f, or 0x7f) becomes `\xHH` in lowercase hex, and
/// everything else passes through unchanged.
pub open spec fn escape_char(c: char) -> Seq<char> {
    if c == '\n' || c == '\t' {
        seq![c]
    } else if c == '\r' {
        seq!['\\', 'r']
    } else if c as u32 <= 0x1f || c == '\x7f' {
        seq!['\\', 'x', hex_digit(c as u32 as int / 16), hex_digit(c as u32 as int % 16)]
    } else {
        seq![c]
    }
}

/// Escaping of a whole text, character by character.
pub open spec fn escape_text(s: Seq<char>) -> Seq<char>
    decreases s.len(),
{
    if s.len() == 0 {
        Seq::<char>::empty()
    } else {
        escape_text(s.drop_last()) + escape_char(s.last())
    }
}

/// Law: an array rendering grows one element at a time — the rendering of
/// the first `i + 1` cells is the rendering of the first `i` cells, then
/// the text of cell `i`, then its separator — and that separator is the
/// line-break pair exactly when `i + 1` is a multiple of 16: the break
/// falls immediately after every 16th element and nowhere else.
pub proof fn lemma_line_break_after_each_16th(cells: Seq<Seq<char>>, i: int)
    requires
        0 <= i < cells.len(),
    ensures
        render_cells(cells.take(i + 1)) == render_cells(cells.take(i)) + cells[i] + sep_text(i),
        (i + 1) % 16 == 0 ==> sep_text(i) == seq![',', '\n'],
        (i + 1) % 16 != 0 ==> sep_text(i) == seq![',', ' '],
{
    assert(cells.take(i + 1).drop_last() =~= cells.take(i));
    assert(cells.take(i + 1).last() == cells[i]);
    assert(render_cells(cells.take(i + 1)) == render_cells(cells.take(i)) + cells[i] + sep_text(
        i,
    ));
    assert(((i + 1) % 16 == 0) <==> (i % 16 == 15)) by (nonlinear_arith)
        requires
            i >= 0,
    ;
}

/// Appends the decimal digits of `n` to `out`.
pub fn push_dec_u64(n: u64, out: &mut String)
    ensures
        final(out)@ == old(out)@ + dec_text(n as nat),
    decreases n,
{
    let ghost prefix: Seq<char> = out@;
    if n >= 10 {
        push_dec_u64(n / 10, out);
    }
    let d: u8 = (n % 10) as u8;
    out.push((48 + d) as char);
    proof {
        assert((48 + d) as char == dec_digit((n % 10) as int));
        if n < 10 {
            assert(out@ =~= prefix + dec_text(n as nat));
        } else {
            assert(out@ =~= prefix + dec_text(n as nat));
        }
    }
}

/// Appends the canonical decimal text of `v` to `out`.
pub fn push_dec_i64(v: i64, out: &mut String)
    ensures
        final(out)@ == old(out)@ + int_text(v as int),
{
    let ghost prefix: Seq<char> = out@;
    if v < 0 {
        out.push('-');
        let mag: u64 = ((-(v + 1)) as u64) + 1;
        assert(mag as nat == -(v as int));
        push_dec_u64(mag, out);
        assert(out@ =~= prefix + int_text(v as int));
    } else {
        push_dec_u64(v as u64, out);
    }
}

/// Character for one lowercase hexadecimal digit.
pub fn hex_digit_char(d: u8) -> (c: char)
    requires
        d < 16,
    ensures
        c == hex_digit(d as int),
{
    if d < 10 {
        (48 + d) as char
    } else {
        (87 + d) as char
    }
}

/// Appends the two-digit lowercase hex text of `b` to `out`.
pub fn push_hex_byte(b: u8, out: &mut String)
    ensures
        final(out)@ == old(out)@ + byte_hex(b),
{
    let ghost prefix: Seq<char> = out@;
    out.push(hex_digit_char(b / 16));
    out.push(hex_digit_char(b % 16));
    assert(out@ =~= prefix + byte_hex(b));
}

/// Appends the separator that follows the element at index `i`.
pub fn push_sep(i: usize, out: &mut String)
    ensures
        final(out)@ == old(out)@ + sep_text(i as int),
{
    let ghost prefix: Seq<char> = out@;
    out.push(',');
    if i % 16 == 15 {
        out.push('\n');
    } else {
        out.push(' ');
    }
    assert(out@ =~= prefix + sep_text(i as int));
}

/// Appends the escaped form of every character of `s` to `out`.
pub fn push_escaped(s: &str, out: &mut String)
    ensures
        final(out)@ == old(out)@ + escape_text(s@),
{
    let ghost prefix: Seq<char> = out@;
    let n: usize = s.unicode_len();
    let mut i: usize = 0;
    while i < n
        invariant
            n == s@.len(),
            i <= n,
            out@ == prefix + escape_text(s@.take(i as int)),
        decreases n - i,
    {
        let c = s.get_char(i);
        let code: u32 = c as u32;
        if c == '\n' || c == '\t' {
            out.push(c);
        } else if c == '\r' {
            out.push('\\');
            out.push('r');
        } else if code <= 0x1f || code == 0x7f {
            out.push('\\');
            out.push('x');
            out.push(hex_digit_char((code / 16) as u8));
            out.push(hex_digit_char((code % 16) as u8));
        } else {
            out.push(c);
        }
        proof {
            assert(s@.take(i + 1).drop_last() =~= s@.take(i as int));
            assert(s@.take(i + 1).last() == s@[i as int]);
            assert(out@ =~= prefix + escape_text(s@.take(i + 1)));
        }
        i = i + 1;
    }
    assert(s@.take(n as int) =~= s@);
}

} // verus!

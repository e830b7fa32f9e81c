//! The glyph sets that callers usually ask for.

use vstd::prelude::*;

verus! {

/// The characters whose codes run from `lo` to `hi`, both included, in order.
pub open spec fn char_run(lo: int, hi: int) -> Seq<char> {
    Seq::new((hi - lo + 1) as nat, |i: int| (lo + i) as char)
}

/// Digits, both cases of the letters a to f, and the letter x in both cases.
pub open spec fn hexdigit_chars() -> Seq<char> {
    seq!['0', '1', '2', '3', '4', '5', '6', '7', '8', '9', 'a', 'b', 'c', 'd', 'e', 'f',
        'A', 'B', 'C', 'D', 'E', 'F', 'x', 'X']
}

/// The printable ASCII characters but the space: '!' to '~'.
pub open spec fn ascii_chars() -> Seq<char> {
    char_run(0x21, 0x7e)
}

/// ASCII followed by the printable part of ISO-8859-1 above it: 0xA1 to 0xFF.
pub open spec fn latin1_chars() -> Seq<char> {
    ascii_chars() + char_run(0xa1, 0xff)
}

/// Latin-1 followed by the ligatures Œ, œ and the letter Ÿ.
pub open spec fn latin1_french_chars() -> Seq<char> {
    latin1_chars() + seq!['\u{0152}', '\u{0153}', '\u{0178}']
}

/// Appends the characters `lo..=hi` to `out`.
fn push_run(out: &mut Vec<char>, lo: u8, hi: u8)
    requires
        lo <= hi,
    ensures
        final(out)@ == old(out)@ + char_run(lo as int, hi as int),
{
    let mut c: u16 = lo as u16;
    while c <= hi as u16
        invariant
            lo <= c <= hi + 1,
            out@ =~= old(out)@ + char_run(lo as int, c - 1),
        decreases hi + 1 - c,
    {
        out.push(c as u8 as char);
        c = c + 1;
    }
}

/// The characters needed to display hexadecimal values.
pub fn hexdigits() -> (r: Vec<char>)
    ensures
        r@ == hexdigit_chars(),
{
    let r = vec!['0', '1', '2', '3', '4', '5', '6', '7', '8', '9', 'a', 'b', 'c', 'd', 'e', 'f',
        'A', 'B', 'C', 'D', 'E', 'F', 'x', 'X'];
    assert(r@ =~= hexdigit_chars());
    r
}

/// The characters needed to display ASCII text.
pub fn ascii() -> (r: Vec<char>)
    ensures
        r@ == ascii_chars(),
{
    let mut r: Vec<char> = Vec::new();
    push_run(&mut r, 0x21, 0x7e);
    assert(r@ =~= ascii_chars());
    r
}

/// The characters needed to display ISO-8859-1 ("Latin 1") text.
pub fn latin1() -> (r: Vec<char>)
    ensures
        r@ == latin1_chars(),
{
    let mut r = ascii();
    push_run(&mut r, 0xa1, 0xff);
    r
}

/// The characters needed to display ISO-8859-1 text with French support.
pub fn latin1_french() -> (r: Vec<char>)
    ensures
        r@ == latin1_french_chars(),
{
    let mut r = latin1();
    r.push('\u{0152}');
    r.push('\u{0153}');
    r.push('\u{0178}');
    assert(r@ =~= latin1_french_chars());
    r
}

} // verus!

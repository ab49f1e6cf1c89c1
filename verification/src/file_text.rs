//! The bytes of an exported text file: its lines ended as configured, in
//! the configured encoding.

use vstd::prelude::*;
use vstd::string::StrSliceExecFns;
use crate::enums::{Encoding, LineEnding};
use crate::text::{chars_of, push_char};

verus! {

/// The characters that end a line.
pub open spec fn eol_chars(le: LineEnding) -> Seq<char> {
    match le {
        LineEnding::Lf => seq!['\n'],
        LineEnding::CrLf => seq!['\r', '\n'],
        LineEnding::Cr => seq!['\r'],
    }
}

/// `t` with each `\n` replaced by `eol`.
pub open spec fn with_line_ending(t: Seq<char>, eol: Seq<char>) -> Seq<char>
    decreases t.len(),
{
    if t.len() == 0 {
        seq![]
    } else {
        with_line_ending(t.drop_last(), eol) + if t.last() == '\n' {
            eol
        } else {
            seq![t.last()]
        }
    }
}

/// The two bytes of a UTF-16 code unit, low byte first or high byte first.
pub open spec fn unit_bytes(u: int, little: bool) -> Seq<u8> {
    if little {
        seq![(u % 256) as u8, (u / 256) as u8]
    } else {
        seq![(u / 256) as u8, (u % 256) as u8]
    }
}

/// The UTF-16 bytes of a character: one code unit below U+10000, else a
/// surrogate pair (a character never lies beyond U+10FFFF).
pub open spec fn char_utf16(c: char, little: bool) -> Seq<u8> {
    let v = (c as u32) as int;
    if v < 0x10000 {
        unit_bytes(v, little)
    } else if v <= 0x10FFFF {
        unit_bytes(0xD800 + (v - 0x10000) / 1024, little) + unit_bytes(0xDC00 + (v - 0x10000) % 1024, little)
    } else {
        seq![]
    }
}

/// The UTF-16 bytes of a text.
pub open spec fn utf16_bytes(t: Seq<char>, little: bool) -> Seq<u8>
    decreases t.len(),
{
    if t.len() == 0 {
        seq![]
    } else {
        utf16_bytes(t.drop_last(), little) + char_utf16(t.last(), little)
    }
}

/// The bytes of a file holding `text` (lines ended with `\n`): its lines
/// ended with `le`, then encoded. UTF-8 with a byte order mark starts with
/// EF BB BF, UTF-16 with FF FE (little-endian) or FE FF (big-endian). The
/// Chinese encodings have no table here and are written as UTF-8.
pub open spec fn spec_file_bytes(text: Seq<char>, le: LineEnding, enc: Encoding) -> Seq<u8> {
    let t = with_line_ending(text, eol_chars(le));
    match enc {
        Encoding::Utf8Bom => seq![0xEFu8, 0xBBu8, 0xBFu8] + vstd::utf8::encode_utf8(t),
        Encoding::Utf16Le => seq![0xFFu8, 0xFEu8] + utf16_bytes(t, true),
        Encoding::Utf16Be => seq![0xFEu8, 0xFFu8] + utf16_bytes(t, false),
        _ => vstd::utf8::encode_utf8(t),
    }
}

/// `text` with each `\n` replaced by the line ending.
pub fn apply_line_ending(text: &str, le: LineEnding) -> (r: String)
    ensures
        r@ == with_line_ending(text@, eol_chars(le)),
{
    let v = chars_of(text);
    let mut out = String::new();
    let mut i: usize = 0;
    while i < v.len()
        invariant
            i <= v@.len(),
            v@ == text@,
            out@ == with_line_ending(v@.take(i as int), eol_chars(le)),
        decreases v.len() - i,
    {
        let c = v[i];
        assert(v@.take(i + 1).drop_last() =~= v@.take(i as int));
        assert(v@.take(i + 1).last() == c);
        if c == '\n' {
            match le {
                LineEnding::Lf => { push_char(&mut out, '\n'); },
                LineEnding::CrLf => {
                    let ghost o = out@;
                    push_char(&mut out, '\r');
                    push_char(&mut out, '\n');
                    assert(out@ =~= o + seq!['\r', '\n']);
                },
                LineEnding::Cr => { push_char(&mut out, '\r'); },
            }
        } else {
            push_char(&mut out, c);
        }
        assert(out@ =~= with_line_ending(v@.take(i + 1), eol_chars(le)));
        i = i + 1;
    }
    assert(v@.take(i as int) =~= v@);
    out
}

fn push_unit(out: &mut Vec<u8>, u: u32, little: bool)
    requires
        u < 0x10000,
    ensures
        final(out)@ == old(out)@ + unit_bytes(u as int, little),
{
    let lo = (u % 256) as u8;
    let hi = (u / 256) as u8;
    if little {
        out.push(lo);
        out.push(hi);
    } else {
        out.push(hi);
        out.push(lo);
    }
    assert(final(out)@ =~= old(out)@ + unit_bytes(u as int, little));
}

/// Appends the UTF-16 bytes of `text`.
fn push_utf16(out: &mut Vec<u8>, text: &str, little: bool)
    ensures
        final(out)@ == old(out)@ + utf16_bytes(text@, little),
{
    let v = chars_of(text);
    let ghost o = out@;
    let mut i: usize = 0;
    assert(o + utf16_bytes(v@.take(0), little) =~= o);
    while i < v.len()
        invariant
            i <= v@.len(),
            v@ == text@,
            out@ == o + utf16_bytes(v@.take(i as int), little),
        decreases v.len() - i,
    {
        let c = v[i];
        assert(v@.take(i + 1).drop_last() =~= v@.take(i as int));
        assert(v@.take(i + 1).last() == c);
        let x = c as u32;
        if x < 0x10000 {
            push_unit(out, x, little);
        } else if x <= 0x10FFFF {
            let w = x - 0x10000;
            push_unit(out, 0xD800 + w / 1024, little);
            push_unit(out, 0xDC00 + w % 1024, little);
        }
        assert(out@ =~= o + utf16_bytes(v@.take(i + 1), little));
        i = i + 1;
    }
    assert(v@.take(i as int) =~= v@);
}

/// The bytes of an exported file (see [`spec_file_bytes`]).
pub fn file_bytes(text: &str, le: LineEnding, enc: Encoding) -> (r: Vec<u8>)
    ensures
        r@ == spec_file_bytes(text@, le, enc),
{
    let t = apply_line_ending(text, le);
    let ts = t.as_str();
    match enc {
        Encoding::Utf8Bom => {
            let mut out: Vec<u8> = vec![0xEFu8, 0xBBu8, 0xBFu8];
            let b = ts.as_bytes_vec();
            let mut i: usize = 0;
            let ghost o = out@;
            while i < b.len()
                invariant
                    i <= b@.len(),
                    out@ == o + b@.take(i as int),
                decreases b.len() - i,
            {
                out.push(b[i]);
                assert(out@ =~= o + b@.take(i + 1));
                i = i + 1;
            }
            assert(b@.take(i as int) =~= b@);
            out
        },
        Encoding::Utf16Le => {
            let mut out: Vec<u8> = vec![0xFFu8, 0xFEu8];
            push_utf16(&mut out, ts, true);
            out
        },
        Encoding::Utf16Be => {
            let mut out: Vec<u8> = vec![0xFEu8, 0xFFu8];
            push_utf16(&mut out, ts, false);
            out
        },
        _ => ts.as_bytes_vec(),
    }
}

} // verus!

//! The renderers that compiled programs call. They take a specifier as the bytes that
//! were compiled in, render with the same functions as everything else, and write into
//! a buffer of the caller.

use crate::buffer::{write_out, wrote};
use crate::format_spec::{parsed, FormatSpec, Radix};
use crate::render::{span_128, span_64};
use vstd::prelude::*;
use vstd::utf8::{decode_utf8, encode_utf8_decode_utf8, valid_utf8};

verus! {

/// The specifier that asks for nothing.
pub open spec fn plain() -> FormatSpec {
    FormatSpec {
        fill: None,
        align: None,
        zero_pad: false,
        width: None,
        precision: None,
        radix: Radix::Dec,
    }
}

/// The bytes of a slice that may be absent.
pub open spec fn contents(bytes: Option<&[u8]>) -> Option<Seq<u8>> {
    match bytes {
        Some(b) => Some(b@),
        None => None,
    }
}

/// The specifier that `bytes` hold. Where there are none, or they are no specifier, it is
/// the one that asks for nothing.
pub open spec fn spec_in(bytes: Option<Seq<u8>>) -> FormatSpec {
    match bytes {
        Some(b) => if valid_utf8(b) && parsed(decode_utf8(b)) is Ok {
            parsed(decode_utf8(b))->Ok_0
        } else {
            plain()
        },
        None => plain(),
    }
}

/// The text that `bytes` hold; where there are none, or they are no text, it is empty.
pub open spec fn text_in(bytes: Option<Seq<u8>>) -> Seq<char> {
    match bytes {
        Some(b) => if valid_utf8(b) {
            decode_utf8(b)
        } else {
            seq![]
        },
        None => seq![],
    }
}

/// The number that two 64-bit words make up, the low one first.
pub open spec fn joined(lo: u64, hi: u64) -> nat {
    (hi * span_64() + lo) as nat
}

/// A 128-bit pattern read as a two's complement number.
pub open spec fn signed(raw: nat) -> int {
    if raw < span_128() / 2 {
        raw as int
    } else {
        raw - span_128()
    }
}

/// How an integer of 128 bits is rendered, which arrives as a bit pattern.
pub open spec fn pattern_text(spec: FormatSpec, raw: nat, is_unsigned: bool) -> Seq<char> {
    if is_unsigned {
        spec.uint_text(raw)
    } else {
        spec.int_text(signed(raw), span_128())
    }
}

/// The 128-bit pattern that stands for `v`, a number of a hole whose width gives `span`
/// values: decimal extends the sign, any other radix extends the pattern with zeros so
/// that it stays as wide as the hole.
pub open spec fn widened(radix: Radix, v: int, span: int) -> nat {
    if v >= 0 {
        v as nat
    } else if radix is Dec {
        (v + span_128()) as nat
    } else {
        (v + span) as nat
    }
}

/// Reads a specifier from bytes. It never fails: what cannot be read asks for nothing.
pub fn parse_spec(raw: Option<&[u8]>) -> (spec: FormatSpec)
    ensures
        spec == spec_in(contents(raw)),
{
    let default = FormatSpec {
        fill: None,
        align: None,
        zero_pad: false,
        width: None,
        precision: None,
        radix: Radix::Dec,
    };
    match raw {
        Some(bytes) => match core::str::from_utf8(bytes) {
            Ok(s) => {
                proof {
                    encode_utf8_decode_utf8(s@);
                }
                match FormatSpec::parse(s) {
                    Ok(spec) => spec,
                    Err(_) => default,
                }
            },
            Err(_) => default,
        },
        None => default,
    }
}

/// Renders an integer hole. The value arrives as two 64-bit words, the low one first;
/// `is_unsigned` other than zero says that the pattern is the magnitude. Returns how
/// many bytes were written.
pub fn karac_runtime_fmt_int(
    spec: Option<&[u8]>,
    lo: u64,
    hi: u64,
    is_unsigned: i32,
    out_buf: &mut [u8],
) -> (n: usize)
    requires
        spec_in(contents(spec)).holdable(
            pattern_text(spec_in(contents(spec)), joined(lo, hi), is_unsigned != 0),
        ),
    ensures
        wrote(
            old(out_buf)@,
            final(out_buf)@,
            pattern_text(spec_in(contents(spec)), joined(lo, hi), is_unsigned != 0),
            n as int,
        ),
{
    let fs = parse_spec(spec);
    let raw: u128 = (hi as u128) << 64 | lo as u128;
    assert((hi as u128) << 64 | lo as u128 == hi * 0x1_0000_0000_0000_0000 + lo) by (bit_vector);
    let rendered = if is_unsigned != 0 {
        fs.apply_uint128(raw)
    } else {
        assert(raw < 0x8000_0000_0000_0000_0000_0000_0000_0000 ==> raw as i128 == raw)
            by (bit_vector);
        assert(raw >= 0x8000_0000_0000_0000_0000_0000_0000_0000 ==> raw as i128 == raw
            - 0xffff_ffff_ffff_ffff_ffff_ffff_ffff_ffffu128 - 1) by (bit_vector);
        fs.apply_int128(raw as i128)
    };
    write_out(rendered.as_str(), out_buf)
}

/// Renders a float hole. `body` is the text of the value, with as many fractional digits
/// as [`FormatSpec::float_digits`] of the specifier says.
pub fn karac_runtime_fmt_float(spec: Option<&[u8]>, body: &str, out_buf: &mut [u8]) -> (n: usize)
    requires
        spec_in(contents(spec)).holdable(spec_in(contents(spec)).float_text(body@)),
    ensures
        wrote(
            old(out_buf)@,
            final(out_buf)@,
            spec_in(contents(spec)).float_text(body@),
            n as int,
        ),
{
    let fs = parse_spec(spec);
    let rendered = fs.apply_float(body);
    write_out(rendered.as_str(), out_buf)
}

/// Renders a string hole: width, alignment and fill.
pub fn karac_runtime_fmt_str(
    spec: Option<&[u8]>,
    s: Option<&[u8]>,
    out_buf: &mut [u8],
) -> (n: usize)
    requires
        spec_in(contents(spec)).holdable(
            spec_in(contents(spec)).str_text(text_in(contents(s))),
        ),
    ensures
        wrote(
            old(out_buf)@,
            final(out_buf)@,
            spec_in(contents(spec)).str_text(text_in(contents(s))),
            n as int,
        ),
{
    let fs = parse_spec(spec);
    let empty = String::new();
    let source: &str = match s {
        Some(bytes) => match core::str::from_utf8(bytes) {
            Ok(t) => {
                proof {
                    encode_utf8_decode_utf8(t@);
                }
                t
            },
            Err(_) => empty.as_str(),
        },
        None => empty.as_str(),
    };
    let rendered = fs.apply_str(source);
    write_out(rendered.as_str(), out_buf)
}

} // verus!

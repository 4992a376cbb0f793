//! Renderers for specifiers that were decoded when the program was compiled. They take
//! the decoded fields as operands and write straight into the caller's buffer: nothing
//! is parsed and nothing is allocated.

use crate::buffer::{encodings_join, overlay, overlays_join, put_bytes, put_run, wrote};
use crate::digits::{latin, write_numeral};
use crate::format_spec::{Align, Radix};
use crate::lowering::radix_of_code;
use crate::render::{has_minus, number, sign_text, span_128, without_minus};
use crate::runtime::joined;
use crate::text::run;
use vstd::prelude::*;
use vstd::string::StrSliceExecFns;
use vstd::utf8::{encode_utf8, is_ascii_chars, is_ascii_chars_encode_utf8};

verus! {

/// Whether a 128-bit pattern is shown with a minus: only a signed decimal can be.
pub open spec fn is_negative(raw: nat, signed: bool, radix: Radix) -> bool {
    signed && radix is Dec && raw >= span_128() / 2
}

/// A width operand: zero and below ask for no width.
pub open spec fn operand_width(width: i64) -> nat {
    if width > 0 {
        width as nat
    } else {
        0
    }
}

/// Which side the operands put the padding on.
pub open spec fn operand_align(align_left: i32) -> Align {
    if align_left != 0 {
        Align::Left
    } else {
        Align::Right
    }
}

/// How an integer is rendered whose pattern is `raw`.
pub open spec fn integer_text(
    raw: nat,
    signed: bool,
    radix: Radix,
    zero_pad: bool,
    width: nat,
    align: Align,
) -> Seq<char> {
    let neg = is_negative(raw, signed, radix);
    let magnitude = if neg {
        (span_128() - raw) as nat
    } else {
        raw
    };
    number(sign_text(neg), radix.digits(magnitude), zero_pad, width, align, ' ')
}

/// Equal characters of ASCII are encoded as equal bytes.
proof fn run_is_encoded(c: char, n: nat)
    requires
        c <= '\u{7f}',
    ensures
        encode_utf8(run(c, n)) == Seq::new(n, |i: int| c as u8),
{
    assert(is_ascii_chars(run(c, n)));
    is_ascii_chars_encode_utf8(run(c, n));
    assert(encode_utf8(run(c, n)) =~= Seq::new(n, |i: int| c as u8));
}

/// Bytes of ASCII are the encoding of the characters that they stand for.
proof fn latin_is_encoded(bytes: Seq<u8>)
    requires
        forall|i: int| 0 <= i < bytes.len() ==> #[trigger] bytes[i] < 128,
    ensures
        encode_utf8(latin(bytes)) == bytes,
{
    let text = latin(bytes);
    assert forall|i: int| 0 <= i < text.len() implies '\0' <= #[trigger] text[i] <= '\u{7f}' by {
        assert(bytes[i] < 128);
    }
    is_ascii_chars_encode_utf8(text);
    assert(encode_utf8(text) =~= bytes);
}

/// A number is padding, a sign, zeros, digits and padding, of which some are empty.
proof fn number_in_pieces(
    sign: Seq<char>,
    digits: Seq<char>,
    zero_pad: bool,
    width: nat,
    left: bool,
    pad: nat,
)
    requires
        pad == if sign.len() + digits.len() < width {
            width - sign.len() - digits.len()
        } else {
            0
        },
    ensures
        number(
            sign,
            digits,
            zero_pad,
            width,
            if left {
                Align::Left
            } else {
                Align::Right
            },
            ' ',
        ) == run(
            ' ',
            if zero_pad || left {
                0
            } else {
                pad
            },
        ) + sign + run(
            '0',
            if zero_pad {
                pad
            } else {
                0
            },
        ) + digits + run(
            ' ',
            if left && !zero_pad {
                pad
            } else {
                0
            },
        ),
{
    let align = if left {
        Align::Left
    } else {
        Align::Right
    };
    let pieces = run(
        ' ',
        if zero_pad || left {
            0
        } else {
            pad
        },
    ) + sign + run(
        '0',
        if zero_pad {
            pad
        } else {
            0
        },
    ) + digits + run(
        ' ',
        if left && !zero_pad {
            pad
        } else {
            0
        },
    );
    assert(number(sign, digits, zero_pad, width, align, ' ') =~= pieces);
}

/// Goes on writing: `n` times the character of the byte `b` behind `prefix`.
fn append_run(
    out: &mut [u8],
    at: usize,
    b: u8,
    n: u64,
    before: Ghost<Seq<u8>>,
    prefix: Ghost<Seq<char>>,
) -> (end: usize)
    requires
        b < 128,
        wrote(before@, old(out)@, prefix@, at as int),
    ensures
        wrote(before@, final(out)@, prefix@ + run(b as char, n as nat), end as int),
{
    proof {
        run_is_encoded(b as char, n as nat);
        encodings_join(prefix@, run(b as char, n as nat));
        overlays_join(before@, encode_utf8(prefix@), encode_utf8(run(b as char, n as nat)));
        assert(b as char as u8 == b);
        assert(Seq::new(n as nat, |i: int| b) =~= encode_utf8(run(b as char, n as nat)));
    }
    put_run(out, at, b, n)
}

/// Goes on writing: the text that `bytes` encode behind `prefix`.
fn append_bytes(
    out: &mut [u8],
    at: usize,
    bytes: &[u8],
    text: Ghost<Seq<char>>,
    before: Ghost<Seq<u8>>,
    prefix: Ghost<Seq<char>>,
) -> (end: usize)
    requires
        bytes@ == encode_utf8(text@),
        wrote(before@, old(out)@, prefix@, at as int),
    ensures
        wrote(before@, final(out)@, prefix@ + text@, end as int),
{
    proof {
        encodings_join(prefix@, text@);
        overlays_join(before@, encode_utf8(prefix@), encode_utf8(text@));
    }
    put_bytes(out, at, bytes)
}

/// Lays a sign and digits out in a field and writes them. `len` is how many characters
/// the digits have.
fn put_number(
    out: &mut [u8],
    neg: bool,
    digits: &[u8],
    len: usize,
    zero_pad: bool,
    width: u64,
    left: bool,
    text: Ghost<Seq<char>>,
) -> (n: usize)
    requires
        digits@ == encode_utf8(text@),
        len == text@.len(),
    ensures
        wrote(
            old(out)@,
            final(out)@,
            number(
                sign_text(neg),
                text@,
                zero_pad,
                width as nat,
                if left {
                    Align::Left
                } else {
                    Align::Right
                },
                ' ',
            ),
            n as int,
        ),
{
    let ghost before = out@;
    let sign_len: u64 = if neg {
        1
    } else {
        0
    };
    let room: u64 = if width > sign_len {
        width - sign_len
    } else {
        0
    };
    let pad: u64 = if room as u128 > len as u128 {
        room - len as u64
    } else {
        0
    };
    let lead: u64 = if zero_pad || left {
        0
    } else {
        pad
    };
    let zeros: u64 = if zero_pad {
        pad
    } else {
        0
    };
    let tail: u64 = if left && !zero_pad {
        pad
    } else {
        0
    };
    let ghost nothing = Seq::<char>::empty();
    let ghost a = nothing + run(' ', lead as nat);
    let ghost b = a + run('-', sign_len as nat);
    let ghost c = b + run('0', zeros as nat);
    let ghost d = c + text@;
    proof {
        number_in_pieces(sign_text(neg), text@, zero_pad, width as nat, left, pad as nat);
        assert(sign_text(neg) =~= run('-', sign_len as nat));
        assert(a =~= run(' ', lead as nat));
        assert(overlay(before, 0, encode_utf8(nothing)) =~= before);
    }
    let at: usize = append_run(out, 0, 32, lead, Ghost(before), Ghost(nothing));
    let at: usize = append_run(out, at, 45, sign_len, Ghost(before), Ghost(a));
    let at: usize = append_run(out, at, 48, zeros, Ghost(before), Ghost(b));
    let at: usize = append_bytes(out, at, digits, text, Ghost(before), Ghost(c));
    append_run(out, at, 32, tail, Ghost(before), Ghost(d))
}

/// The radix that an operand stands for.
fn decode_radix(code: i32) -> (r: Radix)
    requires
        radix_of_code(code as int) is Some,
    ensures
        radix_of_code(code as int) == Some(r),
{
    if code == 10 {
        Radix::Dec
    } else if code == 8 {
        Radix::Oct
    } else if code == 16 {
        Radix::Hex
    } else if code == -16 {
        Radix::HexUpper
    } else {
        Radix::Bin
    }
}

/// Renders an integer hole from decoded operands. The value arrives as two 64-bit words,
/// the low one first; `radix` is what `FormatSpec::fast_radix_code` gives, and a `width`
/// of zero is none. Returns how many bytes were written.
pub fn karac_runtime_int_fmt(
    lo: u64,
    hi: u64,
    signed: i32,
    radix: i32,
    zero_pad: i32,
    width: i64,
    align_left: i32,
    out_buf: &mut [u8],
) -> (n: usize)
    requires
        radix_of_code(radix as int) is Some,
    ensures
        wrote(
            old(out_buf)@,
            final(out_buf)@,
            integer_text(
                joined(lo, hi),
                signed != 0,
                radix_of_code(radix as int)->0,
                zero_pad != 0,
                operand_width(width),
                operand_align(align_left),
            ),
            n as int,
        ),
{
    let raw: u128 = (hi as u128) << 64 | lo as u128;
    assert((hi as u128) << 64 | lo as u128 == hi * 0x1_0000_0000_0000_0000 + lo) by (bit_vector);
    let radix = decode_radix(radix);
    let neg = signed != 0 && radix == Radix::Dec && raw >= 0x8000_0000_0000_0000_0000_0000_0000_0000;
    let magnitude: u128 = if neg {
        0xffff_ffff_ffff_ffff_ffff_ffff_ffff_ffff - raw + 1
    } else {
        raw
    };
    let base: u8 = match radix {
        Radix::Dec => 10,
        Radix::Hex => 16,
        Radix::HexUpper => 16,
        Radix::Oct => 8,
        Radix::Bin => 2,
    };
    let mut scratch: [u8; 128] = [0u8; 128];
    let start: usize = write_numeral(magnitude, base, radix == Radix::HexUpper, &mut scratch);
    let digits = vstd::slice::slice_subrange(&scratch, start, 128);
    let wide: u64 = if width > 0 {
        width as u64
    } else {
        0
    };
    let ghost text = radix.digits(magnitude as nat);
    proof {
        assert(digits@ =~= scratch@.skip(start as int));
        assert forall|i: int| 0 <= i < digits@.len() implies #[trigger] digits@[i] < 128 by {
            assert(scratch@[start + i] < 128);
        }
        latin_is_encoded(digits@);
    }
    put_number(
        out_buf,
        neg,
        digits,
        128 - start,
        zero_pad != 0,
        wide,
        align_left != 0,
        Ghost(text),
    )
}

/// Renders a float hole from decoded operands. `body` is the text of the value; a `width`
/// of zero is none. Returns how many bytes were written, which is never more than the
/// buffer holds.
pub fn karac_runtime_f64_fmt(
    body: &str,
    zero_pad: i32,
    width: i64,
    align_left: i32,
    out_buf: &mut [u8],
) -> (n: usize)
    ensures
        wrote(
            old(out_buf)@,
            final(out_buf)@,
            number(
                sign_text(has_minus(body@)),
                without_minus(body@),
                zero_pad != 0,
                operand_width(width),
                operand_align(align_left),
                ' ',
            ),
            n as int,
        ),
{
    let wide: u64 = if width > 0 {
        width as u64
    } else {
        0
    };
    let len: usize = body.unicode_len();
    if len > 0 && body.get_char(0) == '-' {
        let rest = body.substring_char(1, len);
        put_number(
            out_buf,
            true,
            rest.as_bytes(),
            len - 1,
            zero_pad != 0,
            wide,
            align_left != 0,
            Ghost(rest@),
        )
    } else {
        put_number(
            out_buf,
            false,
            body.as_bytes(),
            len,
            zero_pad != 0,
            wide,
            align_left != 0,
            Ghost(body@),
        )
    }
}

} // verus!

//! What the functions of the library give back, stated of their arguments and results
//! alone, and how the results of two calls relate.

use crate::buffer::what_is_reported_was_written;
use crate::digits::numeral;
use crate::fast::{karac_runtime_f64_fmt, karac_runtime_int_fmt};
use crate::format_spec::{parsed, Align, FormatSpec, Radix};
use crate::grammar::unknown_type_is_refused;
use crate::laws::{
    bytes_hold_what_they_encode,
    decoded_integer_shows_its_numeral,
    float_shows_its_text,
    number_stands_in_its_field,
    pattern_is_read_as_its_number,
    pattern_is_shown_at_128_bits,
    pattern_is_shown_at_64_bits,
    string_stands_in_its_field,
    words_make_up_the_number,
};
use crate::lowering::conversion_is_spelled_as_c_reads_it;
use crate::probe::{
    get_sink,
    hit_sum,
    key,
    key_sum,
    live_map,
    loop_sink,
    sinks_grow_key_by_key,
    state_at,
    step,
};
use crate::render::{span_128, span_64};
use crate::runtime::{
    karac_runtime_fmt_float,
    karac_runtime_fmt_int,
    karac_runtime_fmt_str,
    parse_spec,
};
use std::collections::HashMap;
use vstd::arithmetic::power2::{lemma2_to64, pow2};
use vstd::prelude::*;
use vstd::utf8::{encode_utf8, valid_utf8};

verus! {

/// Reading gives the specifier that the text says, or the message of the first fault in it.
pub proof fn parse_gives_the_specifier_or_the_fault(raw: &str, r: Result<FormatSpec, String>)
    requires
        call_ensures(FormatSpec::parse, (raw,), r),
    ensures
        parsed(raw@) is Ok ==> r is Ok && r->Ok_0 == parsed(raw@)->Ok_0,
        parsed(raw@) is Err ==> r is Err && r->Err_0@ == parsed(raw@)->Err_0.message(raw@),
        call_requires(FormatSpec::parse, (raw,)),
{
}

/// Nothing is read that ends in anything but a digit, an alignment or a type.
pub proof fn parse_refuses_an_unknown_type(raw: &str, r: Result<FormatSpec, String>)
    requires
        call_ensures(FormatSpec::parse, (raw,), r),
        raw@.len() > 0,
        !('0' <= raw@.last() && raw@.last() <= '9'),
        raw@.last() != '<' && raw@.last() != '>' && raw@.last() != '^',
        raw@.last() != 'x' && raw@.last() != 'X',
        raw@.last() != 'o' && raw@.last() != 'b' && raw@.last() != 'd',
    ensures
        r is Err,
{
    unknown_type_is_refused(raw@);
}

/// A rendered string holds the string where the alignment puts it, at the end by default,
/// and fill all around it.
pub proof fn rendered_string_is_framed(spec: FormatSpec, s: &str, r: String)
    requires
        call_ensures(FormatSpec::apply_str, (&spec, s), r),
    ensures
        ({
            let fill = match spec.fill {
                Some(c) => c,
                None => ' ',
            };
            let missing: int = match spec.width {
                Some(w) => if s@.len() < w {
                    w - s@.len()
                } else {
                    0
                },
                None => 0,
            };
            let from: int = match spec.align {
                Some(Align::Left) => 0,
                Some(Align::Center) => missing / 2,
                Some(Align::Right) => missing,
                None => missing,
            };
            &&& r@.len() == s@.len() + missing
            &&& r@.subrange(from, from + s@.len()) == s@
            &&& forall|i: int|
                0 <= i < from || from + s@.len() <= i < r@.len() ==> r@[i] == fill
        }),
{
    string_stands_in_its_field(spec, s@);
}

/// A rendered number has a sign and digits. Integers have the numeral of their magnitude in
/// decimal and that of their bits in any other radix; a float has its text. Under the zero
/// flag the sign is first, the digits are last and zeros are between them; else both stand
/// together where the alignment puts them, at the end by default, with fill all around them.
#[verifier::rlimit(40)]
pub proof fn rendered_number_is_framed(
    spec: FormatSpec,
    narrow: i64,
    wide: i128,
    unsigned: u64,
    wide_unsigned: u128,
    body: &str,
    sign: Seq<char>,
    digits: Seq<char>,
    r: String,
)
    requires
        ({
            let show = |n: nat|
                match spec.radix {
                    Radix::Dec => numeral(n, 10, false),
                    Radix::Hex => numeral(n, 16, false),
                    Radix::HexUpper => numeral(n, 16, true),
                    Radix::Oct => numeral(n, 8, false),
                    Radix::Bin => numeral(n, 2, false),
                };
            let minus = |neg: bool|
                if neg && spec.radix == Radix::Dec {
                    seq!['-']
                } else {
                    seq![]
                };
            ||| {
                &&& call_ensures(FormatSpec::apply_int, (&spec, narrow), r)
                &&& sign == minus(narrow < 0)
                &&& digits == if spec.radix == Radix::Dec && narrow < 0 {
                    show((-narrow) as nat)
                } else {
                    show((narrow as u64) as nat)
                }
            }
            ||| {
                &&& call_ensures(FormatSpec::apply_int128, (&spec, wide), r)
                &&& sign == minus(wide < 0)
                &&& digits == if spec.radix == Radix::Dec && wide < 0 {
                    show((-wide) as nat)
                } else {
                    show((wide as u128) as nat)
                }
            }
            ||| {
                &&& call_ensures(FormatSpec::apply_uint, (&spec, unsigned), r)
                &&& sign == minus(false)
                &&& digits == show(unsigned as nat)
            }
            ||| {
                &&& call_ensures(FormatSpec::apply_uint128, (&spec, wide_unsigned), r)
                &&& sign == minus(false)
                &&& digits == show(wide_unsigned as nat)
            }
            ||| {
                &&& call_ensures(FormatSpec::apply_float, (&spec, body), r)
                &&& body@ == sign + digits
                &&& sign == seq!['-'] || (sign.len() == 0 && (digits.len() == 0 || digits[0]
                    != '-'))
            }
        }),
    ensures
        ({
            let fill = match spec.fill {
                Some(c) => c,
                None => ' ',
            };
            let have = sign.len() + digits.len();
            let missing: int = match spec.width {
                Some(w) => if have < w {
                    w - have
                } else {
                    0
                },
                None => 0,
            };
            let from: int = match spec.align {
                Some(Align::Left) => 0,
                Some(Align::Center) => missing / 2,
                Some(Align::Right) => missing,
                None => missing,
            };
            &&& r@.len() == have + missing
            &&& spec.zero_pad ==> r@.subrange(0, sign.len() as int) == sign
            &&& spec.zero_pad ==> r@.subrange(r@.len() - digits.len(), r@.len() as int) == digits
            &&& spec.zero_pad ==> forall|i: int|
                sign.len() <= i < r@.len() - digits.len() ==> r@[i] == '0'
            &&& !spec.zero_pad ==> r@.subrange(from, from + have) == sign + digits
            &&& !spec.zero_pad ==> forall|i: int|
                0 <= i < from || from + have <= i < r@.len() ==> r@[i] == fill
        }),
{
    assert(r@ == spec.number_text(sign, digits)) by {
        assert(narrow >= 0 ==> narrow as u64 == narrow) by (bit_vector);
        assert(wide >= 0 ==> wide as u128 == wide) by (bit_vector);
        if spec.radix != Radix::Dec {
            pattern_is_shown_at_64_bits(spec, narrow);
            pattern_is_shown_at_128_bits(spec, wide);
        }
        float_shows_its_text(spec, body@);
        if body@ == sign + digits && sign == seq!['-'] {
            assert(body@[0] == '-');
            assert(body@.subrange(1, body@.len() as int) =~= digits);
        } else if body@ == sign + digits && sign.len() == 0 {
            assert(sign =~= Seq::<char>::empty());
            assert(body@ =~= digits);
        }
    }
    number_stands_in_its_field(spec, sign, digits);
    string_stands_in_its_field(spec, sign + digits);
}

/// A float is written with as many fractional digits as the precision says. Without one it
/// is written with one if it is integral, and in its natural form if not.
pub proof fn float_digits_is_the_precision(spec: FormatSpec, integral: bool, n: Option<usize>)
    requires
        call_ensures(FormatSpec::float_digits, (&spec, integral), n),
    ensures
        spec.precision is Some ==> n == spec.precision,
        spec.precision is None && integral ==> n == Some(1usize),
        spec.precision is None && !integral ==> n is None,
{
}

/// Every text that a string can hold is rendered, and every field of up to a quarter as many
/// characters as a string has bytes.
pub proof fn renderers_take_what_fits(
    spec: FormatSpec,
    narrow: i64,
    wide: i128,
    unsigned: u64,
    wide_unsigned: u128,
    body: &str,
)
    requires
        spec.width is None || spec.width->0 <= isize::MAX / 4,
    ensures
        call_requires(FormatSpec::apply_int, (&spec, narrow)),
        call_requires(FormatSpec::apply_int128, (&spec, wide)),
        call_requires(FormatSpec::apply_uint, (&spec, unsigned)),
        call_requires(FormatSpec::apply_uint128, (&spec, wide_unsigned)),
        call_requires(FormatSpec::apply_float, (&spec, body)),
        call_requires(FormatSpec::apply_str, (&spec, body)),
{
}

/// Compiled programs can render what a direct call can, with any specifier in bytes and
/// into any buffer.
pub proof fn compiled_renderers_take_what_fits(
    spec_bytes: Option<&[u8]>,
    spec: FormatSpec,
    lo: u64,
    hi: u64,
    is_unsigned: i32,
    body: &str,
    bytes: Option<&[u8]>,
    out: &mut [u8],
)
    requires
        call_ensures(parse_spec, (spec_bytes,), spec),
        spec.width is None || spec.width->0 <= isize::MAX / 4,
    ensures
        call_requires(karac_runtime_fmt_int, (spec_bytes, lo, hi, is_unsigned, out)),
        call_requires(karac_runtime_fmt_float, (spec_bytes, body, out)),
        call_requires(karac_runtime_fmt_str, (spec_bytes, bytes, out)),
{
}

/// A wider field is rendered as long as its text is one that a string can hold.
pub proof fn wide_fields_are_taken_where_they_fit(
    spec: FormatSpec,
    narrow: i64,
    wide: i128,
    unsigned: u64,
    wide_unsigned: u128,
    body: &str,
)
    ensures
        encode_utf8(spec.int_text(narrow as int, span_64())).len() <= isize::MAX
            ==> call_requires(FormatSpec::apply_int, (&spec, narrow)),
        encode_utf8(spec.int_text(wide as int, span_128())).len() <= isize::MAX
            ==> call_requires(FormatSpec::apply_int128, (&spec, wide)),
        encode_utf8(spec.uint_text(unsigned as nat)).len() <= isize::MAX ==> call_requires(
            FormatSpec::apply_uint,
            (&spec, unsigned),
        ),
        encode_utf8(spec.uint_text(wide_unsigned as nat)).len() <= isize::MAX ==> call_requires(
            FormatSpec::apply_uint128,
            (&spec, wide_unsigned),
        ),
        encode_utf8(spec.float_text(body@)).len() <= isize::MAX ==> call_requires(
            FormatSpec::apply_float,
            (&spec, body),
        ),
        encode_utf8(spec.str_text(body@)).len() <= isize::MAX ==> call_requires(
            FormatSpec::apply_str,
            (&spec, body),
        ),
{
}

/// Everything else can be asked of every argument, and the decoded renderer of every radix
/// operand that is a base.
pub proof fn everything_else_can_be_asked(
    spec: FormatSpec,
    raw: &str,
    bytes: Option<&[u8]>,
    conv: char,
    flag: bool,
    ops: u32,
    lo: u64,
    hi: u64,
    radix: i32,
    operand: i32,
    width: i64,
    out: &mut [u8],
)
    ensures
        call_requires(FormatSpec::parse, (raw,)),
        call_requires(parse_spec, (bytes,)),
        call_requires(FormatSpec::float_digits, (&spec, flag)),
        call_requires(FormatSpec::needs_runtime_formatter, (&spec,)),
        call_requires(FormatSpec::int_conv, (&spec,)),
        call_requires(FormatSpec::fast_radix_code, (&spec,)),
        call_requires(FormatSpec::numeric_align_left, (&spec,)),
        call_requires(FormatSpec::to_printf, (&spec, raw, conv, flag)),
        call_requires(karac_runtime_f64_fmt, (raw, operand, width, operand, out)),
        radix == 10 || radix == 8 || radix == 16 || radix == -16 || radix == 2 ==> call_requires(
            karac_runtime_int_fmt,
            (lo, hi, operand, radix, operand, width, operand, out),
        ),
        call_requires(loop_sink, (ops,)),
        call_requires(get_sink, (ops,)),
        call_requires(live_map, ()),
{
}

/// A copy of a specifier is the specifier.
pub proof fn copy_is_the_same(spec: FormatSpec, copy: FormatSpec)
    requires
        call_ensures(FormatSpec::clone, (&spec,), copy),
    ensures
        copy == spec,
{
}

/// The queries of a code generator: `printf` lacks centring, binary and a fill other than
/// the space; the conversion character is the type; the operand is the base, negative for
/// capitals; and only `<` is on the left.
pub proof fn queries_follow_the_fields(
    spec: FormatSpec,
    beyond: bool,
    conv: char,
    code: i32,
    left: bool,
)
    requires
        call_ensures(FormatSpec::needs_runtime_formatter, (&spec,), beyond),
        call_ensures(FormatSpec::int_conv, (&spec,), conv),
        call_ensures(FormatSpec::fast_radix_code, (&spec,), code),
        call_ensures(FormatSpec::numeric_align_left, (&spec,), left),
    ensures
        beyond <==> spec.align == Some(Align::Center) || spec.radix == Radix::Bin || (spec.fill
            is Some && spec.fill->0 != ' '),
        spec.radix == Radix::Dec ==> conv == 'd' && code == 10,
        spec.radix == Radix::Hex ==> conv == 'x' && code == 16,
        spec.radix == Radix::HexUpper ==> conv == 'X' && code == -16,
        spec.radix == Radix::Oct ==> conv == 'o' && code == 8,
        spec.radix == Radix::Bin ==> conv == 'd' && code == 2,
        left <==> spec.align == Some(Align::Left),
{
}

/// The conversion is the percent sign, the flags, the width, a dot with the precision, the
/// length modifier and the conversion character. The flag `-` is for `<`, and gives way to
/// zeros that the width has room for.
pub proof fn conversion_holds_every_part(
    spec: FormatSpec,
    length_mod: &str,
    conv: char,
    numeric: bool,
    r: String,
)
    requires
        call_ensures(FormatSpec::to_printf, (&spec, length_mod, conv, numeric), r),
    ensures
        ({
            let room = numeric && spec.zero_pad && spec.width is Some && spec.width->0 >= 2;
            r@ == seq!['%'] + (if spec.align == Some(Align::Left) && !room {
                seq!['-']
            } else {
                seq![]
            }) + (if numeric && spec.zero_pad {
                seq!['0']
            } else {
                seq![]
            }) + (match spec.width {
                Some(w) => numeral(w as nat, 10, false),
                None => seq![],
            }) + (match spec.precision {
                Some(p) => seq!['.'] + numeral(p as nat, 10, false),
                None => seq![],
            }) + length_mod@ + seq![conv]
        }),
{
    conversion_is_spelled_as_c_reads_it(spec, length_mod@, conv, numeric);
}

/// A specifier in bytes is the one that the text they encode is read as. Where they are
/// absent, are no text or are refused, it has no part at all.
pub proof fn bytes_are_read_like_the_text(
    bytes: Option<&[u8]>,
    raw: &str,
    direct: Result<FormatSpec, String>,
    spec: FormatSpec,
)
    requires
        call_ensures(parse_spec, (bytes,), spec),
        call_ensures(FormatSpec::parse, (raw,), direct),
    ensures
        ({
            let nothing = FormatSpec {
                fill: None,
                align: None,
                zero_pad: false,
                width: None,
                precision: None,
                radix: Radix::Dec,
            };
            &&& bytes is None ==> spec == nothing
            &&& bytes is Some && !valid_utf8(bytes->0@) ==> spec == nothing
            &&& bytes is Some && bytes->0@ == encode_utf8(raw@) && direct is Ok ==> spec
                == direct->Ok_0
            &&& bytes is Some && bytes->0@ == encode_utf8(raw@) && direct is Err ==> spec
                == nothing
        }),
{
    if let Some(b) = bytes {
        bytes_hold_what_they_encode(b, raw@);
    }
}

/// A compiled string hole writes what the direct call gives: the buffer begins with its
/// bytes, as far as there is room, and keeps its own behind them.
pub proof fn compiled_string_is_the_rendered_one(
    spec_bytes: Option<&[u8]>,
    bytes: Option<&[u8]>,
    out: &mut [u8],
    n: usize,
    spec: FormatSpec,
    s: &str,
    r: String,
)
    requires
        call_ensures(karac_runtime_fmt_str, (spec_bytes, bytes, out), n),
        call_ensures(parse_spec, (spec_bytes,), spec),
        call_ensures(FormatSpec::apply_str, (&spec, s), r),
        match bytes {
            Some(b) => if valid_utf8(b@) {
                b@ == encode_utf8(s@)
            } else {
                s@ == Seq::<char>::empty()
            },
            None => s@ == Seq::<char>::empty(),
        },
    ensures
        final(out)@.len() == old(out)@.len(),
        n == old(out)@.len() || n == encode_utf8(r@).len(),
        n <= old(out)@.len() && n <= encode_utf8(r@).len(),
        final(out)@.take(n as int) == encode_utf8(r@).take(n as int),
        final(out)@.skip(n as int) == old(out)@.skip(n as int),
{
    if let Some(b) = bytes {
        bytes_hold_what_they_encode(b, s@);
    }
    what_is_reported_was_written(old(out)@, final(out)@, r@, n as int);
}

/// A compiled float hole writes what the direct call gives.
pub proof fn compiled_float_is_the_rendered_one(
    spec_bytes: Option<&[u8]>,
    body: &str,
    out: &mut [u8],
    n: usize,
    spec: FormatSpec,
    r: String,
)
    requires
        call_ensures(karac_runtime_fmt_float, (spec_bytes, body, out), n),
        call_ensures(parse_spec, (spec_bytes,), spec),
        call_ensures(FormatSpec::apply_float, (&spec, body), r),
    ensures
        final(out)@.len() == old(out)@.len(),
        n == old(out)@.len() || n == encode_utf8(r@).len(),
        n <= old(out)@.len() && n <= encode_utf8(r@).len(),
        final(out)@.take(n as int) == encode_utf8(r@).take(n as int),
        final(out)@.skip(n as int) == old(out)@.skip(n as int),
{
    what_is_reported_was_written(old(out)@, final(out)@, r@, n as int);
}

/// A compiled integer hole writes what the direct call gives for the number that its two
/// words make up.
pub proof fn compiled_integer_is_the_rendered_one(
    spec_bytes: Option<&[u8]>,
    lo: u64,
    hi: u64,
    is_unsigned: i32,
    out: &mut [u8],
    n: usize,
    spec: FormatSpec,
    v: i128,
    u: u128,
    r: String,
)
    requires
        call_ensures(karac_runtime_fmt_int, (spec_bytes, lo, hi, is_unsigned, out), n),
        call_ensures(parse_spec, (spec_bytes,), spec),
        u == hi * pow2(64) + lo,
        u == v as u128,
        is_unsigned != 0 ==> call_ensures(FormatSpec::apply_uint128, (&spec, u), r),
        is_unsigned == 0 ==> call_ensures(FormatSpec::apply_int128, (&spec, v), r),
    ensures
        final(out)@.len() == old(out)@.len(),
        n == old(out)@.len() || n == encode_utf8(r@).len(),
        n <= old(out)@.len() && n <= encode_utf8(r@).len(),
        final(out)@.take(n as int) == encode_utf8(r@).take(n as int),
        final(out)@.skip(n as int) == old(out)@.skip(n as int),
{
    words_make_up_the_number(lo, hi);
    pattern_is_read_as_its_number(spec, v, u);
    what_is_reported_was_written(old(out)@, final(out)@, r@, n as int);
}

/// A hole that is rendered from decoded operands writes what the direct call gives for the
/// specifier that they were decoded from. Centring and a fill have no operand.
pub proof fn decoded_integer_is_the_rendered_one(
    lo: u64,
    hi: u64,
    signed: i32,
    radix: i32,
    zero_pad: i32,
    width: i64,
    align_left: i32,
    out: &mut [u8],
    n: usize,
    spec: FormatSpec,
    v: i128,
    u: u128,
    r: String,
)
    requires
        call_ensures(
            karac_runtime_int_fmt,
            (lo, hi, signed, radix, zero_pad, width, align_left, out),
            n,
        ),
        call_ensures(FormatSpec::fast_radix_code, (&spec,), radix),
        spec.fill is None || spec.fill == Some(' '),
        zero_pad != 0 <==> spec.zero_pad,
        width > 0 ==> spec.width is Some && spec.width->0 == width,
        width <= 0 ==> spec.width is None || spec.width == Some(0usize),
        align_left != 0 ==> spec.align == Some(Align::Left),
        align_left == 0 ==> spec.align is None || spec.align == Some(Align::Right),
        u == hi * pow2(64) + lo,
        u == v as u128,
        signed != 0 ==> call_ensures(FormatSpec::apply_int128, (&spec, v), r),
        signed == 0 ==> call_ensures(FormatSpec::apply_uint128, (&spec, u), r),
    ensures
        call_requires(
            karac_runtime_int_fmt,
            (lo, hi, signed, radix, zero_pad, width, align_left, out),
        ),
        final(out)@.len() == old(out)@.len(),
        n == old(out)@.len() || n == encode_utf8(r@).len(),
        n <= old(out)@.len() && n <= encode_utf8(r@).len(),
        final(out)@.take(n as int) == encode_utf8(r@).take(n as int),
        final(out)@.skip(n as int) == old(out)@.skip(n as int),
{
    words_make_up_the_number(lo, hi);
    assert(v >= 0 ==> v as u128 == v) by (bit_vector);
    if spec.radix != Radix::Dec {
        pattern_is_shown_at_128_bits(spec, v);
    }
    decoded_integer_shows_its_numeral(
        v,
        u as nat,
        spec.radix,
        zero_pad != 0,
        spec.min_width(),
        spec.align_or(Align::Right),
    );
    what_is_reported_was_written(old(out)@, final(out)@, r@, n as int);
}

/// A float that is rendered from decoded operands is what the direct call gives.
pub proof fn decoded_float_is_the_rendered_one(
    body: &str,
    zero_pad: i32,
    width: i64,
    align_left: i32,
    out: &mut [u8],
    n: usize,
    spec: FormatSpec,
    r: String,
)
    requires
        call_ensures(karac_runtime_f64_fmt, (body, zero_pad, width, align_left, out), n),
        spec.fill is None || spec.fill == Some(' '),
        zero_pad != 0 <==> spec.zero_pad,
        width > 0 ==> spec.width is Some && spec.width->0 == width,
        width <= 0 ==> spec.width is None || spec.width == Some(0usize),
        align_left != 0 ==> spec.align == Some(Align::Left),
        align_left == 0 ==> spec.align is None || spec.align == Some(Align::Right),
        call_ensures(FormatSpec::apply_float, (&spec, body), r),
    ensures
        call_requires(karac_runtime_f64_fmt, (body, zero_pad, width, align_left, out)),
        final(out)@.len() == old(out)@.len(),
        n == old(out)@.len() || n == encode_utf8(r@).len(),
        n <= old(out)@.len() && n <= encode_utf8(r@).len(),
        final(out)@.take(n as int) == encode_utf8(r@).take(n as int),
        final(out)@.skip(n as int) == old(out)@.skip(n as int),
{
    what_is_reported_was_written(old(out)@, final(out)@, r@, n as int);
}

/// One step of the stream and the key that a state gives, in numbers.
pub proof fn stream_steps_as_computed(state: i64, next: i64, k: i64)
    requires
        0 <= state < pow2(31),
        call_ensures(step, (state,), next),
        call_ensures(key, (state,), k),
    ensures
        call_requires(step, (state,)),
        call_requires(key, (state,)),
        next == (1103515245 * state + 12345) % (pow2(31) as int),
        k == (state as int / 65536) % 4096,
{
    lemma2_to64();
}

/// One operation more adds its key to the sink of the bare loop, and to the sink of the
/// lookups one more than the value that the map holds under that key, if it holds one.
pub proof fn sinks_add_up_the_keys(
    ops: u32,
    sink: i64,
    next_sink: i64,
    hits: i64,
    next_hits: i64,
    map: HashMap<i64, i64>,
)
    requires
        ops < u32::MAX,
        call_ensures(loop_sink, (ops,), sink),
        call_ensures(loop_sink, ((ops + 1) as u32,), next_sink),
        call_ensures(get_sink, (ops,), hits),
        call_ensures(get_sink, ((ops + 1) as u32,), next_hits),
        call_ensures(live_map, (), map),
    ensures
        ({
            let key = (state_at((ops + 1) as nat) / 65536) % 4096;
            &&& next_sink == sink + key
            &&& map@.contains_key(key as i64) ==> next_hits == hits + map@[key as i64] + 1
            &&& !map@.contains_key(key as i64) ==> next_hits == hits
            &&& ops == 0 ==> sink == 0 && hits == 0
        }),
{
    sinks_grow_key_by_key(ops as nat);
    assert(key_sum((ops + 1) as nat) == next_sink && hit_sum((ops + 1) as nat) == next_hits);
}

/// The map has exactly the multiples of four below 4096, each with its quarter.
pub proof fn map_has_every_fourth_key(map: HashMap<i64, i64>, k: i64)
    requires
        call_ensures(live_map, (), map),
    ensures
        map@.contains_key(k) <==> 0 <= k < 4096 && k % 4 == 0,
        map@.contains_key(k) ==> 4 * map@[k] == k,
{
}

} // verus!

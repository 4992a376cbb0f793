//! What holds of the renderers as a whole.

use crate::digits::{
    leading_zeros_are_worthless,
    numeral,
    numeral_is_ascii,
    numeral_is_canonical,
    numeral_length_is_bounded,
    numeral_reads_back,
    value,
};
use crate::fast::{integer_text, operand_align, operand_width};
use crate::format_spec::{parsed, Align, Fault, FormatSpec, Radix};
use crate::lowering::radix_of_code;
use crate::render::{
    aligned,
    has_minus,
    number,
    sign_text,
    span_128,
    span_64,
    without_minus,
};
use crate::runtime::{
    contents,
    joined,
    pattern_text,
    plain,
    signed,
    spec_in,
    text_in,
    widened,
};
use crate::text::run;
use vstd::arithmetic::power2::{lemma2_to64, lemma_pow2_adds, pow2};
use vstd::prelude::*;
use vstd::utf8::{
    encode_utf8,
    encode_utf8_decode_utf8,
    encode_utf8_valid_utf8,
    is_ascii_chars,
    is_ascii_chars_encode_utf8,
    valid_utf8,
};

verus! {

/// The greater of two.
pub open spec fn greater(a: nat, b: nat) -> nat {
    if a >= b {
        a
    } else {
        b
    }
}

/// How many characters of padding stand before the body.
pub open spec fn padding_before(body: Seq<char>, width: nat, align: Align) -> int {
    if body.len() >= width {
        0
    } else {
        match align {
            Align::Left => 0,
            Align::Right => width - body.len(),
            Align::Center => (width - body.len()) / 2,
        }
    }
}

/// A field is as wide as it is asked to be, and wider only where the body is.
pub proof fn field_has_its_width(body: Seq<char>, width: nat, align: Align, fill: char)
    ensures
        aligned(body, width, align, fill).len() == greater(width, body.len()),
{
}

/// The body stands in the field unharmed, and all the rest is fill.
pub proof fn body_is_framed_by_fill(body: Seq<char>, width: nat, align: Align, fill: char)
    ensures
        ({
            let text = aligned(body, width, align, fill);
            let from = padding_before(body, width, align);
            &&& 0 <= from <= from + body.len() <= text.len()
            &&& text.subrange(from, from + body.len()) == body
            &&& forall|i: int|
                0 <= i < from || from + body.len() <= i < text.len() ==> text[i] == fill
        }),
{
    let text = aligned(body, width, align, fill);
    let from = padding_before(body, width, align);
    assert(text.subrange(from, from + body.len()) =~= body);
}

/// A centred body has as much fill on its left as on its right, or one less.
pub proof fn centre_is_balanced(body: Seq<char>, width: nat, fill: char)
    ensures
        ({
            let before = padding_before(body, width, Align::Center);
            let after = aligned(body, width, Align::Center, fill).len() - before - body.len();
            before <= after <= before + 1
        }),
{
}

/// A number has the width that is asked for, zeros and sign included.
pub proof fn number_has_its_width(spec: FormatSpec, sign: Seq<char>, digits: Seq<char>)
    ensures
        spec.number_text(sign, digits).len() == greater(
            spec.min_width(),
            sign.len() + digits.len(),
        ),
{
}

/// A text that has been padded is as wide as it has to be: padding it again changes
/// nothing, wherever either of the two would have put it.
pub proof fn padding_is_done_once(
    spec: FormatSpec,
    body: Seq<char>,
    first_left: bool,
    then_left: bool,
)
    ensures
        spec.padded(spec.padded(body, first_left), then_left) == spec.padded(body, first_left),
{
}

/// With the zero flag a number that is short of the width has zeros between its sign and
/// its digits and has exactly the width, whatever fill and alignment are.
pub proof fn zeros_stand_behind_the_sign(
    spec: FormatSpec,
    sign: Seq<char>,
    digits: Seq<char>,
    fill: Option<char>,
    align: Option<Align>,
)
    requires
        spec.zero_pad,
        sign.len() + digits.len() < spec.min_width(),
    ensures
        spec.number_text(sign, digits) == sign + run(
            '0',
            (spec.min_width() - sign.len() - digits.len()) as nat,
        ) + digits,
        spec.number_text(sign, digits).len() == spec.min_width(),
        (FormatSpec { fill, align, ..spec }).number_text(sign, digits) == spec.number_text(
            sign,
            digits,
        ),
{
}

/// Where no zeros are asked for or needed, sign and digits stay together and are padded as
/// one text, on the right by default. One that fills the width, or has none to fill, is
/// shown as it is.
pub proof fn sign_stays_with_the_digits(spec: FormatSpec, sign: Seq<char>, digits: Seq<char>)
    requires
        !spec.zero_pad || sign.len() + digits.len() >= spec.min_width(),
    ensures
        spec.number_text(sign, digits) == spec.padded(sign + digits, false),
        sign.len() + digits.len() >= spec.min_width() ==> spec.number_text(sign, digits)
            == sign + digits,
{
}

/// Numbers, floats and strings agree on the default: without an alignment they stand
/// where `>` puts them.
pub proof fn right_is_the_default(
    spec: FormatSpec,
    v: int,
    span: int,
    body: Seq<char>,
    s: Seq<char>,
)
    requires
        spec.align is None,
    ensures
        ({
            let right = FormatSpec { align: Some(Align::Right), ..spec };
            &&& spec.int_text(v, span) == right.int_text(v, span)
            &&& spec.uint_text(v as nat) == right.uint_text(v as nat)
            &&& spec.float_text(body) == right.float_text(body)
            &&& spec.str_text(s) == right.str_text(s)
        }),
{
}

/// A string depends on fill, alignment and width alone.
pub proof fn string_ignores_the_rest(
    spec: FormatSpec,
    zero_pad: bool,
    precision: Option<usize>,
    radix: Radix,
    s: Seq<char>,
)
    ensures
        spec.str_text(s) == (FormatSpec { zero_pad, precision, radix, ..spec }).str_text(s),
{
}

/// An integer does not depend on the precision.
pub proof fn integer_ignores_the_precision(
    spec: FormatSpec,
    precision: Option<usize>,
    v: int,
    span: int,
)
    ensures
        spec.int_text(v, span) == (FormatSpec { precision, ..spec }).int_text(v, span),
{
}

/// In any radix but decimal a signed integer is rendered as the pattern of its own width,
/// at 64 bits.
pub proof fn pattern_is_shown_at_64_bits(spec: FormatSpec, v: i64)
    requires
        !(spec.radix is Dec),
    ensures
        spec.int_text(v as int, span_64()) == spec.uint_text((v as u64) as nat),
{
    assert(v < 0 ==> v as u64 == v + 0x1_0000_0000_0000_0000) by (bit_vector);
    assert(v >= 0 ==> v as u64 == v) by (bit_vector);
}

/// In any radix but decimal a signed integer is rendered as the pattern of its own width,
/// at 128 bits.
pub proof fn pattern_is_shown_at_128_bits(spec: FormatSpec, v: i128)
    requires
        !(spec.radix is Dec),
    ensures
        spec.int_text(v as int, span_128()) == spec.uint_text((v as u128) as nat),
{
    assert(v < 0 ==> v as u128 == v + 0xffff_ffff_ffff_ffff_ffff_ffff_ffff_ffffu128 + 1)
        by (bit_vector);
    assert(v >= 0 ==> v as u128 == v) by (bit_vector);
}

/// Apart from negative numbers in a radix other than decimal, the width of the hole makes
/// no difference.
pub proof fn width_of_the_hole_is_invisible(spec: FormatSpec, v: int, span: int, other: int)
    requires
        v >= 0 || spec.radix is Dec,
    ensures
        spec.int_text(v, span) == spec.int_text(v, other),
{
}

/// An integer that is not negative is rendered alike whether it is signed or not.
pub proof fn sign_of_the_hole_is_invisible(spec: FormatSpec, v: nat, span: int)
    ensures
        spec.int_text(v as int, span) == spec.uint_text(v),
{
}

/// The renderer of compiled programs gives a 64-bit hole the same text as a direct call,
/// once the value has been widened.
pub proof fn compiled_64_bit_integers_agree(spec: FormatSpec, v: i64, u: u64)
    ensures
        pattern_text(spec, widened(spec.radix, v as int, span_64()), false) == spec.int_text(
            v as int,
            span_64(),
        ),
        pattern_text(spec, u as nat, true) == spec.uint_text(u as nat),
{
}

/// The renderer of compiled programs gives a 128-bit hole the same text as a direct call.
pub proof fn compiled_128_bit_integers_agree(spec: FormatSpec, v: i128, u: u128)
    ensures
        pattern_text(spec, widened(spec.radix, v as int, span_128()), false) == spec.int_text(
            v as int,
            span_128(),
        ),
        pattern_text(spec, u as nat, true) == spec.uint_text(u as nat),
{
}

/// The operands stand for the fields of the specifier.
pub open spec fn operands_of(
    spec: FormatSpec,
    radix: i32,
    zero_pad: i32,
    width: i64,
    align_left: i32,
) -> bool {
    &&& radix_of_code(radix as int) == Some(spec.radix)
    &&& zero_pad != 0 <==> spec.zero_pad
    &&& width == spec.min_width()
    &&& align_left != 0 <==> spec.align == Some(Align::Left)
}

/// From the decoded operands of a specifier a signed integer is rendered as by a direct
/// call. Centring and a fill other than the space have no operand.
pub proof fn decoded_signed_integers_agree(
    spec: FormatSpec,
    radix: i32,
    zero_pad: i32,
    width: i64,
    align_left: i32,
    v: i64,
    wide: i128,
)
    requires
        operands_of(spec, radix, zero_pad, width, align_left),
        spec.align != Some(Align::Center),
        spec.fill_char() == ' ',
    ensures
        integer_text(
            widened(spec.radix, v as int, span_64()),
            true,
            radix_of_code(radix as int)->0,
            zero_pad != 0,
            operand_width(width),
            operand_align(align_left),
        ) == spec.int_text(v as int, span_64()),
        integer_text(
            widened(spec.radix, wide as int, span_128()),
            true,
            radix_of_code(radix as int)->0,
            zero_pad != 0,
            operand_width(width),
            operand_align(align_left),
        ) == spec.int_text(wide as int, span_128()),
{
}

/// From the decoded operands of a specifier an unsigned integer is rendered as by a
/// direct call.
pub proof fn decoded_unsigned_integers_agree(
    spec: FormatSpec,
    radix: i32,
    zero_pad: i32,
    width: i64,
    align_left: i32,
    v: nat,
)
    requires
        operands_of(spec, radix, zero_pad, width, align_left),
        spec.align != Some(Align::Center),
        spec.fill_char() == ' ',
    ensures
        integer_text(
            v,
            false,
            radix_of_code(radix as int)->0,
            zero_pad != 0,
            operand_width(width),
            operand_align(align_left),
        ) == spec.uint_text(v),
{
}

/// From the decoded operands of a specifier a float is rendered as by a direct call.
pub proof fn decoded_floats_agree(
    spec: FormatSpec,
    radix: i32,
    zero_pad: i32,
    width: i64,
    align_left: i32,
    body: Seq<char>,
)
    requires
        operands_of(spec, radix, zero_pad, width, align_left),
        spec.align != Some(Align::Center),
        spec.fill_char() == ' ',
    ensures
        number(
            sign_text(has_minus(body)),
            without_minus(body),
            zero_pad != 0,
            operand_width(width),
            operand_align(align_left),
            ' ',
        ) == spec.float_text(body),
{
}

/// A specifier that is compiled in as bytes is read as the same specifier, and a text as
/// the same text.
pub proof fn compiled_bytes_are_read_alike(raw: Seq<char>)
    ensures
        parsed(raw) is Ok ==> spec_in(Some(encode_utf8(raw))) == parsed(raw)->Ok_0,
        parsed(raw) is Err ==> spec_in(Some(encode_utf8(raw))) == plain(),
        text_in(Some(encode_utf8(raw))) == raw,
{
    encode_utf8_valid_utf8(raw);
    encode_utf8_decode_utf8(raw);
}

/// The empty specifier asks for nothing, and so do bytes that are no specifier.
pub proof fn nothing_asked_for(bytes: Seq<u8>)
    ensures
        parsed(Seq::<char>::empty()) == Ok::<FormatSpec, Fault>(plain()),
        spec_in(None) == plain(),
        !valid_utf8(bytes) ==> spec_in(Some(bytes)) == plain(),
{
}

/// The specifier that asks for nothing leaves strings and floats as they are, and shows
/// an integer as its sign and digits.
pub proof fn plain_changes_nothing(v: int, span: int, body: Seq<char>, s: Seq<char>)
    ensures
        plain().str_text(s) == s,
        plain().float_text(body) == body,
        v >= 0 ==> plain().int_text(v, span) == Radix::Dec.digits(v as nat),
        v < 0 ==> plain().int_text(v, span) == seq!['-'] + Radix::Dec.digits((-v) as nat),
{
    if has_minus(body) {
        assert(seq!['-'] + body.skip(1) =~= body);
    } else {
        assert(Seq::<char>::empty() + body =~= body);
    }
    if v >= 0 {
        assert(Seq::<char>::empty() + Radix::Dec.digits(v as nat) =~= Radix::Dec.digits(
            v as nat,
        ));
    }
}

/// What a number shows reads back as its magnitude: behind the sign stand digits that
/// denote it, whether zeros were put before them or there was nothing to pad.
pub proof fn shown_number_reads_back(spec: FormatSpec, neg: bool, magnitude: nat)
    requires
        spec.zero_pad || spec.width is None,
    ensures
        ({
            let text = spec.number_text(sign_text(neg), spec.radix.digits(magnitude));
            let sign = sign_text(neg);
            &&& sign.len() <= text.len()
            &&& text.take(sign.len() as int) == sign
            &&& value(text.skip(sign.len() as int), spec.radix.base()) == magnitude
        }),
{
    let sign = sign_text(neg);
    let digits = spec.radix.digits(magnitude);
    let text = spec.number_text(sign, digits);
    numeral_reads_back(magnitude, spec.radix.base(), spec.radix.upper());
    assert(text.take(sign.len() as int) =~= sign);
    if sign.len() + digits.len() < spec.min_width() {
        let zeros = (spec.min_width() - sign.len() - digits.len()) as nat;
        assert(text.skip(sign.len() as int) =~= run('0', zeros) + digits);
        leading_zeros_are_worthless(digits, zeros, spec.radix.base());
    } else {
        assert(text.skip(sign.len() as int) =~= digits);
    }
}

/// Two integers that look alike under such a specifier are equal: in decimal with their
/// signs, in any other radix as patterns.
pub proof fn shown_numbers_differ(spec: FormatSpec, neg: bool, a: nat, other: bool, b: nat)
    requires
        spec.zero_pad || spec.width is None,
        spec.number_text(sign_text(neg), spec.radix.digits(a)) == spec.number_text(
            sign_text(other),
            spec.radix.digits(b),
        ),
    ensures
        neg == other,
        a == b,
{
    shown_number_reads_back(spec, neg, a);
    shown_number_reads_back(spec, other, b);
    let text = spec.number_text(sign_text(neg), spec.radix.digits(a));
    if neg != other {
        let bare: nat = if neg {
            b
        } else {
            a
        };
        let mark = sign_text(true);
        let digits = spec.radix.digits(bare);
        numeral_is_canonical(bare, spec.radix.base(), spec.radix.upper());
        no_minus_in_a_numeral(bare, spec.radix.base(), spec.radix.upper());
        assert(text.take(1)[0] == mark[0]);
        assert(text[0] == '0' || text[0] == digits[0]);
    }
}

/// No digit is a minus.
proof fn no_minus_in_a_numeral(n: nat, base: nat, upper: bool)
    requires
        2 <= base <= 16,
    ensures
        numeral(n, base, upper)[0] != '-',
    decreases n,
{
    if n >= base {
        assert(n / base < n) by (nonlinear_arith)
            requires
                n >= base,
                base >= 2,
        ;
        numeral_is_canonical(n / base, base, upper);
        no_minus_in_a_numeral(n / base, base, upper);
    }
}

/// Padding with ASCII keeps a text of ASCII.
proof fn aligned_is_ascii(body: Seq<char>, width: nat, align: Align, fill: char)
    requires
        is_ascii_chars(body),
        fill <= '\u{7f}',
    ensures
        is_ascii_chars(aligned(body, width, align, fill)),
{
    let text = aligned(body, width, align, fill);
    let from = padding_before(body, width, align);
    body_is_framed_by_fill(body, width, align, fill);
    assert forall|i: int| 0 <= i < text.len() implies '\0' <= #[trigger] text[i] <= '\u{7f}' by {
        if from <= i < from + body.len() {
            assert(text[i] == text.subrange(from, from + body.len())[i - from]);
            assert(body[i - from] <= '\u{7f}');
        }
    }
}

/// The most digits that an integer of 64 bits has, and one of 128 bits outside binary.
proof fn digits_are_few(radix: Radix, n: nat)
    requires
        n < span_64() || (n < span_128() && !(radix is Bin)),
    ensures
        n < span_64() ==> radix.digits(n).len() <= 64,
        !(radix is Bin) ==> radix.digits(n).len() <= 43,
{
    lemma2_to64();
    lemma_pow2_adds(64, 64);
    lemma_pow2_adds(128, 1);
    assert(pow2(128) == 0x1_0000_0000_0000_0000 * 0x1_0000_0000_0000_0000);
    if n < span_64() {
        numeral_length_is_bounded(n, radix.base(), radix.upper(), 1, 64);
    }
    if !(radix is Bin) {
        numeral_length_is_bounded(n, radix.base(), radix.upper(), 3, 43);
    }
}

/// With a fill of ASCII a number of ASCII takes as many bytes as it has characters.
proof fn number_is_one_byte_a_character(spec: FormatSpec, sign: Seq<char>, digits: Seq<char>)
    requires
        is_ascii_chars(sign),
        is_ascii_chars(digits),
        spec.fill_char() <= '\u{7f}',
    ensures
        encode_utf8(spec.number_text(sign, digits)).len() == greater(
            spec.min_width(),
            sign.len() + digits.len(),
        ),
{
    let text = spec.number_text(sign, digits);
    assert(is_ascii_chars(sign + digits));
    if spec.zero_pad && sign.len() + digits.len() < spec.min_width() {
        assert(is_ascii_chars(text));
    } else {
        aligned_is_ascii(
            sign + digits,
            spec.min_width(),
            spec.align_or(Align::Right),
            spec.fill_char(),
        );
    }
    is_ascii_chars_encode_utf8(text);
}

/// With a fill of ASCII an integer takes as many bytes as it has characters, which is the
/// width or, where they are more, its sign and digits.
pub proof fn integer_is_one_byte_a_character(spec: FormatSpec, neg: bool, magnitude: nat)
    requires
        spec.fill_char() <= '\u{7f}',
    ensures
        encode_utf8(spec.number_text(sign_text(neg), spec.radix.digits(magnitude))).len()
            == greater(
            spec.min_width(),
            sign_text(neg).len() + spec.radix.digits(magnitude).len(),
        ),
{
    numeral_is_ascii(magnitude, spec.radix.base(), spec.radix.upper());
    number_is_one_byte_a_character(spec, sign_text(neg), spec.radix.digits(magnitude));
}

/// Seventy-two bytes, or as many as the width asks for, hold every integer: at 64 bits in
/// any radix, at 128 bits in any but binary. The fill has to be ASCII.
pub proof fn integer_fits_its_buffer(spec: FormatSpec, neg: bool, magnitude: nat)
    requires
        magnitude < span_64() || (magnitude < span_128() && !(spec.radix is Bin)),
        spec.fill_char() <= '\u{7f}',
    ensures
        encode_utf8(spec.number_text(sign_text(neg), spec.radix.digits(magnitude))).len()
            <= greater(spec.min_width(), 72),
{
    digits_are_few(spec.radix, magnitude);
    integer_is_one_byte_a_character(spec, neg, magnitude);
}

/// With a fill of ASCII a float takes as many bytes as the width asks for or, where they
/// are more, as its text has. Seventy-two bytes, or as many as the width asks for, hold
/// every float whose text is no longer than that.
pub proof fn float_fits_its_buffer(spec: FormatSpec, body: Seq<char>)
    requires
        is_ascii_chars(body),
        spec.fill_char() <= '\u{7f}',
    ensures
        encode_utf8(spec.float_text(body)).len() == greater(spec.min_width(), body.len()),
        body.len() <= 72 ==> encode_utf8(spec.float_text(body)).len() <= greater(
            spec.min_width(),
            72,
        ),
{
    number_is_one_byte_a_character(spec, sign_text(has_minus(body)), without_minus(body));
}

/// Sixty-four bytes, or two more than the width, hold every integer of up to 128 bits
/// that is rendered from decoded operands.
pub proof fn decoded_integer_fits_its_buffer(spec: FormatSpec, neg: bool, magnitude: nat)
    requires
        magnitude < span_128(),
        !spec.beyond_printf(),
    ensures
        encode_utf8(spec.number_text(sign_text(neg), spec.radix.digits(magnitude))).len()
            <= greater(64, spec.min_width() + 2),
{
    digits_are_few(spec.radix, magnitude);
    integer_is_one_byte_a_character(spec, neg, magnitude);
}

/// As many bytes as the width asks for hold every string of ASCII that is no longer.
pub proof fn string_fits_its_buffer(spec: FormatSpec, s: Seq<char>)
    requires
        is_ascii_chars(s),
        spec.fill_char() <= '\u{7f}',
        s.len() <= spec.min_width(),
    ensures
        encode_utf8(spec.str_text(s)).len() == spec.min_width(),
{
    aligned_is_ascii(s, spec.min_width(), spec.align_or(Align::Right), spec.fill_char());
    is_ascii_chars_encode_utf8(spec.str_text(s));
}

/// A character takes four bytes at most.
proof fn characters_are_short(text: Seq<char>)
    ensures
        encode_utf8(text).len() <= 4 * text.len(),
    decreases text.len(),
{
    if text.len() > 0 {
        characters_are_short(text.drop_first());
    }
}

/// A string can hold every integer in a field of up to `isize::MAX / 4` characters.
pub proof fn narrow_integers_are_holdable(spec: FormatSpec, neg: bool, magnitude: nat)
    requires
        spec.min_width() <= isize::MAX / 4,
        magnitude < span_128(),
    ensures
        encode_utf8(spec.number_text(sign_text(neg), spec.radix.digits(magnitude))).len()
            <= isize::MAX,
{
    let text = spec.number_text(sign_text(neg), spec.radix.digits(magnitude));
    lemma2_to64();
    lemma_pow2_adds(64, 64);
    assert(pow2(128) == 0x1_0000_0000_0000_0000 * 0x1_0000_0000_0000_0000);
    numeral_length_is_bounded(magnitude, spec.radix.base(), spec.radix.upper(), 1, 128);
    characters_are_short(text);
}

/// A string can hold every string, and every float with the text `s`, in a field of up to
/// `isize::MAX / 4` characters.
pub proof fn narrow_texts_are_holdable(spec: FormatSpec, s: Seq<char>)
    requires
        spec.min_width() <= isize::MAX / 4,
        encode_utf8(s).len() <= isize::MAX,
    ensures
        encode_utf8(spec.str_text(s)).len() <= isize::MAX,
        encode_utf8(spec.float_text(s)).len() <= isize::MAX,
{
    characters_are_short(spec.str_text(s));
    characters_are_short(spec.float_text(s));
    assert(sign_text(has_minus(s)) + without_minus(s) =~= s);
}

/// In a field of at least `width` characters the body stands at the beginning, at the end or
/// in the middle, where the odd character is on its right, and all the rest is fill.
pub proof fn field_is_laid_out(body: Seq<char>, width: nat, align: Align, fill: char)
    ensures
        ({
            let text = aligned(body, width, align, fill);
            let missing: int = if body.len() < width {
                width - body.len()
            } else {
                0
            };
            let from: int = match align {
                Align::Left => 0,
                Align::Right => missing,
                Align::Center => missing / 2,
            };
            &&& text.len() == body.len() + missing
            &&& text.subrange(from, from + body.len()) == body
            &&& forall|i: int|
                0 <= i < from || from + body.len() <= i < text.len() ==> text[i] == fill
        }),
{
    body_is_framed_by_fill(body, width, align, fill);
}

/// A number that is short of the width and takes zeros has its sign at the beginning, its
/// digits at the end and zeros between them. Any other stands in its field as a whole.
pub proof fn number_is_laid_out(
    sign: Seq<char>,
    digits: Seq<char>,
    zero_pad: bool,
    width: nat,
    align: Align,
    fill: char,
)
    ensures
        ({
            let text = number(sign, digits, zero_pad, width, align, fill);
            let have = sign.len() + digits.len();
            let missing: int = if have < width {
                width - have
            } else {
                0
            };
            let from: int = match align {
                Align::Left => 0,
                Align::Right => missing,
                Align::Center => missing / 2,
            };
            &&& text.len() == have + missing
            &&& zero_pad ==> text.subrange(0, sign.len() as int) == sign
            &&& zero_pad ==> text.subrange(text.len() - digits.len(), text.len() as int) == digits
            &&& zero_pad ==> forall|i: int|
                sign.len() <= i < text.len() - digits.len() ==> text[i] == '0'
            &&& !zero_pad ==> text.subrange(from, from + have) == sign + digits
            &&& !zero_pad ==> forall|i: int|
                0 <= i < from || from + have <= i < text.len() ==> text[i] == fill
        }),
{
    let text = number(sign, digits, zero_pad, width, align, fill);
    body_is_framed_by_fill(sign + digits, width, align, fill);
    if zero_pad {
        assert(text.subrange(0, sign.len() as int) =~= sign);
        assert(text.subrange(text.len() - digits.len(), text.len() as int) =~= digits);
    }
}

/// A string of fewer characters than the width stands at the beginning of the field under
/// `<`, in its middle under `^`, and at its end under `>` or no alignment. The rest of the
/// field is the fill, or spaces where there is none. Any other string is left as it is.
pub proof fn string_stands_in_its_field(spec: FormatSpec, s: Seq<char>)
    ensures
        ({
            let text = spec.str_text(s);
            let fill = match spec.fill {
                Some(c) => c,
                None => ' ',
            };
            let missing: int = match spec.width {
                Some(w) => if s.len() < w {
                    w - s.len()
                } else {
                    0
                },
                None => 0,
            };
            let from: int = match spec.align {
                Some(Align::Left) => 0,
                Some(Align::Center) => missing / 2,
                Some(Align::Right) => missing,
                None => missing,
            };
            &&& text.len() == s.len() + missing
            &&& text.subrange(from, from + s.len()) == s
            &&& forall|i: int|
                0 <= i < from || from + s.len() <= i < text.len() ==> text[i] == fill
        }),
{
    let align = match spec.align {
        Some(a) => a,
        None => Align::Right,
    };
    body_is_framed_by_fill(s, spec.min_width(), align, spec.fill_char());
    assert(spec.width is None ==> spec.str_text(s) == s);
}

/// Padding puts a text where the alignment says or, without one, where it is told to.
pub proof fn padding_goes_where_it_is_told(spec: FormatSpec, body: Seq<char>)
    ensures
        spec.padded(body, false) == spec.str_text(body),
        spec.align is Some ==> spec.padded(body, true) == spec.str_text(body),
        spec.align is None ==> spec.padded(body, true) == (FormatSpec {
            align: Some(Align::Left),
            ..spec
        }).str_text(body),
{
}

/// A number is laid out by the fields of the specifier: the zero flag puts zeros between its
/// sign and its digits, and without it the whole number stands in the field like a string.
pub proof fn number_stands_in_its_field(spec: FormatSpec, sign: Seq<char>, digits: Seq<char>)
    ensures
        ({
            let text = spec.number_text(sign, digits);
            let have = sign.len() + digits.len();
            let missing: int = match spec.width {
                Some(w) => if have < w {
                    w - have
                } else {
                    0
                },
                None => 0,
            };
            &&& text.len() == have + missing
            &&& spec.zero_pad ==> text.subrange(0, sign.len() as int) == sign
            &&& spec.zero_pad ==> text.subrange(text.len() - digits.len(), text.len() as int)
                == digits
            &&& spec.zero_pad ==> forall|i: int|
                sign.len() <= i < text.len() - digits.len() ==> text[i] == '0'
            &&& !spec.zero_pad ==> text == spec.str_text(sign + digits)
        }),
{
    number_is_laid_out(
        sign,
        digits,
        spec.zero_pad,
        spec.min_width(),
        spec.align_or(Align::Right),
        spec.fill_char(),
    );
}

/// An unsigned integer shows its numeral: in base ten, in base sixteen with small letters
/// for `x` and capitals for `X`, in base eight for `o` and two for `b`. It has no sign.
pub proof fn unsigned_integer_shows_its_numeral(spec: FormatSpec, v: nat)
    ensures
        spec.uint_text(v) == spec.number_text(
            Seq::<char>::empty(),
            match spec.radix {
                Radix::Dec => numeral(v, 10, false),
                Radix::Hex => numeral(v, 16, false),
                Radix::HexUpper => numeral(v, 16, true),
                Radix::Oct => numeral(v, 8, false),
                Radix::Bin => numeral(v, 2, false),
            },
        ),
{
}

/// A signed integer shows a minus and the numeral of its magnitude where it is negative and
/// decimal, and its two's complement where it is negative in any other radix. Otherwise it
/// is like an unsigned one.
pub proof fn signed_integer_shows_its_sign_or_its_pattern(spec: FormatSpec, v: i64, wide: i128)
    ensures
        v >= 0 ==> spec.int_text(v as int, span_64()) == spec.uint_text(v as nat),
        v < 0 && spec.radix == Radix::Dec ==> spec.int_text(v as int, span_64())
            == spec.number_text(seq!['-'], numeral((-v) as nat, 10, false)),
        v < 0 && spec.radix != Radix::Dec ==> spec.int_text(v as int, span_64())
            == spec.uint_text((v + pow2(64)) as nat),
        wide >= 0 ==> spec.int_text(wide as int, span_128()) == spec.uint_text(wide as nat),
        wide < 0 && spec.radix == Radix::Dec ==> spec.int_text(wide as int, span_128())
            == spec.number_text(seq!['-'], numeral((-wide) as nat, 10, false)),
        wide < 0 && spec.radix != Radix::Dec ==> spec.int_text(wide as int, span_128())
            == spec.uint_text((wide + pow2(128)) as nat),
{
    spans_are_powers_of_two();
}

/// The spans are how many values 64 and 128 bits can hold.
pub proof fn spans_are_powers_of_two()
    ensures
        span_64() == pow2(64),
        span_128() == pow2(128),
{
    lemma2_to64();
    lemma_pow2_adds(64, 64);
    assert(pow2(128) == 0x1_0000_0000_0000_0000 * 0x1_0000_0000_0000_0000);
}

/// A minus that a float begins with is its sign, and all the rest of its text its digits.
pub proof fn float_shows_its_text(spec: FormatSpec, body: Seq<char>)
    ensures
        body.len() > 0 && body[0] == '-' ==> spec.float_text(body) == spec.number_text(
            seq!['-'],
            body.subrange(1, body.len() as int),
        ),
        body.len() == 0 || body[0] != '-' ==> spec.float_text(body) == spec.number_text(
            Seq::<char>::empty(),
            body,
        ),
        body.len() > 0 && body[0] == '-' ==> sign_text(has_minus(body)) == seq!['-']
            && without_minus(body) == body.subrange(1, body.len() as int),
        body.len() == 0 || body[0] != '-' ==> sign_text(has_minus(body)) == Seq::<char>::empty()
            && without_minus(body) == body,
{
    if body.len() > 0 {
        assert(body.skip(1) =~= body.subrange(1, body.len() as int));
    }
}

/// The precision is the number of fractional digits of a float. Without one a float that is
/// integral has a single one, and any other has what it takes to write it.
pub proof fn precision_fixes_the_fraction(spec: FormatSpec, integral: bool)
    ensures
        spec.precision is Some ==> spec.fraction_digits(integral) == spec.precision,
        spec.precision is None && integral ==> spec.fraction_digits(integral) == Some(1usize),
        spec.precision is None && !integral ==> spec.fraction_digits(integral) is None,
{
}

/// Every text that a string can hold is rendered, and every field of up to a quarter as many
/// characters as a string has bytes.
pub proof fn what_fits_is_rendered(spec: FormatSpec, text: Seq<char>)
    ensures
        encode_utf8(text).len() <= isize::MAX ==> spec.holdable(text),
        spec.width is None ==> spec.holdable(text),
        spec.width matches Some(w) ==> w <= isize::MAX / 4 ==> spec.holdable(text),
{
}

/// Bytes that are absent, or are no text, hold an empty text and a specifier that asks for
/// nothing; so do those that are no specifier. All others hold what they encode.
pub proof fn bytes_hold_what_they_encode(bytes: &[u8], raw: Seq<char>)
    ensures
        ({
            let nothing = FormatSpec {
                fill: None,
                align: None,
                zero_pad: false,
                width: None,
                precision: None,
                radix: Radix::Dec,
            };
            &&& plain() == nothing
            &&& contents(Some(bytes)) == Some(bytes@)
            &&& contents(None) is None
            &&& spec_in(None) == nothing
            &&& text_in(None) == Seq::<char>::empty()
            &&& !valid_utf8(bytes@) ==> spec_in(Some(bytes@)) == nothing && text_in(Some(bytes@))
                == Seq::<char>::empty()
            &&& bytes@ == encode_utf8(raw) ==> text_in(Some(bytes@)) == raw
            &&& bytes@ == encode_utf8(raw) && parsed(raw) is Ok ==> spec_in(Some(bytes@))
                == parsed(raw)->Ok_0
            &&& bytes@ == encode_utf8(raw) && parsed(raw) is Err ==> spec_in(Some(bytes@))
                == nothing
        }),
{
    compiled_bytes_are_read_alike(raw);
}

/// Two words make up the number of which they are the quotient and the remainder.
pub proof fn words_make_up_the_number(lo: u64, hi: u64)
    ensures
        joined(lo, hi) == hi * pow2(64) + lo,
        joined(lo, hi) as int / pow2(64) as int == hi,
        joined(lo, hi) as int % pow2(64) as int == lo,
{
    spans_are_powers_of_two();
}

/// A 128-bit pattern is read as the number whose pattern it is, and rendered like it.
pub proof fn pattern_is_read_as_its_number(spec: FormatSpec, v: i128, u: u128)
    ensures
        signed((v as u128) as nat) == v,
        pattern_text(spec, (v as u128) as nat, false) == spec.int_text(v as int, span_128()),
        pattern_text(spec, u as nat, true) == spec.uint_text(u as nat),
{
    assert(v < 0 ==> v as u128 == v + 0xffff_ffff_ffff_ffff_ffff_ffff_ffff_ffffu128 + 1)
        by (bit_vector);
    assert(v >= 0 ==> v as u128 == v) by (bit_vector);
}

/// A 64-bit number is rendered alike from its 128-bit pattern: decimal takes the pattern with
/// its sign extended, any other radix takes the 64 bits alone.
pub proof fn narrow_pattern_is_read_as_its_number(spec: FormatSpec, v: i64)
    ensures
        ({
            let pattern: nat = if spec.radix == Radix::Dec {
                ((v as i128) as u128) as nat
            } else {
                (v as u64) as nat
            };
            &&& widened(spec.radix, v as int, span_64()) == pattern
            &&& pattern_text(spec, pattern, false) == spec.int_text(v as int, span_64())
        }),
{
    let wide: i128 = v as i128;
    assert(wide < 0 ==> wide as u128 == wide + 0xffff_ffff_ffff_ffff_ffff_ffff_ffff_ffffu128 + 1)
        by (bit_vector);
    assert(wide >= 0 ==> wide as u128 == wide) by (bit_vector);
    assert(v < 0 ==> v as u64 == v + 0x1_0000_0000_0000_0000) by (bit_vector);
    assert(v >= 0 ==> v as u64 == v) by (bit_vector);
}

/// From decoded operands a signed decimal shows its sign and the numeral of its magnitude;
/// anything else shows the numeral of its pattern, without a sign.
pub proof fn decoded_integer_shows_its_numeral(
    v: i128,
    raw: nat,
    radix: Radix,
    zero_pad: bool,
    width: nat,
    align: Align,
)
    ensures
        v >= 0 ==> integer_text((v as u128) as nat, true, Radix::Dec, zero_pad, width, align)
            == number(
            Seq::<char>::empty(),
            numeral(v as nat, 10, false),
            zero_pad,
            width,
            align,
            ' ',
        ),
        v < 0 ==> integer_text((v as u128) as nat, true, Radix::Dec, zero_pad, width, align)
            == number(
            seq!['-'],
            numeral((-v) as nat, 10, false),
            zero_pad,
            width,
            align,
            ' ',
        ),
        integer_text(raw, false, radix, zero_pad, width, align) == number(
            Seq::<char>::empty(),
            match radix {
                Radix::Dec => numeral(raw, 10, false),
                Radix::Hex => numeral(raw, 16, false),
                Radix::HexUpper => numeral(raw, 16, true),
                Radix::Oct => numeral(raw, 8, false),
                Radix::Bin => numeral(raw, 2, false),
            },
            zero_pad,
            width,
            align,
            ' ',
        ),
        radix != Radix::Dec ==> integer_text(raw, true, radix, zero_pad, width, align)
            == integer_text(raw, false, radix, zero_pad, width, align),
{
    assert(v < 0 ==> v as u128 == v + 0xffff_ffff_ffff_ffff_ffff_ffff_ffff_ffffu128 + 1)
        by (bit_vector);
    assert(v >= 0 ==> v as u128 == v) by (bit_vector);
}

/// A width operand counts from one on, and an alignment operand other than zero is `<`.
pub proof fn operands_are_taken_as_they_are(width: i64, align_left: i32)
    ensures
        width >= 0 ==> operand_width(width) == width,
        width < 0 ==> operand_width(width) == 0,
        align_left != 0 ==> operand_align(align_left) == Align::Left,
        align_left == 0 ==> operand_align(align_left) == Align::Right,
{
}

} // verus!

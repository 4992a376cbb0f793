//! What a code generator asks of a specifier: which renderer it needs, the operands of
//! the pre-decoded renderer, and the conversion for C's `printf`.

use crate::digits::{numeral, numeral_is_canonical, render_numeral};
use crate::format_spec::{radix_of, Align, FormatSpec, Radix};
use crate::render::{aligned, has_minus, number, sign_text, span_64, without_minus};
use vstd::prelude::*;
use vstd::string::StringExecFns;
use vstd::utf8::is_ascii_chars;

verus! {

/// The greatest `int` of C. `printf` refuses a width or a precision beyond it, and cannot
/// print more characters than that.
pub open spec fn int_max() -> nat {
    0x7fff_ffff
}

/// A conversion of C's `printf`: `%[-][0][width][.precision][length]conv`.
pub struct Conversion {
    /// The flag `-`.
    pub minus: bool,
    /// The flag `0`.
    pub zero: bool,
    pub width: Option<nat>,
    pub precision: Option<nat>,
    /// The length modifier, such as `ll`.
    pub length: Seq<char>,
    pub conv: char,
}

impl Conversion {
    /// The conversion as it stands in a format string.
    pub open spec fn text(self) -> Seq<char> {
        seq!['%'] + (if self.minus {
            seq!['-']
        } else {
            seq![]
        }) + (if self.zero {
            seq!['0']
        } else {
            seq![]
        }) + (match self.width {
            Some(w) => numeral(w, 10, false),
            None => seq![],
        }) + (match self.precision {
            Some(p) => seq!['.'] + numeral(p, 10, false),
            None => seq![],
        }) + self.length + seq![self.conv]
    }

    /// The least number of characters to print.
    pub open spec fn min_width(self) -> nat {
        match self.width {
            Some(w) => w,
            None => 0,
        }
    }

    /// What C prints for a number with this sign and these digits, be it an integer
    /// under a conversion without precision or a finite float: `-` puts it on the left
    /// and overrides `0`, `0` pads it with zeros after the sign, and otherwise it is on
    /// the right.
    pub open spec fn number(self, sign: Seq<char>, digits: Seq<char>) -> Seq<char> {
        if self.minus {
            aligned(sign + digits, self.min_width(), Align::Left, ' ')
        } else {
            number(sign, digits, self.zero, self.min_width(), Align::Right, ' ')
        }
    }

    /// What C prints for a 64-bit integer under `d`, `x`, `X` or `o` without precision:
    /// `d` shows sign and magnitude, the others the two's complement.
    pub open spec fn integer(self, v: i64) -> Seq<char>
        recommends
            self.length == "ll"@,
            self.conv == 'd' || self.conv == 'x' || self.conv == 'X' || self.conv == 'o',
            self.precision is None,
    {
        if self.conv == 'd' {
            let magnitude = if v < 0 {
                (-v) as nat
            } else {
                v as nat
            };
            self.number(sign_text(v < 0), numeral(magnitude, 10, false))
        } else {
            let base: nat = if self.conv == 'o' {
                8
            } else {
                16
            };
            self.number(sign_text(false), numeral((v as u64) as nat, base, self.conv == 'X'))
        }
    }

    /// What C prints under `f` for a finite float whose text, with as many fractional
    /// digits as the precision says, is `body`.
    pub open spec fn float(self, body: Seq<char>) -> Seq<char>
        recommends
            self.conv == 'f',
            self.precision is Some,
    {
        self.number(sign_text(has_minus(body)), without_minus(body))
    }

    /// What C prints for a string of ASCII, of which each character is a byte, under a
    /// conversion without precision.
    pub open spec fn string(self, s: Seq<char>) -> Seq<char> {
        let align = if self.minus {
            Align::Left
        } else {
            Align::Right
        };
        aligned(s, self.min_width(), align, ' ')
    }
}

/// The radix that an operand of the pre-decoded integer renderer stands for.
pub open spec fn radix_of_code(code: int) -> Option<Radix> {
    if code == 10 {
        Some(Radix::Dec)
    } else if code == 8 {
        Some(Radix::Oct)
    } else if code == 16 {
        Some(Radix::Hex)
    } else if code == -16 {
        Some(Radix::HexUpper)
    } else if code == 2 {
        Some(Radix::Bin)
    } else {
        None
    }
}

impl FormatSpec {
    /// `printf` cannot do what the specifier asks for: it has no binary conversion, no
    /// centring and no fill but the space.
    pub open spec fn beyond_printf(self) -> bool {
        ||| self.align == Some(Align::Center)
        ||| self.radix is Bin
        ||| self.fill_char() != ' '
    }

    /// The conversion character for integers.
    pub open spec fn conv_char(self) -> char {
        match self.radix {
            Radix::Dec => 'd',
            Radix::Hex => 'x',
            Radix::HexUpper => 'X',
            Radix::Oct => 'o',
            Radix::Bin => 'd',
        }
    }

    /// The field has room for the zeros of the zero flag. A number has at least one
    /// character, so a width of one has none.
    pub open spec fn has_room_for_zeros(self) -> bool {
        self.zero_pad && self.min_width() > 1
    }

    /// The width and the precision are numbers that `printf` takes.
    pub open spec fn within_int(self) -> bool {
        &&& self.min_width() <= int_max()
        &&& self.precision matches Some(p) ==> p <= int_max()
    }

    /// The conversion for `printf`. The flag `-` would override `0`, and zeros prevail over
    /// an alignment: a number that can take zeros is not put on the left.
    pub open spec fn conversion(
        self,
        length_mod: Seq<char>,
        conv: char,
        numeric: bool,
    ) -> Conversion {
        Conversion {
            minus: self.align == Some(Align::Left) && !(numeric
                && self.has_room_for_zeros()),
            zero: numeric && self.zero_pad,
            width: match self.width {
                Some(w) => Some(w as nat),
                None => None,
            },
            precision: match self.precision {
                Some(p) => Some(p as nat),
                None => None,
            },
            length: length_mod,
            conv,
        }
    }

    /// Whether the specifier has to go to the renderers of [`crate::runtime`] rather
    /// than to `printf`.
    pub fn needs_runtime_formatter(&self) -> (b: bool)
        ensures
            b == self.beyond_printf(),
    {
        let centred = match self.align {
            Some(Align::Center) => true,
            _ => false,
        };
        let filled = match self.fill {
            Some(c) => c != ' ',
            None => false,
        };
        centred || self.radix == Radix::Bin || filled
    }

    /// The conversion character for the radix. Binary never goes to `printf`; its arm
    /// is there to be defined.
    pub fn int_conv(&self) -> (c: char)
        ensures
            c == self.conv_char(),
    {
        match self.radix {
            Radix::Dec => 'd',
            Radix::Hex => 'x',
            Radix::HexUpper => 'X',
            Radix::Oct => 'o',
            Radix::Bin => 'd',
        }
    }

    /// The radix operand of the pre-decoded integer renderer: the base, negative for
    /// capital letters. It stands beside the type so that its two users, the code
    /// generator and the renderer, cannot drift apart.
    pub fn fast_radix_code(&self) -> (code: i32)
        ensures
            code == match self.radix {
                Radix::Dec => 10int,
                Radix::Oct => 8,
                Radix::Hex => 16,
                Radix::HexUpper => -16,
                Radix::Bin => 2,
            },
            radix_of_code(code as int) == Some(self.radix),
    {
        match self.radix {
            Radix::Dec => 10,
            Radix::Oct => 8,
            Radix::Hex => 16,
            Radix::HexUpper => -16,
            Radix::Bin => 2,
        }
    }

    /// Whether numbers go to the left: they are on the right by default, so only an
    /// explicit `<` puts them there.
    pub fn numeric_align_left(&self) -> (b: bool)
        ensures
            b == (self.align == Some(Align::Left)),
    {
        match self.align {
            Some(Align::Left) => true,
            _ => false,
        }
    }

    /// The conversion for `printf`, such as `%04lld`, `%-8.2f` or `%6s`. `length_mod` is
    /// the C length modifier, `conv` the conversion character, and without `numeric` the
    /// zero flag is left out. A number that can take zeros has no `-`, which would take
    /// them away.
    pub fn to_printf(&self, length_mod: &str, conv: char, numeric: bool) -> (s: String)
        ensures
            s@ == self.conversion(length_mod@, conv, numeric).text(),
    {
        let ghost want = self.conversion(length_mod@, conv, numeric);
        let mut s = String::new();
        s.push('%');
        let zeros = numeric && self.zero_pad && match self.width {
            Some(w) => w > 1,
            None => false,
        };
        if self.numeric_align_left() && !zeros {
            s.push('-');
        }
        if numeric && self.zero_pad {
            s.push('0');
        }
        if let Some(w) = self.width {
            let digits = render_numeral(w as u128, 10, false);
            s.append(digits.as_str());
        }
        if let Some(p) = self.precision {
            s.push('.');
            let digits = render_numeral(p as u128, 10, false);
            s.append(digits.as_str());
        }
        s.append(length_mod);
        s.push(conv);
        assert(s@ =~= want.text());
        s
    }
}

/// `printf` lays a number out as the renderers do, for every specifier that goes to it and
/// is within what it takes. A number has at least one character.
pub proof fn printf_lays_numbers_out_alike(
    spec: FormatSpec,
    sign: Seq<char>,
    digits: Seq<char>,
    length_mod: Seq<char>,
    conv: char,
)
    requires
        !spec.beyond_printf(),
        spec.within_int(),
        0 < sign.len() + digits.len() <= int_max(),
    ensures
        spec.conversion(length_mod, conv, true).number(sign, digits) == spec.number_text(
            sign,
            digits,
        ),
{
}

/// What `printf` prints for a signed integer is what the renderers give, for every
/// specifier that goes to `printf`. Left out are a precision, which only floats take, and
/// a width that `printf` refuses.
pub proof fn printf_agrees_on_integers(spec: FormatSpec, v: i64)
    requires
        !spec.beyond_printf(),
        spec.within_int(),
        spec.precision is None,
    ensures
        spec.conversion("ll"@, spec.conv_char(), true).integer(v) == spec.int_text(
            v as int,
            span_64(),
        ),
{
    assert(v < 0 ==> v as u64 == v + 0x1_0000_0000_0000_0000) by (bit_vector);
    assert(v >= 0 ==> v as u64 == v) by (bit_vector);
    let magnitude: nat = if spec.radix is Dec && v < 0 {
        (-v) as nat
    } else {
        (v as u64) as nat
    };
    numeral_is_canonical(magnitude, spec.radix.base(), spec.radix.upper());
}

/// What `printf` prints for the bits of an unsigned integer is what the renderers give, for
/// every specifier that goes to `printf`. Left out are a precision, a width that `printf`
/// refuses and, in decimal, what is beyond the signed integers: `d` takes its argument as
/// signed.
pub proof fn printf_agrees_on_unsigned_integers(spec: FormatSpec, v: u64)
    requires
        !spec.beyond_printf(),
        spec.within_int(),
        spec.precision is None,
        spec.radix is Dec ==> v <= i64::MAX,
    ensures
        spec.conversion("ll"@, spec.conv_char(), true).integer(v as i64) == spec.uint_text(
            v as nat,
        ),
{
    assert((v as i64) as u64 == v) by (bit_vector);
    assert(v <= 0x7fff_ffff_ffff_ffff ==> v as i64 == v) by (bit_vector);
    numeral_is_canonical(v as nat, spec.radix.base(), spec.radix.upper());
}

/// What `printf` prints for a finite float with the text `body` is what the renderers
/// give, for every specifier with a precision that goes to `printf` and is within what it
/// takes. Without a precision C writes six fractional digits, and the renderers write the
/// natural form.
pub proof fn printf_agrees_on_floats(spec: FormatSpec, body: Seq<char>)
    requires
        !spec.beyond_printf(),
        spec.within_int(),
        spec.precision is Some,
        0 < body.len() <= int_max(),
    ensures
        spec.conversion(""@, 'f', true).float(body) == spec.float_text(body),
{
}

/// What `printf` prints for a string of ASCII is what the renderers give, for every
/// specifier without precision that goes to `printf` and is within what it takes.
pub proof fn printf_agrees_on_strings(spec: FormatSpec, s: Seq<char>)
    requires
        !spec.beyond_printf(),
        spec.within_int(),
        spec.precision is None,
        is_ascii_chars(s),
        s.len() <= int_max(),
    ensures
        spec.conversion(""@, 's', false).string(s) == spec.str_text(s),
{
}

/// A conversion carries the width, the precision, the length modifier and the conversion
/// character that it is made from.
pub proof fn conversion_carries_what_it_is_given(
    spec: FormatSpec,
    length_mod: Seq<char>,
    conv: char,
    numeric: bool,
)
    ensures
        ({
            let c = spec.conversion(length_mod, conv, numeric);
            &&& spec.width is None <==> c.width is None
            &&& spec.width is Some ==> c.width->0 == spec.width->0
            &&& spec.precision is None <==> c.precision is None
            &&& spec.precision is Some ==> c.precision->0 == spec.precision->0
            &&& c.length == length_mod
            &&& c.conv == conv
            &&& c.zero <==> numeric && spec.zero_pad
            &&& c.minus ==> spec.align == Some(Align::Left)
            &&& spec.align == Some(Align::Left) && !c.minus ==> numeric && spec.zero_pad
                && spec.width is Some && spec.width->0 >= 2
            &&& numeric && spec.zero_pad && spec.width is Some && spec.width->0 >= 2 ==> !c.minus
        }),
{
}

/// A conversion is spelled as C reads it: the percent sign, the flags, the width, a dot with
/// the precision, the length modifier and the conversion character. The flag `-` is for `<`,
/// and gives way to zeros that the width has room for.
pub proof fn conversion_is_spelled_as_c_reads_it(
    spec: FormatSpec,
    length_mod: Seq<char>,
    conv: char,
    numeric: bool,
)
    ensures
        ({
            let room = numeric && spec.zero_pad && spec.width is Some && spec.width->0 >= 2;
            spec.conversion(length_mod, conv, numeric).text() == seq!['%'] + (if spec.align
                == Some(Align::Left) && !room {
                seq!['-']
            } else {
                seq![]
            }) + (if numeric && spec.zero_pad {
                seq!['0']
            } else {
                seq![]
            }) + (match spec.width {
                Some(w) => numeral(w as nat, 10, false),
                None => seq![],
            }) + (match spec.precision {
                Some(p) => seq!['.'] + numeral(p as nat, 10, false),
                None => seq![],
            }) + length_mod + seq![conv]
        }),
{
}

/// What `printf` cannot do is centring, binary, and a fill other than the space.
pub proof fn printf_lacks_three_things(spec: FormatSpec)
    ensures
        spec.align == Some(Align::Center) ==> spec.beyond_printf(),
        spec.radix == Radix::Bin ==> spec.beyond_printf(),
        spec.fill is Some && spec.fill->0 != ' ' ==> spec.beyond_printf(),
        spec.align != Some(Align::Center) && spec.radix != Radix::Bin && (spec.fill is None
            || spec.fill->0 == ' ') ==> !spec.beyond_printf(),
{
}

/// Outside binary the conversion character of an integer is the type that says its radix.
pub proof fn conversion_character_is_the_type(spec: FormatSpec)
    ensures
        spec.radix != Radix::Bin ==> radix_of(spec.conv_char()) == Some(spec.radix),
        spec.radix == Radix::Dec || spec.radix == Radix::Bin <==> spec.conv_char() == 'd',
        spec.radix == Radix::Hex <==> spec.conv_char() == 'x',
        spec.radix == Radix::HexUpper <==> spec.conv_char() == 'X',
        spec.radix == Radix::Oct <==> spec.conv_char() == 'o',
{
}

/// An operand that stands for a radix is its base, negative for capital letters, and no
/// other number stands for one.
pub proof fn radix_operand_is_the_base(code: int)
    ensures
        radix_of_code(code) == Some(Radix::Dec) <==> code == 10,
        radix_of_code(code) == Some(Radix::Oct) <==> code == 8,
        radix_of_code(code) == Some(Radix::Hex) <==> code == 16,
        radix_of_code(code) == Some(Radix::HexUpper) <==> code == -16,
        radix_of_code(code) == Some(Radix::Bin) <==> code == 2,
        radix_of_code(code) is None <==> code != 10 && code != 8 && code != 16 && code != -16
            && code != 2,
{
}

} // verus!

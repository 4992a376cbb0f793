//! Rendering a value the way a specifier asks for.

use crate::digits::{numeral, render_numeral};
use crate::format_spec::{Align, FormatSpec, Radix};
use crate::text::{push_run, run};
use vstd::prelude::*;
use vstd::string::{StrSliceExecFns, StringExecFns};
use vstd::utf8::encode_utf8;

verus! {

/// How many values sixty-four bits can hold.
pub open spec fn span_64() -> int {
    0x1_0000_0000_0000_0000
}

/// How many values a hundred and twenty-eight bits can hold.
pub open spec fn span_128() -> int {
    0x1_0000_0000_0000_0000_0000_0000_0000_0000int
}

/// `body` in a field of at least `width` characters. What is missing is filled up with
/// `fill`; a centred body has the odd character on its right.
pub open spec fn aligned(body: Seq<char>, width: nat, align: Align, fill: char) -> Seq<char> {
    if body.len() >= width {
        body
    } else {
        let missing = (width - body.len()) as nat;
        match align {
            Align::Left => body + run(fill, missing),
            Align::Right => run(fill, missing) + body,
            Align::Center => run(fill, missing / 2) + body + run(
                fill,
                (missing - missing / 2) as nat,
            ),
        }
    }
}

/// A number in a field of at least `width` characters: zeros go between the sign and
/// the digits, any other padding goes round the whole number.
pub open spec fn number(
    sign: Seq<char>,
    digits: Seq<char>,
    zero_pad: bool,
    width: nat,
    align: Align,
    fill: char,
) -> Seq<char> {
    if zero_pad && sign.len() + digits.len() < width {
        sign + run('0', (width - sign.len() - digits.len()) as nat) + digits
    } else {
        aligned(sign + digits, width, align, fill)
    }
}

/// The sign of a number: a minus, or nothing.
pub open spec fn sign_text(neg: bool) -> Seq<char> {
    if neg {
        seq!['-']
    } else {
        seq![]
    }
}

/// Whether `body` begins with a minus.
pub open spec fn has_minus(body: Seq<char>) -> bool {
    body.len() > 0 && body[0] == '-'
}

/// `body` without the minus that it may begin with.
pub open spec fn without_minus(body: Seq<char>) -> Seq<char> {
    if has_minus(body) {
        body.skip(1)
    } else {
        body
    }
}

impl Radix {
    /// How many digits there are.
    pub open spec fn base(self) -> nat {
        match self {
            Radix::Dec => 10,
            Radix::Hex => 16,
            Radix::HexUpper => 16,
            Radix::Oct => 8,
            Radix::Bin => 2,
        }
    }

    /// Whether the digits beyond nine are capital letters.
    pub open spec fn upper(self) -> bool {
        self is HexUpper
    }

    /// The digits of `n`.
    pub open spec fn digits(self, n: nat) -> Seq<char> {
        numeral(n, self.base(), self.upper())
    }
}

impl FormatSpec {
    /// The least number of characters of the field; without a width there is none.
    pub open spec fn min_width(self) -> nat {
        match self.width {
            Some(w) => w as nat,
            None => 0,
        }
    }

    /// The character that fills the field up.
    pub open spec fn fill_char(self) -> char {
        match self.fill {
            Some(c) => c,
            None => ' ',
        }
    }

    /// The alignment, or the given one where the specifier has none.
    pub open spec fn align_or(self, default: Align) -> Align {
        match self.align {
            Some(a) => a,
            None => default,
        }
    }

    /// `body` padded to the width.
    pub open spec fn padded(self, body: Seq<char>, default_left: bool) -> Seq<char> {
        let default = if default_left {
            Align::Left
        } else {
            Align::Right
        };
        aligned(body, self.min_width(), self.align_or(default), self.fill_char())
    }

    /// How a number with this sign and these digits is rendered.
    pub open spec fn number_text(self, sign: Seq<char>, digits: Seq<char>) -> Seq<char> {
        number(
            sign,
            digits,
            self.zero_pad,
            self.min_width(),
            self.align_or(Align::Right),
            self.fill_char(),
        )
    }

    /// How an unsigned integer is rendered.
    pub open spec fn uint_text(self, v: nat) -> Seq<char> {
        self.number_text(sign_text(false), self.radix.digits(v))
    }

    /// How a signed integer is rendered that its own width gives `span` values. Only
    /// decimal shows a sign; any other radix shows the two's complement.
    pub open spec fn int_text(self, v: int, span: int) -> Seq<char> {
        if self.radix is Dec {
            self.number_text(
                sign_text(v < 0),
                self.radix.digits(
                    if v < 0 {
                        (-v) as nat
                    } else {
                        v as nat
                    },
                ),
            )
        } else if v < 0 {
            self.uint_text((v + span) as nat)
        } else {
            self.uint_text(v as nat)
        }
    }

    /// The fractional digits of a float; none where it is written in its natural form.
    pub open spec fn fraction_digits(self, integral: bool) -> Option<usize> {
        match self.precision {
            Some(p) => Some(p),
            None => if integral {
                Some(1)
            } else {
                None
            },
        }
    }

    /// How a float is rendered whose digits, with its sign, are `body`.
    pub open spec fn float_text(self, body: Seq<char>) -> Seq<char> {
        self.number_text(sign_text(has_minus(body)), without_minus(body))
    }

    /// How a string is rendered.
    pub open spec fn str_text(self, s: Seq<char>) -> Seq<char> {
        self.padded(s, false)
    }

    /// A string can hold `text`, which is what the specifier renders: no string takes more
    /// than `isize::MAX` bytes. A field of up to a quarter as many characters always can.
    pub open spec fn holdable(self, text: Seq<char>) -> bool {
        self.min_width() <= isize::MAX / 4 || encode_utf8(text).len() <= isize::MAX
    }

    /// Pads `body` to the width. `default_left` says where the body goes when the
    /// specifier does not.
    fn pad(&self, body: &str, default_left: bool) -> (s: String)
        requires
            self.holdable(self.padded(body@, default_left)),
        ensures
            s@ == self.padded(body@, default_left),
            forall|left: bool| #[trigger] self.padded(s@, left) == s@,
    {
        let width: usize = match self.width {
            Some(w) => w,
            None => {
                return body.to_owned();
            },
        };
        let len: usize = body.unicode_len();
        if len >= width {
            return body.to_owned();
        }
        let missing: usize = width - len;
        let fill = match self.fill {
            Some(c) => c,
            None => ' ',
        };
        let align = match self.align {
            Some(a) => a,
            None => if default_left {
                Align::Left
            } else {
                Align::Right
            },
        };
        let mut s = String::new();
        match align {
            Align::Left => {
                s.append(body);
                push_run(&mut s, fill, missing);
            },
            Align::Right => {
                push_run(&mut s, fill, missing);
                s.append(body);
            },
            Align::Center => {
                let left: usize = missing / 2;
                push_run(&mut s, fill, left);
                s.append(body);
                push_run(&mut s, fill, missing - left);
            },
        }
        assert(s@ =~= self.padded(body@, default_left));
        s
    }

    fn render_int_magnitude(&self, mag: u128) -> (s: String)
        ensures
            s@ == self.radix.digits(mag as nat),
    {
        match self.radix {
            Radix::Dec => render_numeral(mag, 10, false),
            Radix::Hex => render_numeral(mag, 16, false),
            Radix::HexUpper => render_numeral(mag, 16, true),
            Radix::Oct => render_numeral(mag, 8, false),
            Radix::Bin => render_numeral(mag, 2, false),
        }
    }

    /// Renders a sign and the digits that go with it.
    fn apply_number(&self, neg: bool, digits: &str) -> (s: String)
        requires
            self.holdable(self.number_text(sign_text(neg), digits@)),
        ensures
            s@ == self.number_text(sign_text(neg), digits@),
    {
        let mut s = String::new();
        if neg {
            s.push('-');
        }
        assert(s@ =~= sign_text(neg));
        if self.zero_pad {
            if let Some(width) = self.width {
                let len: usize = digits.unicode_len();
                if neg {
                    if len < width && 1 < width - len {
                        push_run(&mut s, '0', width - len - 1);
                        s.append(digits);
                        return s;
                    }
                } else if len < width {
                    push_run(&mut s, '0', width - len);
                    s.append(digits);
                    return s;
                }
            }
        }
        s.append(digits);
        self.pad(s.as_str(), false)
    }

    /// Renders a sign and a magnitude. Whether a negative number was read as the two's
    /// complement of its width has been decided by then: only the caller knows the
    /// width of the hole.
    fn apply_magnitude(&self, neg: bool, mag: u128) -> (s: String)
        requires
            self.holdable(self.number_text(sign_text(neg), self.radix.digits(mag as nat))),
        ensures
            s@ == self.number_text(sign_text(neg), self.radix.digits(mag as nat)),
            ({
                let sign = sign_text(neg);
                let digits = self.radix.digits(mag as nat);
                let have = sign.len() + digits.len();
                if self.zero_pad && have < self.min_width() {
                    &&& s@ == sign + run('0', (self.min_width() - have) as nat) + digits
                    &&& s@.len() == self.min_width()
                } else {
                    &&& s@ == self.padded(sign + digits, false)
                    &&& have >= self.min_width() ==> s@ == sign + digits
                }
            }),
    {
        let digits = self.render_int_magnitude(mag);
        self.apply_number(neg, digits.as_str())
    }

    /// Renders a signed integer at 64-bit width. Only decimal takes the sign: `-1` is
    /// sixteen `f` in hexadecimal.
    pub fn apply_int(&self, v: i64) -> (s: String)
        requires
            self.holdable(self.int_text(v as int, span_64())),
        ensures
            s@ == self.int_text(v as int, span_64()),
    {
        match self.radix {
            Radix::Dec => {
                let mag: u128 = if v < 0 {
                    (-(v as i128)) as u128
                } else {
                    v as u128
                };
                self.apply_magnitude(v < 0, mag)
            },
            _ => {
                let bits: u64 = v as u64;
                assert(v < 0 ==> v as u64 == v + 0x1_0000_0000_0000_0000) by (bit_vector);
                assert(v >= 0 ==> v as u64 == v) by (bit_vector);
                self.apply_magnitude(false, bits as u128)
            },
        }
    }

    /// Renders an unsigned integer at 64-bit width.
    pub fn apply_uint(&self, v: u64) -> (s: String)
        requires
            self.holdable(self.uint_text(v as nat)),
        ensures
            s@ == self.uint_text(v as nat),
    {
        self.apply_magnitude(false, v as u128)
    }

    /// Renders a signed integer at 128-bit width: `-1` is thirty-two `f` in hexadecimal.
    pub fn apply_int128(&self, v: i128) -> (s: String)
        requires
            self.holdable(self.int_text(v as int, span_128())),
        ensures
            s@ == self.int_text(v as int, span_128()),
    {
        match self.radix {
            Radix::Dec => {
                let mag: u128 = if v < 0 {
                    (-(v + 1)) as u128 + 1
                } else {
                    v as u128
                };
                self.apply_magnitude(v < 0, mag)
            },
            _ => {
                let bits: u128 = v as u128;
                assert(v < 0 ==> v as u128 == v + 0xffff_ffff_ffff_ffff_ffff_ffff_ffff_ffffu128 + 1)
                    by (bit_vector);
                assert(v >= 0 ==> v as u128 == v) by (bit_vector);
                self.apply_magnitude(false, bits)
            },
        }
    }

    /// Renders an unsigned integer at 128-bit width.
    pub fn apply_uint128(&self, v: u128) -> (s: String)
        requires
            self.holdable(self.uint_text(v as nat)),
        ensures
            s@ == self.uint_text(v as nat),
    {
        self.apply_magnitude(false, v)
    }

    /// How many fractional digits a float is written with: the precision, or one where
    /// there is none and the value is `integral` (finite and without a fraction); else
    /// it is written in its natural form.
    pub fn float_digits(&self, integral: bool) -> (n: Option<usize>)
        ensures
            n == self.fraction_digits(integral),
            self.precision is Some ==> n == self.precision,
            self.precision is None ==> n == if integral {
                Some(1usize)
            } else {
                None
            },
    {
        match self.precision {
            Some(p) => Some(p),
            None => if integral {
                Some(1)
            } else {
                None
            },
        }
    }

    /// Renders a float. `body` is its text, with [`Self::float_digits`] fractional
    /// digits; zeros and width apply to the whole number.
    pub fn apply_float(&self, body: &str) -> (s: String)
        requires
            self.holdable(self.float_text(body@)),
        ensures
            s@ == self.float_text(body@),
    {
        let len: usize = body.unicode_len();
        if len > 0 && body.get_char(0) == '-' {
            let rest = body.substring_char(1, len);
            self.apply_number(true, rest)
        } else {
            self.apply_number(false, body)
        }
    }

    /// Renders a string: width, alignment and fill. Like a number it is on the right
    /// unless the specifier says otherwise; a precision does not count.
    pub fn apply_str(&self, s: &str) -> (r: String)
        requires
            self.holdable(self.str_text(s@)),
        ensures
            r@ == self.str_text(s@),
    {
        self.pad(s, false)
    }
}

} // verus!

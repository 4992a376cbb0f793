//! Format specifiers: what they look like and how they are read.
//!
//! ```text
//! spec   := [[fill] align] ['0'] [width] ['.' precision] [type]
//! align  := '<' | '>' | '^'
//! width  := DIGIT+
//! prec   := DIGIT+
//! type   := 'x' | 'X' | 'o' | 'b' | 'd'
//! ```
//!
//! `fill` is any single character and needs an explicit `align` after it, so that a
//! bare `0` is the zero-pad flag and never a fill character. A specifier that is not of
//! this form is refused: none of its parts is ever dropped in silence.

use crate::digits::{all_digits, is_digit, read_decimal, value};
use crate::text::{chars_of, text_of};
use vstd::prelude::*;
use vstd::string::StringExecFns;

verus! {

/// Text alignment within the field width.
#[derive(Debug, Clone, Copy, PartialEq, Eq, Structural)]
pub enum Align {
    Left,
    Right,
    Center,
}

/// Integer radix and rendering type.
#[derive(Debug, Clone, Copy, PartialEq, Eq, Structural)]
pub enum Radix {
    Dec,
    Hex,
    HexUpper,
    Oct,
    Bin,
}

/// A specifier that has been read.
#[derive(Debug, PartialEq, Eq)]
pub struct FormatSpec {
    pub fill: Option<char>,
    pub align: Option<Align>,
    /// The `0` flag: numbers are padded with zeros after the sign.
    pub zero_pad: bool,
    pub width: Option<usize>,
    pub precision: Option<usize>,
    pub radix: Radix,
}

impl Clone for FormatSpec {
    fn clone(&self) -> (r: Self)
        ensures
            r == *self,
    {
        FormatSpec {
            fill: self.fill,
            align: self.align,
            zero_pad: self.zero_pad,
            width: self.width,
            precision: self.precision,
            radix: self.radix,
        }
    }
}

/// What makes a specifier unreadable.
pub enum Fault {
    /// The width, written thus, does not fit in `usize`.
    WidthOutOfRange(Seq<char>),
    /// A `.` without digits after it.
    MissingPrecision,
    /// The precision, written thus, does not fit in `usize`.
    PrecisionOutOfRange(Seq<char>),
    /// This character stands where the type should.
    UnsupportedType(char),
    /// This is left over after the type.
    Trailing(Seq<char>),
    /// A precision together with a type other than `d`.
    PrecisionWithIntegerType,
}

impl Fault {
    /// How the fault is reported for the specifier `raw`.
    pub open spec fn message(self, raw: Seq<char>) -> Seq<char> {
        match self {
            Fault::WidthOutOfRange(w) => "format spec width `"@ + w + "` is out of range"@,
            Fault::MissingPrecision => "format spec `"@ + raw
                + "`: `.` must be followed by a precision (e.g. `.2`)"@,
            Fault::PrecisionOutOfRange(p) => "format spec precision `"@ + p
                + "` is out of range"@,
            Fault::UnsupportedType(c) => "format spec `"@ + raw + "`: unsupported type `"@
                + seq![c] + "` (expected one of x, X, o, b, d)"@,
            Fault::Trailing(rest) => "format spec `"@ + raw + "`: unexpected trailing `"@ + rest
                + "`"@,
            Fault::PrecisionWithIntegerType => "format spec `"@ + raw
                + "`: precision is not valid with an integer type"@,
        }
    }
}

/// The alignment that a character stands for.
pub open spec fn align_of(c: char) -> Option<Align> {
    if c == '<' {
        Some(Align::Left)
    } else if c == '>' {
        Some(Align::Right)
    } else if c == '^' {
        Some(Align::Center)
    } else {
        None
    }
}

/// The radix that a type character stands for.
pub open spec fn radix_of(c: char) -> Option<Radix> {
    if c == 'x' {
        Some(Radix::Hex)
    } else if c == 'X' {
        Some(Radix::HexUpper)
    } else if c == 'o' {
        Some(Radix::Oct)
    } else if c == 'b' {
        Some(Radix::Bin)
    } else if c == 'd' {
        Some(Radix::Dec)
    } else {
        None
    }
}

/// How many characters of `s` the part `[[fill] align]` takes. An alignment in second
/// place makes the first character a fill, whatever that character is.
pub open spec fn align_len(s: Seq<char>) -> int {
    if s.len() >= 2 && align_of(s[1]) is Some {
        2
    } else if s.len() >= 1 && align_of(s[0]) is Some {
        1
    } else {
        0
    }
}

/// The first place at or after `i` where `s` has no digit.
pub open spec fn digits_end(s: Seq<char>, i: int) -> int
    decreases s.len() - i,
{
    if 0 <= i < s.len() && is_digit(s[i]) {
        digits_end(s, i + 1)
    } else {
        i
    }
}

/// Where the parts of a specifier begin and end: it is cut up from left to right, and
/// each part takes all that it can.
pub struct Cuts {
    /// Behind `[[fill] align]`.
    pub align: int,
    /// Behind the flag, where the width begins.
    pub flag: int,
    /// Behind the width.
    pub width: int,
    /// Behind the `.`, if one follows the width; else where the width ends.
    pub dot: int,
    /// Behind the precision, where the type stands.
    pub precision: int,
}

/// The cuts of `s`.
pub open spec fn cuts(s: Seq<char>) -> Cuts {
    let align = align_len(s);
    let flag = if align < s.len() && s[align] == '0' {
        align + 1
    } else {
        align
    };
    let width = digits_end(s, flag);
    let dot = if width < s.len() && s[width] == '.' {
        width + 1
    } else {
        width
    };
    let precision = if dot > width {
        digits_end(s, dot)
    } else {
        dot
    };
    Cuts { align, flag, width, dot, precision }
}

/// What the specifier `s` says, or the first fault in it.
pub open spec fn parsed(s: Seq<char>) -> Result<FormatSpec, Fault> {
    let at = cuts(s);
    let width = s.subrange(at.flag, at.width);
    let precision = s.subrange(at.dot, at.precision);
    let radix = if at.precision < s.len() {
        radix_of(s[at.precision])
    } else {
        Some(Radix::Dec)
    };
    if value(width, 10) > usize::MAX {
        Err(Fault::WidthOutOfRange(width))
    } else if at.dot > at.width && precision.len() == 0 {
        Err(Fault::MissingPrecision)
    } else if value(precision, 10) > usize::MAX {
        Err(Fault::PrecisionOutOfRange(precision))
    } else if radix is None {
        Err(Fault::UnsupportedType(s[at.precision]))
    } else if at.precision + 1 < s.len() {
        Err(Fault::Trailing(s.skip(at.precision + 1)))
    } else if radix != Some(Radix::Dec) && precision.len() > 0 {
        Err(Fault::PrecisionWithIntegerType)
    } else {
        Ok(
            FormatSpec {
                fill: if at.align == 2 {
                    Some(s[0])
                } else {
                    None
                },
                align: if at.align > 0 {
                    align_of(s[at.align - 1])
                } else {
                    None
                },
                zero_pad: at.flag > at.align,
                width: if width.len() > 0 {
                    Some(value(width, 10) as usize)
                } else {
                    None
                },
                precision: if precision.len() > 0 {
                    Some(value(precision, 10) as usize)
                } else {
                    None
                },
                radix: radix->0,
            },
        )
    }
}

/// The digits that begin at `i` end inside `s`, and there are only digits among them.
pub proof fn digits_end_is_behind_digits(s: Seq<char>, i: int)
    requires
        0 <= i <= s.len(),
    ensures
        i <= digits_end(s, i) <= s.len(),
        all_digits(s.subrange(i, digits_end(s, i))),
        digits_end(s, i) < s.len() ==> !is_digit(s[digits_end(s, i)]),
    decreases s.len() - i,
{
    if i < s.len() && is_digit(s[i]) {
        digits_end_is_behind_digits(s, i + 1);
        let end = digits_end(s, i);
        assert forall|j: int| 0 <= j < end - i implies is_digit(
            #[trigger] s.subrange(i, end)[j],
        ) by {
            if j > 0 {
                assert(s.subrange(i, end)[j] == s.subrange(i + 1, end)[j - 1]);
            }
        }
    }
}

fn align_char(c: char) -> (a: Option<Align>)
    ensures
        a == align_of(c),
{
    match c {
        '<' => Some(Align::Left),
        '>' => Some(Align::Right),
        '^' => Some(Align::Center),
        _ => None,
    }
}

fn radix_char(c: char) -> (r: Option<Radix>)
    ensures
        r == radix_of(c),
{
    match c {
        'x' => Some(Radix::Hex),
        'X' => Some(Radix::HexUpper),
        'o' => Some(Radix::Oct),
        'b' => Some(Radix::Bin),
        'd' => Some(Radix::Dec),
        _ => None,
    }
}

/// The first place at or after `from` that holds no digit.
fn skip_digits(chars: &Vec<char>, from: usize) -> (end: usize)
    requires
        from <= chars.len(),
    ensures
        end == digits_end(chars@, from as int),
        from <= end <= chars.len(),
        all_digits(chars@.subrange(from as int, end as int)),
{
    let mut i: usize = from;
    while i < chars.len() && '0' <= chars[i] && chars[i] <= '9'
        invariant
            from <= i <= chars.len(),
            digits_end(chars@, from as int) == digits_end(chars@, i as int),
        decreases chars.len() - i,
    {
        i += 1;
    }
    proof {
        digits_end_is_behind_digits(chars@, from as int);
    }
    i
}

/// `before`, `middle` and `after` in a row.
fn join(before: &str, middle: &str, after: &str) -> (s: String)
    ensures
        s@ == before@ + middle@ + after@,
{
    let mut s = String::new();
    s.append(before);
    s.append(middle);
    s.append(after);
    assert(s@ =~= before@ + middle@ + after@);
    s
}

impl FormatSpec {
    /// Reads a specifier, the text behind the `:` of a hole. One that cannot be read is
    /// refused with a message that says why.
    pub fn parse(raw: &str) -> (r: Result<FormatSpec, String>)
        ensures
            r is Ok <==> parsed(raw@) is Ok,
            r matches Ok(spec) ==> parsed(raw@) == Ok::<FormatSpec, Fault>(spec),
            r matches Err(m) ==> m@ == parsed(raw@)->Err_0.message(raw@),
    {
        let mut spec = FormatSpec {
            fill: None,
            align: None,
            zero_pad: false,
            width: None,
            precision: None,
            radix: Radix::Dec,
        };
        let chars = chars_of(raw);
        let mut i: usize = 0;
        let ghost at = cuts(raw@);

        if chars.len() >= 2 {
            if let Some(a) = align_char(chars[1]) {
                spec.fill = Some(chars[0]);
                spec.align = Some(a);
                i = 2;
            }
        }
        if spec.align.is_none() && chars.len() >= 1 {
            if let Some(a) = align_char(chars[0]) {
                spec.align = Some(a);
                i = 1;
            }
        }
        assert(i == at.align);

        if i < chars.len() && chars[i] == '0' {
            spec.zero_pad = true;
            i += 1;
        }
        assert(i == at.flag);

        let width_start: usize = i;
        i = skip_digits(&chars, i);
        if i > width_start {
            match read_decimal(&chars, width_start, i) {
                Some(w) => {
                    spec.width = Some(w);
                },
                None => {
                    let w = text_of(&chars, width_start, i);
                    return Err(join("format spec width `", w.as_str(), "` is out of range"));
                },
            }
        }
        assert(i == at.width);

        if i < chars.len() && chars[i] == '.' {
            i += 1;
            let prec_start: usize = i;
            i = skip_digits(&chars, i);
            if i == prec_start {
                return Err(
                    join(
                        "format spec `",
                        raw,
                        "`: `.` must be followed by a precision (e.g. `.2`)",
                    ),
                );
            }
            match read_decimal(&chars, prec_start, i) {
                Some(p) => {
                    spec.precision = Some(p);
                },
                None => {
                    let p = text_of(&chars, prec_start, i);
                    return Err(
                        join("format spec precision `", p.as_str(), "` is out of range"),
                    );
                },
            }
        }
        assert(i == at.precision);

        if i < chars.len() {
            match radix_char(chars[i]) {
                Some(r) => {
                    spec.radix = r;
                },
                None => {
                    let mut m = join("format spec `", raw, "`: unsupported type `");
                    m.push(chars[i]);
                    m.append("` (expected one of x, X, o, b, d)");
                    assert(m@ =~= Fault::UnsupportedType(raw@[i as int]).message(raw@));
                    return Err(m);
                },
            }
            i += 1;
        }
        if i != chars.len() {
            let rest = text_of(&chars, i, chars.len());
            let mut m = join("format spec `", raw, "`: unexpected trailing `");
            m.append(rest.as_str());
            m.append("`");
            assert(m@ =~= Fault::Trailing(raw@.skip(i as int)).message(raw@));
            return Err(m);
        }
        if spec.radix != Radix::Dec && spec.precision.is_some() {
            return Err(
                join(
                    "format spec `",
                    raw,
                    "`: precision is not valid with an integer type",
                ),
            );
        }
        Ok(spec)
    }
}

} // verus!

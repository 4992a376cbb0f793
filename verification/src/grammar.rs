//! The grammar of specifiers as a set of texts, and how reading relates to it: exactly
//! the texts of the grammar are read, each part means what it says, and every specifier
//! that can be read has a text.

use crate::digits::{
    all_digits,
    decimal_numeral_is_digits,
    is_digit,
    leading_zeros_are_worthless,
    numeral,
    numeral_is_canonical,
    numeral_reads_back,
    value,
};
use crate::format_spec::{
    align_len,
    align_of,
    cuts,
    digits_end,
    digits_end_is_behind_digits,
    parsed,
    radix_of,
    Align,
    Cuts,
    Fault,
    FormatSpec,
    Radix,
};
use crate::text::run;
use vstd::prelude::*;

verus! {

/// The parts of a specifier, as they are written.
pub struct Parts {
    pub fill: Option<char>,
    pub align: Option<char>,
    pub zero: bool,
    /// Empty where there is no width.
    pub width: Seq<char>,
    pub precision: Option<Seq<char>>,
    pub kind: Option<char>,
}

/// A text of one character, or none.
pub open spec fn maybe(c: Option<char>) -> Seq<char> {
    match c {
        Some(c) => seq![c],
        None => seq![],
    }
}

impl Parts {
    /// `[fill] align`.
    pub open spec fn head(self) -> Seq<char> {
        maybe(self.fill) + maybe(self.align)
    }

    /// The flag.
    pub open spec fn flag(self) -> Seq<char> {
        if self.zero {
            seq!['0']
        } else {
            seq![]
        }
    }

    /// The precision with its dot.
    pub open spec fn dotted(self) -> Seq<char> {
        match self.precision {
            Some(p) => seq!['.'] + p,
            None => seq![],
        }
    }

    /// The parts in a row.
    pub open spec fn text(self) -> Seq<char> {
        self.head() + self.flag() + self.width + self.dotted() + maybe(self.kind)
    }

    /// The digits of the precision.
    pub open spec fn precision_digits(self) -> Seq<char> {
        match self.precision {
            Some(p) => p,
            None => seq![],
        }
    }

    /// What the type asks for; without one it is decimal.
    pub open spec fn radix(self) -> Radix {
        match self.kind {
            Some(c) => radix_of(c)->0,
            None => Radix::Dec,
        }
    }

    /// Each part is of the form that the grammar gives it, the numbers fit in `usize`,
    /// and a precision stands only with decimal.
    pub open spec fn well_formed(self) -> bool {
        &&& self.fill is Some ==> self.align is Some
        &&& self.align matches Some(c) ==> align_of(c) is Some
        &&& all_digits(self.width)
        &&& self.precision matches Some(p) ==> p.len() > 0 && all_digits(p)
        &&& self.kind matches Some(c) ==> radix_of(c) is Some
        &&& value(self.width, 10) <= usize::MAX
        &&& value(self.precision_digits(), 10) <= usize::MAX
        &&& self.precision is Some ==> self.radix() is Dec
    }

    /// A leading zero is the flag, not a digit of the width.
    pub open spec fn flag_first(self) -> bool {
        self.zero || self.width.len() == 0 || self.width[0] != '0'
    }

    /// What the parts mean.
    pub open spec fn meaning(self) -> FormatSpec {
        FormatSpec {
            fill: self.fill,
            align: match self.align {
                Some(c) => align_of(c),
                None => None,
            },
            zero_pad: self.zero,
            width: if self.width.len() > 0 {
                Some(value(self.width, 10) as usize)
            } else {
                None
            },
            precision: match self.precision {
                Some(p) => Some(value(p, 10) as usize),
                None => None,
            },
            radix: self.radix(),
        }
    }
}

/// The character that stands for an alignment.
pub open spec fn align_mark(a: Align) -> char {
    match a {
        Align::Left => '<',
        Align::Right => '>',
        Align::Center => '^',
    }
}

/// The character that stands for a radix; decimal needs none.
pub open spec fn radix_mark(r: Radix) -> Option<char> {
    match r {
        Radix::Dec => None,
        Radix::Hex => Some('x'),
        Radix::HexUpper => Some('X'),
        Radix::Oct => Some('o'),
        Radix::Bin => Some('b'),
    }
}

/// A specifier that some text says: a fill has an alignment, a precision is with decimal,
/// and a width of zero has the flag before it, which it would be taken for otherwise.
pub open spec fn sayable(spec: FormatSpec) -> bool {
    &&& spec.fill is Some ==> spec.align is Some
    &&& spec.precision is Some ==> spec.radix is Dec
    &&& spec.width == Some(0usize) ==> spec.zero_pad
}

/// How a specifier is written.
pub open spec fn written(spec: FormatSpec) -> Parts {
    Parts {
        fill: spec.fill,
        align: match spec.align {
            Some(a) => Some(align_mark(a)),
            None => None,
        },
        zero: spec.zero_pad,
        width: match spec.width {
            Some(w) => numeral(w as nat, 10, false),
            None => seq![],
        },
        precision: match spec.precision {
            Some(p) => Some(numeral(p as nat, 10, false)),
            None => None,
        },
        kind: radix_mark(spec.radix),
    }
}

/// Digits that no digit follows are all that are taken.
proof fn digits_end_at(s: Seq<char>, i: int, j: int)
    requires
        0 <= i <= j <= s.len(),
        all_digits(s.subrange(i, j)),
        j < s.len() ==> !is_digit(s[j]),
    ensures
        digits_end(s, i) == j,
    decreases j - i,
{
    if i < j {
        assert(s.subrange(i, j)[0] == s[i]);
        assert forall|k: int| 0 <= k < j - i - 1 implies is_digit(
            #[trigger] s.subrange(i + 1, j)[k],
        ) by {
            assert(s.subrange(i, j)[k + 1] == s.subrange(i + 1, j)[k]);
        }
        digits_end_at(s, i + 1, j);
    }
}

/// A first digit other than zero makes the number other than zero.
proof fn leading_digit_counts(s: Seq<char>)
    requires
        s.len() > 0,
        is_digit(s[0]),
        s[0] != '0',
    ensures
        value(s, 10) > 0,
    decreases s.len(),
{
    if s.len() > 1 {
        assert(s.drop_last()[0] == s[0]);
        leading_digit_counts(s.drop_last());
    }
}

impl Parts {
    /// Where the parts end in the text.
    pub open spec fn ends(self) -> Cuts {
        let align = self.head().len() as int;
        let flag = align + self.flag().len();
        let width = flag + self.width.len();
        Cuts {
            align,
            flag,
            width,
            dot: width + if self.precision is Some {
                1int
            } else {
                0int
            },
            precision: width + self.dotted().len(),
        }
    }
}

/// What stands where in the text of the parts.
proof fn text_by_parts(p: Parts)
    requires
        p.well_formed(),
    ensures
        p.text().len() == p.ends().precision + maybe(p.kind).len(),
        p.text().subrange(0, p.ends().align) == p.head(),
        p.text().subrange(p.ends().align, p.ends().flag) == p.flag(),
        p.text().subrange(p.ends().flag, p.ends().width) == p.width,
        p.text().subrange(p.ends().dot, p.ends().precision) == p.precision_digits(),
        p.precision is Some ==> p.text()[p.ends().width] == '.',
        p.kind matches Some(c) ==> p.text()[p.ends().precision] == c,
{
    let s = p.text();
    let at = p.ends();
    assert(s.subrange(0, at.align) =~= p.head());
    assert(s.subrange(at.align, at.flag) =~= p.flag());
    assert(s.subrange(at.flag, at.width) =~= p.width);
    if p.precision is Some {
        assert(s[at.width] == p.dotted()[0]);
    }
    assert(s.subrange(at.dot, at.precision) =~= p.precision_digits());
}

/// No alignment stands behind the first part.
proof fn one_alignment_at_most(p: Parts, i: int)
    requires
        p.well_formed(),
        p.ends().align <= i < p.text().len(),
    ensures
        align_of(p.text()[i]) is None,
{
    let s = p.text();
    let at = p.ends();
    text_by_parts(p);
    if i < at.flag {
        assert(s[i] == s.subrange(at.align, at.flag)[i - at.align]);
    } else if i < at.width {
        assert(s[i] == s.subrange(at.flag, at.width)[i - at.flag]);
        assert(is_digit(p.width[i - at.flag]));
    } else if i < at.precision {
        if i >= at.dot {
            assert(s[i] == s.subrange(at.dot, at.precision)[i - at.dot]);
            assert(is_digit(p.precision_digits()[i - at.dot]));
        }
    }
}

/// The text of the parts is cut where they end.
proof fn text_is_cut_into_parts(p: Parts)
    requires
        p.well_formed(),
        p.flag_first(),
    ensures
        cuts(p.text()) == p.ends(),
{
    let s = p.text();
    let at = p.ends();
    text_by_parts(p);
    let head = s.subrange(0, at.align);
    assert(align_len(s) == at.align) by {
        if at.align >= 1 {
            assert(s[0] == head[0]);
        }
        if at.align == 2 {
            assert(s[1] == head[1]);
        }
        if s.len() >= 2 && at.align < 2 {
            one_alignment_at_most(p, 1);
        }
        if s.len() >= 1 && at.align == 0 {
            one_alignment_at_most(p, 0);
        }
    }
    if p.zero {
        assert(s[at.align] == s.subrange(at.align, at.flag)[0]);
    } else if p.width.len() > 0 {
        assert(s[at.align] == s.subrange(at.flag, at.width)[0]);
    }
    assert(cuts(s).flag == at.flag);
    digits_end_at(s, at.flag, at.width);
    if p.precision is Some {
        digits_end_at(s, at.dot, at.precision);
    }
}

/// Parts of the grammar are read as what they mean, as long as a leading zero of theirs
/// is the flag.
pub proof fn parts_are_read_as_meant(p: Parts)
    requires
        p.well_formed(),
        p.flag_first(),
    ensures
        parsed(p.text()) == Ok::<FormatSpec, Fault>(p.meaning()),
{
    let s = p.text();
    text_by_parts(p);
    text_is_cut_into_parts(p);
    let head = s.subrange(0, p.ends().align);
    if p.ends().align >= 1 {
        assert(s[0] == head[0]);
    }
    if p.ends().align == 2 {
        assert(s[1] == head[1]);
    }
}

impl Parts {
    /// The same parts, with a zero that leads the width taken for the flag.
    pub open spec fn with_flag_first(self) -> Parts {
        if self.flag_first() {
            self
        } else {
            Parts { zero: true, width: self.width.skip(1), ..self }
        }
    }
}

/// Taking a leading zero for the flag changes neither the text nor the numbers.
proof fn flag_can_come_first(p: Parts)
    requires
        p.well_formed(),
    ensures
        p.with_flag_first().well_formed(),
        p.with_flag_first().flag_first(),
        p.with_flag_first().text() == p.text(),
{
    let q = p.with_flag_first();
    if !p.flag_first() {
        assert(q.text() == p.text()) by {
            assert(seq!['0'] + p.width.skip(1) =~= p.width);
            assert(p.head() + p.flag() + p.width =~= q.head() + q.flag() + q.width);
        }
        assert(value(q.width, 10) == value(p.width, 10)) by {
            assert(run('0', 1) + p.width.skip(1) =~= p.width);
            leading_zeros_are_worthless(p.width.skip(1), 1, 10);
        }
        assert forall|i: int| 0 <= i < q.width.len() implies is_digit(#[trigger] q.width[i]) by {
            assert(is_digit(p.width[i + 1]));
        }
    }
}

/// Every text of the grammar is read.
pub proof fn grammar_is_read(p: Parts)
    requires
        p.well_formed(),
    ensures
        parsed(p.text()) == Ok::<FormatSpec, Fault>(p.with_flag_first().meaning()),
{
    flag_can_come_first(p);
    parts_are_read_as_meant(p.with_flag_first());
}

/// `s` is a text of the grammar.
pub open spec fn in_grammar(s: Seq<char>) -> bool {
    exists|p: Parts| #[trigger] p.well_formed() && p.text() == s
}

/// The specifiers that are read are exactly the texts of the grammar.
pub proof fn exactly_the_grammar_is_read(s: Seq<char>)
    ensures
        parsed(s) is Ok <==> in_grammar(s),
{
    if parsed(s) is Ok {
        read_text_has_parts(s);
        assert(parts_of(s).well_formed());
    }
    if in_grammar(s) {
        grammar_is_read(choose|p: Parts| #[trigger] p.well_formed() && p.text() == s);
    }
}

/// The parts that a text is cut into.
pub open spec fn parts_of(s: Seq<char>) -> Parts {
    let at = cuts(s);
    Parts {
        fill: if at.align == 2 {
            Some(s[0])
        } else {
            None
        },
        align: if at.align > 0 {
            Some(s[at.align - 1])
        } else {
            None
        },
        zero: at.flag > at.align,
        width: s.subrange(at.flag, at.width),
        precision: if at.dot > at.width {
            Some(s.subrange(at.dot, at.precision))
        } else {
            None
        },
        kind: if at.precision < s.len() {
            Some(s[at.precision])
        } else {
            None
        },
    }
}

/// A text that can be read is made of its parts, which are of the grammar, begin with the
/// flag where they can, and mean what is read.
pub proof fn read_text_has_parts(s: Seq<char>)
    requires
        parsed(s) is Ok,
    ensures
        parts_of(s).text() == s,
        parts_of(s).well_formed(),
        parts_of(s).flag_first(),
        parsed(s)->Ok_0 == parts_of(s).meaning(),
{
    let at = cuts(s);
    let p = parts_of(s);
    digits_end_is_behind_digits(s, at.flag);
    if at.dot > at.width {
        digits_end_is_behind_digits(s, at.dot);
    }
    assert(s =~= p.text());
    if p.width.len() > 0 {
        assert(p.width[0] == s[at.flag]);
    }
}

/// What is read can be said: nothing else comes out of reading.
pub proof fn what_is_read_is_sayable(s: Seq<char>)
    requires
        parsed(s) is Ok,
    ensures
        sayable(parsed(s)->Ok_0),
{
    read_text_has_parts(s);
    let p = parts_of(s);
    if p.width.len() > 0 && !p.zero {
        assert(is_digit(p.width[0]));
        leading_digit_counts(p.width);
    }
}

/// The parts that a specifier is written in are of the grammar and mean the specifier.
proof fn written_parts_mean_the_specifier(spec: FormatSpec)
    requires
        sayable(spec),
    ensures
        written(spec).well_formed(),
        written(spec).flag_first(),
        written(spec).meaning() == spec,
{
    if let Some(w) = spec.width {
        numeral_reads_back(w as nat, 10, false);
        numeral_is_canonical(w as nat, 10, false);
        decimal_numeral_is_digits(w as nat);
    }
    if let Some(n) = spec.precision {
        numeral_reads_back(n as nat, 10, false);
        numeral_is_canonical(n as nat, 10, false);
        decimal_numeral_is_digits(n as nat);
    }
}

/// A specifier that can be said is read back from the way it is written.
pub proof fn written_specifier_reads_back(spec: FormatSpec)
    requires
        sayable(spec),
    ensures
        parsed(written(spec).text()) == Ok::<FormatSpec, Fault>(spec),
{
    written_parts_mean_the_specifier(spec);
    parts_are_read_as_meant(written(spec));
}

/// The characters that a specifier is made of: three alignments, five types, ten digits.
pub proof fn characters_of_the_grammar(c: char)
    ensures
        align_of(c) == Some(Align::Left) <==> c == '<',
        align_of(c) == Some(Align::Right) <==> c == '>',
        align_of(c) == Some(Align::Center) <==> c == '^',
        align_of(c) is None <==> c != '<' && c != '>' && c != '^',
        radix_of(c) == Some(Radix::Hex) <==> c == 'x',
        radix_of(c) == Some(Radix::HexUpper) <==> c == 'X',
        radix_of(c) == Some(Radix::Oct) <==> c == 'o',
        radix_of(c) == Some(Radix::Bin) <==> c == 'b',
        radix_of(c) == Some(Radix::Dec) <==> c == 'd',
        radix_of(c) is None <==> c != 'x' && c != 'X' && c != 'o' && c != 'b' && c != 'd',
        is_digit(c) <==> '0' <= c && c <= '9',
{
}

/// A specifier is read from its parts in a row: the fill, the alignment as `<`, `>` or `^`,
/// the flag as `0`, the digits of the width, a dot with the digits of the precision, and the
/// type as `x`, `X`, `o`, `b` or `d`, which decimal can do without.
pub proof fn specifier_is_read_as_it_is_spelled(
    spec: FormatSpec,
    width: Seq<char>,
    precision: Seq<char>,
    kind: Seq<char>,
)
    requires
        spec.fill is Some ==> spec.align is Some,
        spec.precision is Some ==> spec.radix == Radix::Dec,
        forall|i: int| 0 <= i < width.len() ==> '0' <= #[trigger] width[i] && width[i] <= '9',
        spec.width is None <==> width.len() == 0,
        spec.width matches Some(n) ==> n == value(width, 10),
        spec.zero_pad || width.len() == 0 || width[0] != '0',
        forall|i: int|
            0 <= i < precision.len() ==> '0' <= #[trigger] precision[i] && precision[i] <= '9',
        spec.precision is None <==> precision.len() == 0,
        spec.precision matches Some(n) ==> n == value(precision, 10),
        match spec.radix {
            Radix::Dec => kind == Seq::<char>::empty() || kind == seq!['d'],
            Radix::Hex => kind == seq!['x'],
            Radix::HexUpper => kind == seq!['X'],
            Radix::Oct => kind == seq!['o'],
            Radix::Bin => kind == seq!['b'],
        },
    ensures
        parsed(
            (match spec.fill {
                Some(c) => seq![c],
                None => seq![],
            }) + (match spec.align {
                Some(Align::Left) => seq!['<'],
                Some(Align::Right) => seq!['>'],
                Some(Align::Center) => seq!['^'],
                None => seq![],
            }) + (if spec.zero_pad {
                seq!['0']
            } else {
                seq![]
            }) + width + (if spec.precision is Some {
                seq!['.'] + precision
            } else {
                seq![]
            }) + kind,
        ) == Ok::<FormatSpec, Fault>(spec),
{
    let p = Parts {
        fill: spec.fill,
        align: match spec.align {
            Some(Align::Left) => Some('<'),
            Some(Align::Right) => Some('>'),
            Some(Align::Center) => Some('^'),
            None => None,
        },
        zero: spec.zero_pad,
        width,
        precision: if spec.precision is Some {
            Some(precision)
        } else {
            None
        },
        kind: if kind.len() == 0 {
            None
        } else {
            Some(kind[0])
        },
    };
    let text = (match spec.fill {
        Some(c) => seq![c],
        None => seq![],
    }) + (match spec.align {
        Some(Align::Left) => seq!['<'],
        Some(Align::Right) => seq!['>'],
        Some(Align::Center) => seq!['^'],
        None => seq![],
    }) + (if spec.zero_pad {
        seq!['0']
    } else {
        seq![]
    }) + width + (if spec.precision is Some {
        seq!['.'] + precision
    } else {
        seq![]
    }) + kind;
    assert(precision.len() == 0 ==> value(p.precision_digits(), 10) == 0);
    assert(p.text() =~= text);
    parts_are_read_as_meant(p);
}

/// Whatever is read is spelled that way: the text is made of the parts of the specifier that
/// comes out and of nothing else. What is returned are the digits of the width, those of the
/// precision, and the type.
pub proof fn nothing_else_is_read(s: Seq<char>) -> (parts: (Seq<char>, Seq<char>, Seq<char>))
    requires
        parsed(s) is Ok,
    ensures
        ({
            let spec = parsed(s)->Ok_0;
            let (width, precision, kind) = parts;
            &&& s == (match spec.fill {
                Some(c) => seq![c],
                None => seq![],
            }) + (match spec.align {
                Some(Align::Left) => seq!['<'],
                Some(Align::Right) => seq!['>'],
                Some(Align::Center) => seq!['^'],
                None => seq![],
            }) + (if spec.zero_pad {
                seq!['0']
            } else {
                seq![]
            }) + width + (if spec.precision is Some {
                seq!['.'] + precision
            } else {
                seq![]
            }) + kind
            &&& spec.fill is Some ==> spec.align is Some
            &&& spec.precision is Some ==> spec.radix == Radix::Dec
            &&& forall|i: int|
                0 <= i < width.len() ==> '0' <= #[trigger] width[i] && width[i] <= '9'
            &&& spec.width is None <==> width.len() == 0
            &&& spec.width matches Some(n) ==> n == value(width, 10)
            &&& spec.zero_pad || width.len() == 0 || width[0] != '0'
            &&& forall|i: int|
                0 <= i < precision.len() ==> '0' <= #[trigger] precision[i] && precision[i] <= '9'
            &&& spec.precision is None <==> precision.len() == 0
            &&& spec.precision matches Some(n) ==> n == value(precision, 10)
            &&& match spec.radix {
                Radix::Dec => kind == Seq::<char>::empty() || kind == seq!['d'],
                Radix::Hex => kind == seq!['x'],
                Radix::HexUpper => kind == seq!['X'],
                Radix::Oct => kind == seq!['o'],
                Radix::Bin => kind == seq!['b'],
            }
        }),
{
    read_text_has_parts(s);
    let p = parts_of(s);
    let spec = parsed(s)->Ok_0;
    let kind = maybe(p.kind);
    assert(maybe(p.align) =~= (match spec.align {
        Some(Align::Left) => seq!['<'],
        Some(Align::Right) => seq!['>'],
        Some(Align::Center) => seq!['^'],
        None => seq![],
    }));
    assert forall|i: int| 0 <= i < p.width.len() implies '0' <= #[trigger] p.width[i]
        && p.width[i] <= '9' by {
        assert(is_digit(p.width[i]));
    }
    let precision = p.precision_digits();
    assert forall|i: int| 0 <= i < precision.len() implies '0' <= #[trigger] precision[i]
        && precision[i] <= '9' by {
        assert(is_digit(precision[i]));
    }
    (p.width, precision, kind)
}

/// A text that ends in anything but a digit, an alignment or a type is refused.
pub proof fn unknown_type_is_refused(s: Seq<char>)
    requires
        s.len() > 0,
        !('0' <= s.last() && s.last() <= '9'),
        s.last() != '<' && s.last() != '>' && s.last() != '^',
        s.last() != 'x' && s.last() != 'X' && s.last() != 'o' && s.last() != 'b' && s.last() != 'd',
    ensures
        parsed(s) is Err,
{
    if parsed(s) is Ok {
        let spec = parsed(s)->Ok_0;
        let (width, precision, kind) = nothing_else_is_read(s);
        if kind.len() > 0 {
            assert(s.last() == kind.last());
        } else if spec.precision is Some {
            assert(s.last() == precision.last());
            assert(precision[precision.len() - 1] == s.last());
        } else if width.len() > 0 {
            assert(s.last() == width.last());
            assert(width[width.len() - 1] == s.last());
        }
    }
}

/// A specifier is refused for the first fault from left to right, and is told so. The places
/// are where the alignment, the flag, the width, the dot and the precision end.
pub proof fn first_fault_is_told(
    s: Seq<char>,
    align: int,
    flag: int,
    width: int,
    dot: int,
    precision: int,
)
    requires
        align == if s.len() >= 2 && (s[1] == '<' || s[1] == '>' || s[1] == '^') {
            2int
        } else if s.len() >= 1 && (s[0] == '<' || s[0] == '>' || s[0] == '^') {
            1int
        } else {
            0int
        },
        flag == if align < s.len() && s[align] == '0' {
            align + 1
        } else {
            align
        },
        flag <= width <= s.len(),
        forall|i: int| flag <= i < width ==> '0' <= #[trigger] s[i] && s[i] <= '9',
        width < s.len() ==> !('0' <= s[width] && s[width] <= '9'),
        dot == if width < s.len() && s[width] == '.' {
            width + 1
        } else {
            width
        },
        dot <= precision <= s.len(),
        dot == width ==> precision == width,
        forall|i: int| dot <= i < precision ==> '0' <= #[trigger] s[i] && s[i] <= '9',
        dot > width && precision < s.len() ==> !('0' <= s[precision] && s[precision] <= '9'),
    ensures
        ({
            let told = parsed(s)->Err_0.message(s);
            let kind = s[precision];
            if value(s.subrange(flag, width), 10) > usize::MAX {
                &&& parsed(s) is Err
                &&& told == "format spec width `"@ + s.subrange(flag, width)
                    + "` is out of range"@
            } else if dot > width && precision == dot {
                &&& parsed(s) is Err
                &&& told == "format spec `"@ + s
                    + "`: `.` must be followed by a precision (e.g. `.2`)"@
            } else if value(s.subrange(dot, precision), 10) > usize::MAX {
                &&& parsed(s) is Err
                &&& told == "format spec precision `"@ + s.subrange(dot, precision)
                    + "` is out of range"@
            } else if precision < s.len() && kind != 'x' && kind != 'X' && kind != 'o' && kind
                != 'b' && kind != 'd' {
                &&& parsed(s) is Err
                &&& told == "format spec `"@ + s + "`: unsupported type `"@ + seq![kind]
                    + "` (expected one of x, X, o, b, d)"@
            } else if precision + 1 < s.len() {
                &&& parsed(s) is Err
                &&& told == "format spec `"@ + s + "`: unexpected trailing `"@ + s.subrange(
                    precision + 1,
                    s.len() as int,
                ) + "`"@
            } else if precision < s.len() && kind != 'd' && dot > width {
                &&& parsed(s) is Err
                &&& told == "format spec `"@ + s
                    + "`: precision is not valid with an integer type"@
            } else {
                parsed(s) is Ok
            }
        }),
{
    assert forall|i: int| 0 <= i < width - flag implies is_digit(
        #[trigger] s.subrange(flag, width)[i],
    ) by {
        assert('0' <= s[flag + i] && s[flag + i] <= '9');
    }
    digits_end_at(s, flag, width);
    if dot > width {
        assert forall|i: int| 0 <= i < precision - dot implies is_digit(
            #[trigger] s.subrange(dot, precision)[i],
        ) by {
            assert('0' <= s[dot + i] && s[dot + i] <= '9');
        }
        digits_end_at(s, dot, precision);
    }
    assert(cuts(s) == (Cuts { align, flag, width, dot, precision }));
    if precision + 1 < s.len() {
        assert(s.skip(precision + 1) =~= s.subrange(precision + 1, s.len() as int));
    }
}

} // verus!

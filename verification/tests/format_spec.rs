//! Reading specifiers and rendering with them directly.

use karac_fmt::format_spec::{Align, FormatSpec, Radix};

fn spec(s: &str) -> FormatSpec {
    FormatSpec::parse(s).unwrap()
}

fn err(s: &str) -> String {
    FormatSpec::parse(s).unwrap_err()
}

/// A float as a caller renders one: the text of the value, then the layout.
fn apply_float(fs: &FormatSpec, v: f64) -> String {
    let body = match fs.float_digits(v.fract() == 0.0 && v.is_finite()) {
        Some(p) => format!("{v:.*}", p),
        None => format!("{v}"),
    };
    fs.apply_float(&body)
}

#[test]
fn int_width_and_zero_pad() {
    assert_eq!(spec("4").apply_int(7), "   7");
    assert_eq!(spec("04").apply_int(7), "0007");
    assert_eq!(spec("05").apply_int(-7), "-0007");
    assert_eq!(spec("<4").apply_int(7), "7   ");
    // The conversions under which C prints the first two.
    assert_eq!(spec("4").to_printf("ll", 'd', true), "%4lld");
    assert_eq!(spec("04").to_printf("ll", 'd', true), "%04lld");
}

#[test]
fn int_radix() {
    assert_eq!(spec("x").apply_int(255), "ff");
    assert_eq!(spec("X").apply_int(255), "FF");
    assert_eq!(spec("o").apply_int(8), "10");
    assert_eq!(spec("08x").apply_int(255), "000000ff");
}

#[test]
fn int_128_bit_width_and_radix() {
    assert_eq!(
        spec("").apply_uint128(u128::MAX),
        "340282366920938463463374607431768211455"
    );
    assert_eq!(
        spec("44").apply_uint128(u128::MAX),
        "     340282366920938463463374607431768211455"
    );
    assert_eq!(spec("").apply_int128(i128::MAX), format!("{}", i128::MAX));
    assert_eq!(spec("").apply_int128(i128::MIN), format!("{}", i128::MIN));
    // The low word is zero, which is what a truncation to 64 bits would show.
    assert_eq!(
        spec("").apply_int128(1 << 100),
        "1267650600228229401496703205376"
    );

    assert_eq!(spec("06").apply_int128(-7), "-00007");
    assert_eq!(spec("<8").apply_int128(-7), "-7      ");
    assert_eq!(spec("08").apply_uint128(42), "00000042");

    assert_eq!(spec("x").apply_int(-1), "f".repeat(16));
    assert_eq!(spec("x").apply_int128(-1), "f".repeat(32));
    assert_eq!(spec("X").apply_int128(-1), "F".repeat(32));
    assert_eq!(spec("o").apply_int128(-1), format!("{:o}", u128::MAX));
    assert_eq!(spec("b").apply_int128(-1), "1".repeat(128));
    assert_eq!(spec("").apply_int(-1), "-1");
    assert_eq!(spec("").apply_int128(-1), "-1");
}

#[test]
fn int_64_bit_readings_are_unchanged_by_the_128_bit_widening() {
    for v in [0i64, 1, -1, 7, -7, i64::MAX, i64::MIN, -255, 255] {
        let u = v as u64;
        assert_eq!(spec("x").apply_int(v), format!("{u:x}"), "hex of {v}");
        assert_eq!(spec("X").apply_int(v), format!("{u:X}"), "HEX of {v}");
        assert_eq!(spec("o").apply_int(v), format!("{u:o}"), "oct of {v}");
        assert_eq!(spec("b").apply_int(v), format!("{u:b}"), "bin of {v}");
        for raw in ["x", "X", "o", "b", "08x", "<12x", ">12o"] {
            assert_eq!(
                spec(raw).apply_int(v),
                spec(raw).apply_uint(u),
                "spec {raw:?}: a signed 64-bit hole reinterprets as u64, value {v}"
            );
        }
        assert_eq!(spec("").apply_int(v), format!("{v}"), "dec of {v}");
    }
    for v in [0u64, 1, 255, u64::MAX, u64::MAX - 1, 1 << 63] {
        for raw in ["", "8", "08", "<8", ">8", "x", "X", "o", "b", "020"] {
            assert_eq!(
                spec(raw).apply_uint(v),
                spec(raw).apply_uint128(u128::from(v)),
                "spec {raw:?} value {v}"
            );
        }
    }
    assert_eq!(spec("x").apply_uint(u64::MAX), "f".repeat(16));
    assert_eq!(spec("x").apply_int(-1), "f".repeat(16));
    assert_eq!(spec("x").apply_int128(-1), "f".repeat(32));
}

#[test]
fn float_precision() {
    assert_eq!(apply_float(&spec(".2"), 1.23456), "1.23");
    assert_eq!(apply_float(&spec(".0"), 3.9), "4");
    assert_eq!(apply_float(&spec("8.2"), 1.23456), "    1.23");
    assert_eq!(apply_float(&spec("08.2"), 1.23456), "00001.23");
}

#[test]
fn string_width_and_align() {
    assert_eq!(spec("5").apply_str("hi"), "   hi");
    assert_eq!(spec(">5").apply_str("hi"), "   hi");
    assert_eq!(spec("<5").apply_str("hi"), "hi   ");
}

#[test]
fn to_printf_maps() {
    assert_eq!(spec("04").to_printf("ll", 'd', true), "%04lld");
    assert_eq!(spec("8.2").to_printf("", 'f', true), "%8.2f");
    assert_eq!(spec("<8.2").to_printf("", 'f', true), "%-8.2f");
    assert_eq!(spec("08x").to_printf("ll", 'x', true), "%08llx");
    assert_eq!(spec("5").to_printf("", 's', false), "%5s");
    assert_eq!(spec("<5").to_printf("", 's', false), "%-5s");
}

#[test]
fn conversion_keeps_the_zeros() {
    assert_eq!(spec("<05").to_printf("ll", 'd', true), "%05lld");
    assert_eq!(spec("<08x").to_printf("ll", 'x', true), "%08llx");
    assert_eq!(spec("<08.2").to_printf("", 'f', true), "%08.2f");
    assert_eq!(spec("<05").to_printf("", 's', false), "%-5s");
    assert_eq!(spec("<5").to_printf("ll", 'd', true), "%-5lld");
    assert_eq!(spec("<02").to_printf("ll", 'd', true), "%02lld");
    // With no room for zeros both flags stand, and C prints the same either way.
    assert_eq!(spec("<0").to_printf("ll", 'd', true), "%-0lld");
    assert_eq!(spec("<00").to_printf("ll", 'd', true), "%-00lld");
    assert_eq!(spec("<01").to_printf("ll", 'd', true), "%-01lld");
    assert_eq!(spec("<0.2").to_printf("", 'f', true), "%-0.2f");
}

#[test]
fn binary_center_and_fill_now_parse_and_render() {
    let b = spec("b");
    assert!(b.needs_runtime_formatter());
    assert_eq!(b.apply_int(5), "101");
    assert_eq!(spec("08b").apply_int(5), "00000101");
    assert_eq!(spec("b").apply_uint(255), "11111111");
    let c = spec("^7");
    assert!(c.needs_runtime_formatter());
    assert_eq!(c.apply_str("hi"), "  hi   ");
    assert_eq!(spec("^6").apply_int(42), "  42  ");
    let f = spec("*^7");
    assert!(f.needs_runtime_formatter());
    assert_eq!(f.apply_str("hi"), "**hi***");
    assert_eq!(spec("*<7").apply_str("hi"), "hi*****");
    assert_eq!(spec("*>7").apply_int(42), "*****42");
    assert_eq!(apply_float(&spec("*^8.2"), 1.5), "**1.50**");
    assert!(!spec("<5").needs_runtime_formatter());
    assert!(!spec("08x").needs_runtime_formatter());
    assert!(!spec(".2").needs_runtime_formatter());
}

#[test]
fn errors() {
    assert!(FormatSpec::parse("q").is_err());
    assert!(FormatSpec::parse(".").is_err());
    assert!(FormatSpec::parse(".2x").is_err());
    assert!(FormatSpec::parse("4z").is_err());
}

#[test]
fn every_fault_has_its_message() {
    assert_eq!(
        err("99999999999999999999999"),
        "format spec width `99999999999999999999999` is out of range"
    );
    assert_eq!(
        err("4."),
        "format spec `4.`: `.` must be followed by a precision (e.g. `.2`)"
    );
    assert_eq!(
        err(".99999999999999999999999"),
        "format spec precision `99999999999999999999999` is out of range"
    );
    assert_eq!(
        err("4z"),
        "format spec `4z`: unsupported type `z` (expected one of x, X, o, b, d)"
    );
    assert_eq!(err("4xyz"), "format spec `4xyz`: unexpected trailing `yz`");
    assert_eq!(
        err(".2x"),
        "format spec `.2x`: precision is not valid with an integer type"
    );
}

#[test]
fn first_fault_is_the_one_reported() {
    assert_eq!(
        err("99999999999999999999999.q"),
        "format spec width `99999999999999999999999` is out of range"
    );
    assert_eq!(err(".2xx"), "format spec `.2xx`: unexpected trailing `x`");
    assert_eq!(
        err(".q"),
        "format spec `.q`: `.` must be followed by a precision (e.g. `.2`)"
    );
}

#[test]
fn widest_number_is_still_read() {
    let widest = format!("{}", usize::MAX);
    assert_eq!(spec(&widest).width, Some(usize::MAX));
    assert_eq!(spec(&format!("0{widest}")).width, Some(usize::MAX));
    let beyond = format!("{}", usize::MAX as u128 + 1);
    assert!(FormatSpec::parse(&beyond).is_err());
    assert!(FormatSpec::parse(&format!(".{beyond}")).is_err());
}

#[test]
fn every_part_is_read() {
    assert_eq!(
        spec("*^012.3d"),
        FormatSpec {
            fill: Some('*'),
            align: Some(Align::Center),
            zero_pad: true,
            width: Some(12),
            precision: Some(3),
            radix: Radix::Dec,
        }
    );
    assert_eq!(spec("X").radix, Radix::HexUpper);
    assert_eq!(spec("o").radix, Radix::Oct);
    assert_eq!(spec("b").radix, Radix::Bin);
    assert_eq!(spec("x").radix, Radix::Hex);
    assert_eq!(spec("d"), spec(""));
}

#[test]
fn fill_needs_an_alignment() {
    assert_eq!(spec("0<5").fill, Some('0'));
    assert!(!spec("0<5").zero_pad);
    assert_eq!(spec("<05").fill, None);
    assert!(spec("<05").zero_pad);
    assert_eq!(spec("<<5").fill, Some('<'));
    assert_eq!(spec("<>5").align, Some(Align::Right));
    assert_eq!(spec("é^5").fill, Some('é'));
    assert!(FormatSpec::parse("*5").is_err());
}

#[test]
fn leading_zero_is_the_flag() {
    assert_eq!(spec("0").width, None);
    assert!(spec("0").zero_pad);
    assert_eq!(spec("00").width, Some(0));
    assert_eq!(spec("007").width, Some(7));
    assert_eq!(spec("10").width, Some(10));
    assert!(!spec("10").zero_pad);
}

#[test]
fn default_is_right_for_all_kinds() {
    for (bare, right) in [("9", ">9"), ("09", ">09"), ("9b", ">9b")] {
        let (bare, right) = (spec(bare), spec(right));
        assert_eq!(bare.apply_int(-5), right.apply_int(-5));
        assert_eq!(bare.apply_uint(5), right.apply_uint(5));
        assert_eq!(bare.apply_str("ab"), right.apply_str("ab"));
        assert_eq!(bare.apply_float("-1.5"), right.apply_float("-1.5"));
    }
}

#[test]
fn width_counts_characters() {
    assert_eq!(spec("5").apply_str("né"), "   né");
    assert_eq!(spec("é<4").apply_str("ab"), "abéé");
    assert_eq!(spec("2").apply_str("longer"), "longer");
    assert_eq!(spec("^5").apply_str("ab"), " ab  ");
}

#[test]
fn zeros_override_the_alignment() {
    assert_eq!(spec("<05").apply_int(7), "00007");
    assert_eq!(spec("*^05").apply_int(-7), "-0007");
    assert_eq!(spec("05").apply_str("ab"), "   ab");
    assert_eq!(spec("02").apply_int(-75), "-75");
    assert_eq!(spec("04").apply_int(-75), "-075");
}

#[test]
fn floats_are_laid_out_like_numbers() {
    assert_eq!(apply_float(&spec(""), 3.0), "3.0");
    assert_eq!(apply_float(&spec(""), 3.25), "3.25");
    assert_eq!(apply_float(&spec(""), f64::INFINITY), "inf");
    assert_eq!(apply_float(&spec("08.2"), -1.5), "-0001.50");
    assert_eq!(apply_float(&spec("<8.1"), 2.0), "2.0     ");
    assert_eq!(spec(".3").float_digits(true), Some(3));
    assert_eq!(spec("").float_digits(true), Some(1));
    assert_eq!(spec("").float_digits(false), None);
}

#[test]
fn code_generator_operands() {
    assert_eq!(spec("").fast_radix_code(), 10);
    assert_eq!(spec("o").fast_radix_code(), 8);
    assert_eq!(spec("x").fast_radix_code(), 16);
    assert_eq!(spec("X").fast_radix_code(), -16);
    assert_eq!(spec("b").fast_radix_code(), 2);
    assert_eq!(spec("").int_conv(), 'd');
    assert_eq!(spec("x").int_conv(), 'x');
    assert_eq!(spec("X").int_conv(), 'X');
    assert_eq!(spec("o").int_conv(), 'o');
    assert_eq!(spec("b").int_conv(), 'd');
    assert!(spec("<5").numeric_align_left());
    assert!(!spec("5").numeric_align_left());
    assert!(!spec("^5").numeric_align_left());
    assert!(!spec(" >5").needs_runtime_formatter());
    assert!(spec("*>5").needs_runtime_formatter());
}

#[test]
fn clone_is_equal() {
    let fs = spec("*^012.3");
    assert_eq!(fs.clone(), fs);
}

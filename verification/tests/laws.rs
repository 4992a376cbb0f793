//! One case of each statement that spans several functions.

use karac_fmt::format_spec::{Align, FormatSpec, Radix};

fn spec(s: &str) -> FormatSpec {
    FormatSpec::parse(s).unwrap()
}

#[test]
fn shown_numbers_read_back() {
    for v in [0i64, 7, -7, 123456, i64::MAX, i64::MIN] {
        assert_eq!(spec("030").apply_int(v).parse::<i64>().unwrap(), v);
        assert_eq!(spec("").apply_int(v).parse::<i64>().unwrap(), v);
        let bits = u64::from_str_radix(&spec("020x").apply_int(v), 16).unwrap();
        assert_eq!(bits, v as u64);
    }
}

#[test]
fn fields_have_their_width() {
    for raw in ["9", "<9", "^9", "*^9", "09", "é>9"] {
        let fs = spec(raw);
        assert_eq!(fs.apply_int(-42).chars().count(), 9);
        assert_eq!(fs.apply_str("abc").chars().count(), 9);
        assert_eq!(fs.apply_float("-1.5").chars().count(), 9);
        assert_eq!(fs.apply_str("longer than that"), "longer than that");
    }
}

#[test]
fn centred_bodies_are_balanced() {
    assert_eq!(spec("-^8").apply_str("ab"), "---ab---");
    assert_eq!(spec("-^9").apply_str("ab"), "---ab----");
}

#[test]
fn padded_texts_stay_as_they_are() {
    for raw in ["9", "<9", "^9", "*^9", "é>9", ""] {
        let once = spec(raw).apply_str("abc");
        assert_eq!(spec(raw).apply_str(&once), once);
    }
    assert_eq!(spec("*^9").apply_str("***abc***"), "***abc***");
}

#[test]
fn zeros_stand_behind_the_sign() {
    for raw in ["06", "<06", "^06", "*>06"] {
        assert_eq!(spec(raw).apply_int(-42), "-00042");
        assert_eq!(spec(raw).apply_int128(-42), "-00042");
        assert_eq!(spec(raw).apply_float("-4.2"), "-004.2");
    }
}

#[test]
fn sign_stays_with_the_digits() {
    assert_eq!(spec("6").apply_int(-42), "   -42");
    assert_eq!(spec("*<6").apply_int(-42), "-42***");
    assert_eq!(spec("*^6").apply_int(-42), "*-42**");
    assert_eq!(spec("<03").apply_int(-42), "-42");
    assert_eq!(spec("0").apply_int(-42), "-42");
}

#[test]
fn floats_fit_their_buffer() {
    let body = format!("-{}.25", "7".repeat(60));
    assert_eq!(spec("*^80").apply_float(&body).len(), 80);
    assert_eq!(spec("080").apply_float(&body).len(), 80);
    assert_eq!(spec("<9").apply_float(&body).len(), 64);
    assert_eq!(spec("9").apply_float("-1.5").len(), 9);
}

#[test]
fn strings_ignore_the_numeric_parts() {
    assert_eq!(spec("*^09.3").apply_str("abcdef"), spec("*^9").apply_str("abcdef"));
    assert_eq!(spec("9x").apply_str("abc"), spec("9").apply_str("abc"));
    assert_eq!(spec(".1").apply_int(12345), "12345");
}

#[test]
fn written_specifiers_read_back() {
    let want = FormatSpec {
        fill: Some('0'),
        align: Some(Align::Left),
        zero_pad: true,
        width: Some(0),
        precision: None,
        radix: Radix::Bin,
    };
    assert_eq!(spec("0<00b"), want);
    let want = FormatSpec {
        fill: None,
        align: Some(Align::Right),
        zero_pad: false,
        width: Some(10),
        precision: Some(0),
        radix: Radix::Dec,
    };
    assert_eq!(spec(">10.0"), want);
}

#[test]
fn width_of_the_hole_shows_only_in_patterns() {
    assert_eq!(spec("8").apply_int(-3), spec("8").apply_int128(-3));
    assert_eq!(spec("8x").apply_int(3), spec("8x").apply_int128(3));
    assert_eq!(spec("8x").apply_uint(3), spec("8x").apply_int(3));
    assert_ne!(spec("x").apply_int(-3), spec("x").apply_int128(-3));
}

#[test]
fn empty_specifier_changes_nothing() {
    assert_eq!(spec("").apply_str("as it is"), "as it is");
    assert_eq!(spec("").apply_float("-0.25"), "-0.25");
    assert_eq!(spec("").apply_uint128(0), "0");
}

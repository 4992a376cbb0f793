//! The renderers that write into a caller's buffer.

use karac_fmt::fast::{karac_runtime_f64_fmt, karac_runtime_int_fmt};
use karac_fmt::format_spec::{FormatSpec, Radix};
use karac_fmt::runtime::{
    karac_runtime_fmt_float, karac_runtime_fmt_int, karac_runtime_fmt_str, parse_spec,
};

fn body_of(fs: &FormatSpec, v: f64) -> String {
    match fs.float_digits(v.fract() == 0.0 && v.is_finite()) {
        Some(p) => format!("{v:.*}", p),
        None => format!("{v}"),
    }
}

/// The 128-bit pattern `raw`, handed over in words.
fn call_raw(spec: &str, raw: u128, unsigned: bool) -> String {
    let mut buf = [0u8; 256];
    let n = karac_runtime_fmt_int(
        Some(spec.as_bytes()),
        raw as u64,
        (raw >> 64) as u64,
        unsigned as i32,
        &mut buf,
    );
    String::from_utf8(buf[..n].to_vec()).unwrap()
}

/// A 64-bit hole: zeros extend it for an unsigned hole or any radix but decimal, the sign
/// for a signed decimal one.
fn call_int(spec: &str, v: i64, unsigned: bool) -> String {
    let dec = FormatSpec::parse(spec)
        .map(|f| f.radix == Radix::Dec)
        .unwrap_or(true);
    let raw: u128 = if unsigned || !dec {
        u128::from(v as u64)
    } else {
        v as i128 as u128
    };
    call_raw(spec, raw, unsigned)
}

fn call_float(spec: &str, v: f64) -> String {
    let mut buf = [0u8; 128];
    let fs = parse_spec(Some(spec.as_bytes()));
    let n = karac_runtime_fmt_float(Some(spec.as_bytes()), &body_of(&fs, v), &mut buf);
    String::from_utf8(buf[..n].to_vec()).unwrap()
}

fn call_str(spec: &str, s: &str) -> String {
    let mut buf = [0u8; 128];
    let n = karac_runtime_fmt_str(Some(spec.as_bytes()), Some(s.as_bytes()), &mut buf);
    String::from_utf8(buf[..n].to_vec()).unwrap()
}

/// The decoded renderer, with the operands of `fs`.
fn fast_fs(fs: &FormatSpec, raw: u128, signed: bool) -> String {
    let mut buf = [0u8; 256];
    let n = karac_runtime_int_fmt(
        raw as u64,
        (raw >> 64) as u64,
        signed as i32,
        fs.fast_radix_code(),
        fs.zero_pad as i32,
        fs.width.unwrap_or(0) as i64,
        fs.numeric_align_left() as i32,
        &mut buf,
    );
    String::from_utf8(buf[..n].to_vec()).unwrap()
}

/// The decoded renderer, with a radix and a width.
fn fast(raw: u128, signed: bool, radix: i32, width: i64) -> String {
    let mut buf = [0u8; 256];
    let n = karac_runtime_int_fmt(
        raw as u64,
        (raw >> 64) as u64,
        signed as i32,
        radix,
        0,
        width,
        0,
        &mut buf,
    );
    String::from_utf8(buf[..n].to_vec()).unwrap()
}

fn fast_float(fs: &FormatSpec, v: f64) -> String {
    let mut buf = [0u8; 1024];
    let n = karac_runtime_f64_fmt(
        &body_of(fs, v),
        fs.zero_pad as i32,
        fs.width.unwrap_or(0) as i64,
        fs.numeric_align_left() as i32,
        &mut buf,
    );
    String::from_utf8(buf[..n].to_vec()).unwrap()
}

#[test]
fn runtime_matches_apply_helpers() {
    assert_eq!(call_int("b", 5, false), "101");
    assert_eq!(call_int("08b", 5, false), "00000101");
    assert_eq!(call_int("b", 255, true), "11111111");
    assert_eq!(call_int("^6", 42, false), "  42  ");
    assert_eq!(call_str("^7", "hi"), "  hi   ");
    assert_eq!(call_float("^8.2", 1.5), "  1.50  ");
    assert_eq!(call_str("*^7", "hi"), "**hi***");
    assert_eq!(call_str("*<7", "hi"), "hi*****");
    assert_eq!(call_int("*>7", 42, false), "*****42");
    assert_eq!(call_float("*^8.2", 1.5), "**1.50**");
}

#[test]
fn runtime_agrees_with_direct_apply() {
    for (spec, v) in [("b", 42i64), ("^10", -7), ("=^9b", 6), ("*>12", 100)] {
        let fs = FormatSpec::parse(spec).unwrap();
        assert_eq!(call_int(spec, v, false), fs.apply_int(v), "int spec {spec}");
    }
    for spec in ["^9", "*^11", "*<8", ">6"] {
        let fs = FormatSpec::parse(spec).unwrap();
        assert_eq!(
            call_str(spec, "kara"),
            fs.apply_str("kara"),
            "str spec {spec}"
        );
    }
}

#[test]
fn out_cap_never_overflows() {
    let mut buf = [0xAAu8; 4];
    let n = karac_runtime_fmt_int(Some("b".as_bytes()), 255, 0, 0, &mut buf);
    assert_eq!(n, 4);
    assert_eq!(&buf, b"1111");
}

#[test]
fn runtime_fmt_int_renders_128_bit_values() {
    let specs = ["b", "^44", "*>44", "*^46", "=^50", "08b", "^12"];
    let unsigned: [u128; 5] = [0, 1, u128::MAX, u128::MAX - 1, 1 << 127];
    for raw in specs {
        let fs = FormatSpec::parse(raw).unwrap();
        for v in unsigned {
            assert_eq!(
                call_raw(raw, v, true),
                fs.apply_uint128(v),
                "unsigned spec {raw:?} value {v}"
            );
        }
        for v in [0i128, 1, -1, -7, i128::MAX, i128::MIN, 1 << 100] {
            assert_eq!(
                call_raw(raw, v as u128, false),
                fs.apply_int128(v),
                "signed spec {raw:?} value {v}"
            );
        }
    }
    assert_eq!(call_int("b", -1, false), "1".repeat(64));
    assert_eq!(call_raw("b", u128::MAX, false), "1".repeat(128));
    assert_eq!(call_int("^6", -7, false), "  -7  ");
}

#[test]
fn int_fmt_fast_path_matches_apply_int_over_a_matrix() {
    let specs = [
        "", "5", "1", "20", "<5", ">5", "<12", ">12", "05", "020", "08", "x", "X", "o", "5x",
        "5X", "5o", "05x", "05X", "05o", "<8x", ">8X", "<8o", "020x",
    ];
    let signed_vals: [i64; 14] = [
        0,
        1,
        -1,
        7,
        -7,
        9,
        -9,
        10,
        -10,
        99999,
        -99999,
        i64::MAX,
        i64::MIN,
        i64::MIN + 1,
    ];
    let unsigned_vals: [u64; 8] = [0, 1, 9, 10, 255, u64::MAX, u64::MAX - 1, 1 << 63];

    for raw in specs {
        let fs = FormatSpec::parse(raw).expect("spec parses");
        if fs.needs_runtime_formatter() {
            continue;
        }
        for v in signed_vals {
            let want = fs.apply_int(v);
            let widened = if fs.radix == Radix::Dec {
                v as i128 as u128
            } else {
                u128::from(v as u64)
            };
            let got = fast_fs(&fs, widened, true);
            assert_eq!(
                got, want,
                "signed mismatch: spec {raw:?} value {v} -> fast {got:?} vs apply_int {want:?}"
            );
        }
        for v in unsigned_vals {
            let want = fs.apply_uint(v);
            let got = fast_fs(&fs, u128::from(v), false);
            assert_eq!(
                got, want,
                "unsigned mismatch: spec {raw:?} value {v} -> fast {got:?} vs apply_uint {want:?}"
            );
        }
    }
}

#[test]
fn int_fmt_fast_path_renders_128_bit_values() {
    fn pad_right(body: &str, width: usize) -> String {
        if body.len() >= width {
            body.to_string()
        } else {
            format!("{}{}", " ".repeat(width - body.len()), body)
        }
    }

    let signed: [i128; 6] = [
        0,
        1,
        -1,
        i128::MAX,
        i128::MIN,
        1_267_650_600_228_229_401_496_703_205_376,
    ];
    for v in signed {
        assert_eq!(fast(v as u128, true, 10, 0), format!("{v}"));
        assert_eq!(
            fast(v as u128, true, 10, 44),
            pad_right(&format!("{v}"), 44),
            "signed 128-bit width padding, value {v}"
        );
    }
    for v in [0u128, 1, u128::MAX, u128::MAX - 1, 1u128 << 127] {
        assert_eq!(fast(v, false, 10, 0), format!("{v}"));
        assert_eq!(fast(v, false, 16, 0), format!("{v:x}"));
        assert_eq!(fast(v, false, -16, 0), format!("{v:X}"));
        assert_eq!(fast(v, false, 8, 0), format!("{v:o}"));
    }
    assert_eq!(fast(u128::MAX, false, 8, 0).len(), 43);

    for raw in [
        "", "44", "1", "<44", ">44", "044", "x", "X", "o", "44x", "044o", "<48X", "020",
    ] {
        let fs = FormatSpec::parse(raw).unwrap();
        for v in [0u128, 1, u128::MAX, u128::MAX - 1, 1 << 127, 1 << 100] {
            assert_eq!(
                fast_fs(&fs, v, false),
                fs.apply_uint128(v),
                "unsigned 128-bit spec {raw:?} value {v}"
            );
        }
        for v in [0i128, 1, -1, -7, i128::MAX, i128::MIN, 1 << 100] {
            assert_eq!(
                fast_fs(&fs, v as u128, true),
                fs.apply_int128(v),
                "signed 128-bit spec {raw:?} value {v}"
            );
        }
    }
}

#[test]
fn f64_fmt_matches_apply_float_over_a_matrix() {
    let specs = [
        ".0", ".1", ".2", ".5", "8.2", "12.2", "<8.2", ">8.2", "08.2", "012.3", "1.2", "20.6",
    ];
    let vals: [f64; 14] = [
        0.0,
        1.5,
        -1.5,
        3.0,
        -3.0,
        1.23456,
        -1.23456,
        1234567.891,
        -0.0,
        0.5,
        -0.5,
        1e-7,
        f64::INFINITY,
        f64::NAN,
    ];
    for raw in specs {
        let fs = FormatSpec::parse(raw).unwrap();
        for v in vals {
            assert_eq!(
                fast_float(&fs, v),
                fs.apply_float(&body_of(&fs, v)),
                "spec {raw:?} value {v}"
            );
        }
    }
    let fs = FormatSpec::parse(".2").unwrap();
    let got = fast_float(&fs, f64::MAX);
    assert_eq!(got, fs.apply_float(&body_of(&fs, f64::MAX)));
    assert_eq!(got.len(), 312, "f64::MAX at .2 is 312 bytes");
    assert!(got.chars().all(|c| c.is_ascii_digit() || c == '.'));
}

#[test]
fn f64_fmt_reports_the_truncated_length_not_the_would_be_length() {
    let mut buf = [0xAAu8; 16];
    let n = karac_runtime_f64_fmt(&format!("{:.2}", f64::MAX), 0, 0, 0, &mut buf[..8]);
    assert_eq!(n, 8, "must report what it WROTE, not what it wanted");
    assert_eq!(&buf[..8], b"17976931");
    assert_eq!(&buf[8..], &[0xAA; 8], "must not write past buf_len");

    // No buffer, or one without room: nothing is written.
    assert_eq!(karac_runtime_f64_fmt("1.50", 0, 0, 0, &mut []), 0);
    assert_eq!(karac_runtime_f64_fmt("1.50", 0, 0, 0, &mut buf[..0]), 0);
    assert_eq!(&buf[..8], b"17976931");
}

#[test]
fn int_fmt_fast_path_truncates_into_a_short_buffer() {
    let mut buf = [0xAAu8; 8];
    let n = karac_runtime_int_fmt(1234567890123u64, 0, 1, 10, 0, 0, 0, &mut buf[..4]);
    assert_eq!(n, 4, "should stop at the cap");
    assert_eq!(&buf[..4], b"1234");
    assert_eq!(&buf[4..], &[0xAA; 4], "must not write past buf_len");

    // No buffer, or one without room: nothing is written.
    assert_eq!(karac_runtime_int_fmt(1, 0, 1, 10, 0, 0, 0, &mut []), 0);
    assert_eq!(karac_runtime_int_fmt(1, 0, 1, 10, 0, 0, 0, &mut buf[..0]), 0);
    assert_eq!(&buf[..4], b"1234");
}

#[test]
fn unreadable_specifier_asks_for_nothing() {
    let plain = FormatSpec::parse("").unwrap();
    assert_eq!(parse_spec(None), plain);
    assert_eq!(parse_spec(Some(b"")), plain);
    assert_eq!(parse_spec(Some(b"q")), plain);
    assert_eq!(parse_spec(Some(&[0xff, b'<', b'5'])), plain);
    assert_eq!(parse_spec(Some("é<5".as_bytes())), FormatSpec::parse("é<5").unwrap());
}

#[test]
fn bytes_that_are_no_text_are_empty() {
    let mut buf = [0u8; 16];
    let n = karac_runtime_fmt_str(Some(b"*^3"), Some(&[0xff, 0xfe]), &mut buf);
    assert_eq!(&buf[..n], b"***");
    let n = karac_runtime_fmt_str(Some(b"*^4"), None, &mut buf);
    assert_eq!(&buf[..n], b"****");
    let n = karac_runtime_fmt_str(None, Some("é".as_bytes()), &mut buf);
    assert_eq!(&buf[..n], "é".as_bytes());
}

#[test]
fn short_buffer_gets_the_beginning() {
    let mut buf = [0xAAu8; 6];
    let n = karac_runtime_fmt_str(Some("é<5".as_bytes()), Some(b"ab"), &mut buf[..5]);
    assert_eq!(n, 5);
    assert_eq!(&buf[..5], &"abééé".as_bytes()[..5]);
    assert_eq!(buf[5], 0xAA);
    let n = karac_runtime_fmt_float(Some(b"08"), "-1.5", &mut buf[..3]);
    assert_eq!(n, 3);
    assert_eq!(&buf[..3], b"-00");
}

#[test]
fn decoded_width_may_exceed_the_buffer() {
    let mut buf = [0u8; 3];
    assert_eq!(karac_runtime_int_fmt(7, 0, 0, 10, 0, i64::MAX, 0, &mut buf), 3);
    assert_eq!(&buf, b"   ");
    assert_eq!(karac_runtime_int_fmt(7, 0, 0, 10, 1, i64::MAX, 0, &mut buf), 3);
    assert_eq!(&buf, b"000");
    assert_eq!(karac_runtime_int_fmt(7, 0, 0, 10, 0, i64::MAX, 1, &mut buf), 3);
    assert_eq!(&buf, b"7  ");
    assert_eq!(karac_runtime_int_fmt(7, 0, 0, 10, 0, -1, 1, &mut buf), 1);
}

#[test]
fn decoded_float_keeps_its_sign_first() {
    let mut buf = [0u8; 8];
    let n = karac_runtime_f64_fmt("-1.50", 1, 8, 0, &mut buf);
    assert_eq!(&buf[..n], b"-0001.50");
    let n = karac_runtime_f64_fmt("-1.50", 0, 8, 1, &mut buf);
    assert_eq!(&buf[..n], b"-1.50   ");
}

#[test]
fn decoded_binary_is_rendered_too() {
    assert_eq!(fast(u128::MAX, false, 2, 0), "1".repeat(128));
    assert_eq!(fast(5, true, 2, 8), "     101");
}

#[test]
fn buffer_of_seventy_two_bytes_suffices() {
    for raw in ["b", "*^40", "72", "o", "-<50x"] {
        let mut buf = [0u8; 72];
        let n = karac_runtime_fmt_int(Some(raw.as_bytes()), u64::MAX, 0, 1, &mut buf);
        let fs = FormatSpec::parse(raw).unwrap();
        assert_eq!(&buf[..n], fs.apply_uint(u64::MAX).as_bytes());
    }
}

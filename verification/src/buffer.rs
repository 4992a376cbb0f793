//! Writing text into a buffer that a caller provides. What does not fit is cut off: a
//! byte behind the end is never touched, and what is reported is what was written.

use vstd::prelude::*;
use vstd::utf8::{decode_utf8, encode_utf8, encode_utf8_decode_utf8};

verus! {

/// `buf` with `bytes` laid over it from `at` on, as far as they fit.
pub open spec fn overlay(buf: Seq<u8>, at: int, bytes: Seq<u8>) -> Seq<u8> {
    Seq::new(
        buf.len(),
        |i: int|
            if at <= i < at + bytes.len() {
                bytes[i - at]
            } else {
                buf[i]
            },
    )
}

/// How many of `len` bytes fit between `at` and the end of `buf`, counted from the
/// beginning of `buf`.
pub open spec fn reach(buf: Seq<u8>, at: int, len: nat) -> int {
    if at + len <= buf.len() {
        at + len
    } else {
        buf.len() as int
    }
}

/// `before` became `after` by writing `text` at its beginning, of which `n` bytes fitted.
pub open spec fn wrote(before: Seq<u8>, after: Seq<u8>, text: Seq<char>, n: int) -> bool {
    &&& n == reach(before, 0, encode_utf8(text).len())
    &&& after == overlay(before, 0, encode_utf8(text))
}

/// Whatever the room is, only what is reported was written, and it is the beginning of
/// the text, which ends early only where the room does; the buffer keeps its size and the rest of its bytes.
pub proof fn what_is_reported_was_written(
    before: Seq<u8>,
    after: Seq<u8>,
    text: Seq<char>,
    n: int,
)
    requires
        wrote(before, after, text, n),
    ensures
        0 <= n <= before.len(),
        after.len() == before.len(),
        n <= encode_utf8(text).len(),
        n == before.len() || n == encode_utf8(text).len(),
        after.take(n) == encode_utf8(text).take(n),
        after.skip(n) == before.skip(n),
{
    assert(after.take(n) =~= encode_utf8(text).take(n));
    assert(after.skip(n) =~= before.skip(n));
}

/// With room for all of it, the whole text is written and can be read from the buffer.
pub proof fn text_that_fits_is_written_whole(
    before: Seq<u8>,
    after: Seq<u8>,
    text: Seq<char>,
    n: int,
)
    requires
        wrote(before, after, text, n),
        encode_utf8(text).len() <= before.len(),
    ensures
        n == encode_utf8(text).len(),
        after.take(n) == encode_utf8(text),
        decode_utf8(after.take(n)) == text,
{
    assert(after.take(n) =~= encode_utf8(text));
    encode_utf8_decode_utf8(text);
}

/// Two writes in a row are one write of both.
pub proof fn overlays_join(buf: Seq<u8>, first: Seq<u8>, second: Seq<u8>)
    ensures
        overlay(overlay(buf, 0, first), reach(buf, 0, first.len()), second) == overlay(
            buf,
            0,
            first + second,
        ),
        reach(buf, reach(buf, 0, first.len()), second.len()) == reach(
            buf,
            0,
            (first + second).len(),
        ),
{
    assert(overlay(overlay(buf, 0, first), reach(buf, 0, first.len()), second) =~= overlay(
        buf,
        0,
        first + second,
    ));
}

/// A piece of text behind another is encoded behind it.
pub proof fn encodings_join(first: Seq<char>, second: Seq<char>)
    ensures
        encode_utf8(first + second) == encode_utf8(first) + encode_utf8(second),
    decreases first.len(),
{
    if first.len() == 0 {
        assert(first + second =~= second);
        assert(encode_utf8(first) + encode_utf8(second) =~= encode_utf8(second));
    } else {
        encodings_join(first.drop_first(), second);
        assert((first + second).drop_first() =~= first.drop_first() + second);
        assert(encode_utf8(first + second) =~= encode_utf8(first) + encode_utf8(second));
    }
}

/// Writes `bytes` from `at` on and returns where they end.
pub(crate) fn put_bytes(out: &mut [u8], at: usize, bytes: &[u8]) -> (end: usize)
    requires
        at <= old(out)@.len(),
    ensures
        final(out)@ == overlay(old(out)@, at as int, bytes@),
        end == reach(old(out)@, at as int, bytes@.len()),
{
    let ghost before = out@;
    let cap: usize = out.len();
    let mut done: usize = 0;
    proof {
        assert(out@ =~= overlay(before, at as int, bytes@.take(0)));
    }
    while done < bytes.len() && at + done < cap
        invariant
            at + done <= cap,
            out@.len() == before.len() == cap,
            done <= bytes@.len(),
            out@ == overlay(before, at as int, bytes@.take(done as int)),
        decreases bytes@.len() - done,
    {
        out[at + done] = bytes[done];
        done += 1;
        proof {
            assert(out@ =~= overlay(before, at as int, bytes@.take(done as int)));
        }
    }
    proof {
        assert(out@ =~= overlay(before, at as int, bytes@));
    }
    at + done
}

/// Writes `n` times the byte `b` from `at` on and returns where they end.
pub(crate) fn put_run(out: &mut [u8], at: usize, b: u8, n: u64) -> (end: usize)
    requires
        at <= old(out)@.len(),
    ensures
        final(out)@ == overlay(old(out)@, at as int, Seq::new(n as nat, |i: int| b)),
        end == reach(old(out)@, at as int, n as nat),
{
    let ghost before = out@;
    let mut done: u64 = 0;
    let mut end: usize = at;
    proof {
        assert(out@ =~= overlay(before, at as int, Seq::new(0, |i: int| b)));
    }
    while done < n && end < out.len()
        invariant
            end == at + done,
            end <= out@.len(),
            out@.len() == before.len(),
            done <= n,
            out@ == overlay(before, at as int, Seq::new(done as nat, |i: int| b)),
        decreases n - done,
    {
        out[end] = b;
        done += 1;
        end += 1;
        proof {
            assert(out@ =~= overlay(before, at as int, Seq::new(done as nat, |i: int| b)));
        }
    }
    proof {
        assert(out@ =~= overlay(before, at as int, Seq::new(n as nat, |i: int| b)));
    }
    end
}

/// Writes `s` at the beginning of `out` and returns how many bytes of it fitted.
pub(crate) fn write_out(s: &str, out: &mut [u8]) -> (n: usize)
    ensures
        wrote(old(out)@, final(out)@, s@, n as int),
{
    put_bytes(out, 0, s.as_bytes())
}

} // verus!

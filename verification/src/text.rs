//! Text as sequences of characters: runs of one character, and the two
//! operations of `std` on strings that the renderers are built from.

use vstd::prelude::*;
use vstd::utf8::valid_utf8;

verus! {

/// `n` times the character `c`.
pub open spec fn run(c: char, n: nat) -> Seq<char> {
    Seq::new(n, |i: int| c)
}

/// `String::push` appends its argument to the end of the string. As with `Vec::push`, the
/// memory for it is taken to be there.
pub assume_specification[ String::push ](s: &mut String, c: char)
    ensures
        final(s)@ == old(s)@.push(c),
;

/// The error of `std::str::from_utf8`, which only says where the bytes stop being
/// UTF-8.
#[verifier::external_type_specification]
#[verifier::external_body]
pub struct ExUtf8Error(core::str::Utf8Error);

/// `std::str::from_utf8` succeeds exactly on the bytes that are UTF-8, and the text
/// that it hands back is the one that they encode.
pub assume_specification[ core::str::from_utf8 ](v: &[u8]) -> (r: Result<
    &str,
    core::str::Utf8Error,
>)
    ensures
        r is Ok <==> valid_utf8(v@),
        r matches Ok(s) ==> vstd::utf8::encode_utf8(s@) == v@,
;

/// The characters of `s`, in order.
pub(crate) fn chars_of(s: &str) -> (chars: Vec<char>)
    ensures
        chars@ == s@,
{
    let mut chars: Vec<char> = Vec::new();
    for c in it: s.chars()
        invariant
            it.seq() == s@,
            chars@ == s@.take(it.index()),
    {
        chars.push(c);
        proof {
            assert(s@.take(it.index() + 1) =~= s@.take(it.index()).push(c));
        }
    }
    proof {
        assert(s@.take(s@.len() as int) =~= s@);
    }
    chars
}

/// Appends `n` times the character `c`.
pub(crate) fn push_run(s: &mut String, c: char, n: usize)
    ensures
        final(s)@ == old(s)@ + run(c, n as nat),
{
    let mut done: usize = 0;
    assert(s@ + run(c, 0) =~= s@);
    while done < n
        invariant
            done <= n,
            s@ == old(s)@ + run(c, done as nat),
        decreases n - done,
    {
        s.push(c);
        done += 1;
        assert(s@ =~= old(s)@ + run(c, done as nat));
    }
}

/// The text made of the characters `chars[from..to]`.
pub(crate) fn text_of(chars: &Vec<char>, from: usize, to: usize) -> (s: String)
    requires
        from <= to <= chars.len(),
    ensures
        s@ == chars@.subrange(from as int, to as int),
{
    let mut s = String::new();
    let mut i: usize = from;
    while i < to
        invariant
            from <= i <= to <= chars.len(),
            s@ == chars@.subrange(from as int, i as int),
        decreases to - i,
    {
        s.push(chars[i]);
        i += 1;
        assert(s@ =~= chars@.subrange(from as int, i as int));
    }
    s
}

} // verus!

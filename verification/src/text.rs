//! Character-level helpers: classifying the characters that wordlist entries
//! and passphrases are made of, reading a string out as its characters, and
//! capitalizing the first character of a word.
use vstd::prelude::*;

verus! {

/// An ASCII lowercase letter, the only kind of character a wordlist entry holds.
pub open spec fn is_lower_alpha(c: char) -> bool {
    'a' as u32 <= c as u32 && c as u32 <= 'z' as u32
}

/// An ASCII uppercase letter.
pub open spec fn is_upper_alpha(c: char) -> bool {
    'A' as u32 <= c as u32 && c as u32 <= 'Z' as u32
}

/// An ASCII decimal digit.
pub open spec fn is_ascii_digit(c: char) -> bool {
    '0' as u32 <= c as u32 && c as u32 <= '9' as u32
}

/// The characters of a string, in order.
pub fn chars_vec(s: &str) -> (v: Vec<char>)
    ensures
        v@ == s@,
{
    let mut v: Vec<char> = Vec::new();
    for c in it: s.chars()
        invariant
            it.seq() == s@,
            v@ == s@.take(it.index() as int),
    {
        v.push(c);
    }
    proof {
        assert(v@ =~= s@);
    }
    v
}

/// The characters that `char::to_uppercase` yields for `c`, a fixed function
/// of the character alone (Unicode uppercase mapping).
pub uninterp spec fn upper_of(c: char) -> Seq<char>;

/// Relies on char::to_uppercase: yields the uppercase mapping of `c`, at
/// least one character (the character itself where no mapping exists), and
/// maps an ASCII lowercase letter to the corresponding uppercase letter.
#[verifier::external_body]
fn uppercase_char(c: char) -> (r: String)
    ensures
        r@ == upper_of(c),
        r@.len() >= 1,
        is_lower_alpha(c) ==> r@.len() == 1 && r@[0] as u32 == c as u32 - 32,
{
    c.to_uppercase().collect()
}

/// Relies on String::push: appends the character to the end of the string.
#[verifier::external_body]
pub(crate) fn push_char(s: &mut String, c: char)
    ensures
        final(s)@ == old(s)@ + seq![c],
{
    s.push(c)
}

/// A word with its first character replaced by that character's uppercase
/// mapping; the remaining characters are untouched. Empty input stays empty.
pub open spec fn capitalized(w: Seq<char>) -> Seq<char> {
    if w.len() == 0 {
        w
    } else {
        upper_of(w[0]) + w.skip(1)
    }
}

/// Capitalize the first character of a string; every other character is kept
/// as it is, and an empty string comes back empty. For a string that starts
/// with an ASCII lowercase letter the result keeps the string's length and
/// starts with the corresponding uppercase letter.
pub fn capitalize(s: &str) -> (r: String)
    ensures
        r@ == capitalized(s@),
        s@.len() > 0 && is_lower_alpha(s@[0]) ==> r@.len() == s@.len() && is_upper_alpha(r@[0]),
{
    let chars = chars_vec(s);
    if chars.len() == 0 {
        String::new()
    } else {
        let mut r = uppercase_char(chars[0]);
        let mut i: usize = 1;
        while i < chars.len()
            invariant
                1 <= i <= chars@.len(),
                chars@ == s@,
                s@.len() > 0,
                r@ == upper_of(s@[0]) + s@.subrange(1, i as int),
            decreases chars@.len() - i,
        {
            push_char(&mut r, chars[i]);
            proof {
                assert(s@.subrange(1, i + 1 as int) =~= s@.subrange(1, i as int) + seq![s@[i as int]]);
            }
            i = i + 1;
        }
        proof {
            assert(s@.subrange(1, s@.len() as int) =~= s@.skip(1));
        }
        r
    }
}

} // verus!

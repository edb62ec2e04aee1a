//! The shape of a passphrase: capitalized words joined by hyphens, followed
//! by decimal digit characters. This module defines that shape as spec
//! functions and proves the laws that make it readable back out of the
//! finished string: splitting on hyphens recovers exactly the words that
//! were joined, and the digit portion is exactly the digits that were drawn.
use vstd::prelude::*;

use crate::text::is_ascii_digit;
use crate::text::is_lower_alpha;
use crate::text::is_upper_alpha;

verus! {

/// The words of a passphrase joined in order with a single hyphen between
/// neighbours; one word stands alone, zero words give the empty string.
pub open spec fn joined(ws: Seq<Seq<char>>) -> Seq<char>
    decreases ws.len(),
{
    if ws.len() == 0 {
        Seq::empty()
    } else if ws.len() == 1 {
        ws[0]
    } else {
        ws[0] + seq!['-'] + joined(ws.skip(1))
    }
}

/// The tokens of a string read between its hyphens, in order. A string
/// without a hyphen is one token; every hyphen separates two tokens, so the
/// result always holds at least one token.
pub open spec fn split_hyphens(s: Seq<char>) -> Seq<Seq<char>>
    decreases s.len(),
{
    if s.len() == 0 {
        seq![Seq::<char>::empty()]
    } else if s[0] == '-' {
        seq![Seq::<char>::empty()] + split_hyphens(s.skip(1))
    } else {
        let rest = split_hyphens(s.skip(1));
        seq![seq![s[0]] + rest[0]] + rest.skip(1)
    }
}

/// A word that no hyphen occurs in.
pub open spec fn hyphen_free(w: Seq<char>) -> bool {
    forall|j: int| 0 <= j < w.len() ==> #[trigger] w[j] != '-'
}

/// The shape of a capitalized wordlist entry: non-empty, an ASCII uppercase
/// letter first, ASCII lowercase letters after it.
pub open spec fn is_cap_word(t: Seq<char>) -> bool {
    &&& t.len() > 0
    &&& is_upper_alpha(t[0])
    &&& forall|j: int| 1 <= j < t.len() ==> is_lower_alpha(#[trigger] t[j])
}

/// The character that prints a single decimal digit.
pub open spec fn digit_char(d: int) -> char {
    if d == 0 {
        '0'
    } else if d == 1 {
        '1'
    } else if d == 2 {
        '2'
    } else if d == 3 {
        '3'
    } else if d == 4 {
        '4'
    } else if d == 5 {
        '5'
    } else if d == 6 {
        '6'
    } else if d == 7 {
        '7'
    } else if d == 8 {
        '8'
    } else {
        '9'
    }
}

/// The characters that print a sequence of decimal digits, in draw order.
pub open spec fn digit_chars(ds: Seq<int>) -> Seq<char> {
    ds.map_values(|d: int| digit_char(d))
}

proof fn lemma_split_nonempty(s: Seq<char>)
    ensures
        split_hyphens(s).len() >= 1,
    decreases s.len(),
{
    if s.len() == 0 {
    } else if s[0] == '-' {
        lemma_split_nonempty(s.skip(1));
    } else {
        lemma_split_nonempty(s.skip(1));
    }
}

/// Splitting a string that starts with a hyphen-free word `w` yields `w`
/// glued onto the first token of the remainder's split, then the rest of
/// that split unchanged.
proof fn lemma_split_prepend(w: Seq<char>, s: Seq<char>)
    requires
        hyphen_free(w),
    ensures
        split_hyphens(w + s) =~= seq![w + split_hyphens(s)[0]] + split_hyphens(s).skip(1),
    decreases w.len(),
{
    lemma_split_nonempty(s);
    if w.len() == 0 {
        assert(w + s =~= s);
        assert(w + split_hyphens(s)[0] =~= split_hyphens(s)[0]);
        assert(seq![split_hyphens(s)[0]] + split_hyphens(s).skip(1) =~= split_hyphens(s));
    } else {
        let t = w + s;
        assert(t[0] == w[0]);
        assert(t[0] != '-');
        assert(t.skip(1) =~= w.skip(1) + s);
        assert(hyphen_free(w.skip(1)));
        lemma_split_prepend(w.skip(1), s);
        let rest = split_hyphens(w.skip(1) + s);
        assert(rest[0] == w.skip(1) + split_hyphens(s)[0]);
        assert(seq![t[0]] + rest[0] =~= w + split_hyphens(s)[0]);
        assert(rest.skip(1) =~= split_hyphens(s).skip(1));
    }
}

/// Splitting on hyphens undoes joining with hyphens: for any non-empty
/// sequence of hyphen-free words, the split of the joined string is exactly
/// the original words. In particular the joined string has exactly
/// `ws.len()` hyphen-separated tokens, and each token is the word that was
/// put there.
pub proof fn lemma_split_of_joined(ws: Seq<Seq<char>>)
    requires
        ws.len() >= 1,
        forall|i: int| 0 <= i < ws.len() ==> hyphen_free(#[trigger] ws[i]),
    ensures
        split_hyphens(joined(ws)) =~= ws,
    decreases ws.len(),
{
    if ws.len() == 1 {
        lemma_split_prepend(ws[0], Seq::empty());
        assert(ws[0] + Seq::<char>::empty() =~= ws[0]);
        assert(split_hyphens(Seq::<char>::empty()) =~= seq![Seq::<char>::empty()]);
        assert(split_hyphens(joined(ws)) =~= seq![ws[0]]);
        assert(seq![ws[0]] =~= ws);
    } else {
        lemma_split_of_joined(ws.skip(1));
        let tail = seq!['-'] + joined(ws.skip(1));
        assert(tail[0] == '-');
        assert(tail.skip(1) =~= joined(ws.skip(1)));
        assert(split_hyphens(tail) =~= seq![Seq::<char>::empty()] + ws.skip(1));
        lemma_split_prepend(ws[0], tail);
        assert(joined(ws) =~= ws[0] + tail);
        assert(split_hyphens(tail)[0] =~= Seq::<char>::empty());
        assert(ws[0] + split_hyphens(tail)[0] =~= ws[0]);
        assert(split_hyphens(tail).skip(1) =~= ws.skip(1));
        assert(split_hyphens(joined(ws)) =~= seq![ws[0]] + ws.skip(1));
        assert(seq![ws[0]] + ws.skip(1) =~= ws);
    }
}

/// Appending one more word to a non-empty join appends one hyphen and the
/// word.
pub proof fn lemma_joined_push(ws: Seq<Seq<char>>, w: Seq<char>)
    requires
        ws.len() >= 1,
    ensures
        joined(ws.push(w)) =~= joined(ws) + seq!['-'] + w,
    decreases ws.len(),
{
    if ws.len() == 1 {
        assert(ws.push(w).skip(1) =~= seq![w]);
        assert(ws.push(w)[0] == ws[0]);
        assert(joined(seq![w]) == w);
        assert(joined(ws.push(w)) =~= ws[0] + seq!['-'] + w);
    } else {
        assert(ws.push(w).skip(1) =~= ws.skip(1).push(w));
        lemma_joined_push(ws.skip(1), w);
        assert(joined(ws.push(w)) =~= ws[0] + seq!['-'] + (joined(ws.skip(1)) + seq!['-'] + w));
        assert(ws[0] + seq!['-'] + (joined(ws.skip(1)) + seq!['-'] + w) =~= (ws[0] + seq!['-']
            + joined(ws.skip(1))) + seq!['-'] + w);
    }
}

/// A capitalized wordlist entry contains no hyphen and no decimal digit.
pub proof fn lemma_cap_word_chars(t: Seq<char>)
    requires
        is_cap_word(t),
    ensures
        hyphen_free(t),
        forall|j: int| 0 <= j < t.len() ==> !is_ascii_digit(#[trigger] t[j]),
        t.len() > 0,
{
    assert forall|j: int| 0 <= j < t.len() implies #[trigger] t[j] != '-' && !is_ascii_digit(
        t[j],
    ) by {
        if j == 0 {
            assert(is_upper_alpha(t[0]));
        } else {
            assert(is_lower_alpha(t[j]));
        }
    }
}

/// The digit portion prints one ASCII digit character per drawn digit, in
/// draw order: same length, and every character between `'0'` and `'9'`.
pub proof fn lemma_digit_chars(ds: Seq<int>)
    requires
        forall|i: int| 0 <= i < ds.len() ==> 0 <= #[trigger] ds[i] <= 9,
    ensures
        digit_chars(ds).len() == ds.len(),
        forall|j: int| 0 <= j < ds.len() ==> is_ascii_digit(#[trigger] digit_chars(ds)[j]),
{
    assert forall|j: int| 0 <= j < ds.len() implies is_ascii_digit(
        #[trigger] digit_chars(ds)[j],
    ) by {
        assert(digit_chars(ds)[j] == digit_char(ds[j]));
        assert(0 <= ds[j] <= 9);
    }
}

/// No character of a hyphen-joined run of capitalized words is a decimal
/// digit: the word portion of a passphrase cannot be mistaken for its digit
/// portion.
pub proof fn lemma_joined_digit_free(ws: Seq<Seq<char>>)
    requires
        forall|i: int| 0 <= i < ws.len() ==> is_cap_word(#[trigger] ws[i]),
    ensures
        forall|j: int| 0 <= j < joined(ws).len() ==> !is_ascii_digit(#[trigger] joined(ws)[j]),
    decreases ws.len(),
{
    if ws.len() == 0 {
    } else if ws.len() == 1 {
        lemma_cap_word_chars(ws[0]);
    } else {
        lemma_cap_word_chars(ws[0]);
        lemma_joined_digit_free(ws.skip(1));
        assert forall|j: int| 0 <= j < joined(ws).len() implies !is_ascii_digit(
            #[trigger] joined(ws)[j],
        ) by {
            let head = ws[0] + seq!['-'];
            if j < ws[0].len() {
                assert(joined(ws)[j] == ws[0][j]);
            } else if j == ws[0].len() {
                assert(joined(ws)[j] == '-');
            } else {
                assert(joined(ws)[j] == joined(ws.skip(1))[j - head.len()]);
            }
        }
    }
}

} // verus!

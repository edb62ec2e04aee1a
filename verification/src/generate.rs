//! Passphrase generation: one ChaCha20 generator seeded once from the
//! operating system, owned together with the wordlist, and drawn from to
//! pick word indices and trailing digits. Building the passphrase string
//! out of the drawn values is ordinary verified code; only the draws
//! themselves come from the outside generator.
use vstd::prelude::*;
use vstd::string::StringExecFns;

use crate::resolve_param;
use crate::resolved;
use crate::structure::digit_char;
use crate::structure::digit_chars;
use crate::structure::is_cap_word;
use crate::structure::joined;
use crate::structure::split_hyphens;
use crate::text::capitalize;
use crate::text::is_ascii_digit;
use crate::text::capitalized;
use crate::text::push_char;
use crate::wordlist::valid_word;
use crate::wordlist::valid_wordlist;
use crate::wordlist::Wordlist;
use crate::DEFAULT_DIGITS;
use crate::DEFAULT_LENGTH;

verus! {

#[verifier::external_type_specification]
#[verifier::external_body]
pub struct ExChaCha20Rng(rand_chacha::ChaCha20Rng);

/// The process-wide generation state: the fixed wordlist and the one
/// pseudo-random generator, seeded once at construction and reused for the
/// life of the process. A value's view is its wordlist's view; the
/// generator itself is opaque.
pub struct Generator {
    words: Wordlist,
    rng: rand_chacha::ChaCha20Rng,
}

impl View for Generator {
    type V = Seq<Seq<char>>;

    closed spec fn view(&self) -> Seq<Seq<char>> {
        self.words@
    }
}

/// Relies on SeedableRng::from_entropy: a ChaCha20 generator seeded with
/// 256 bits read from the operating system's secure entropy source. It
/// panics only when that source is unavailable, a fatal startup condition
/// under which the process cannot continue; it is never re-seeded after.
#[verifier::external_body]
fn fresh_rng() -> rand_chacha::ChaCha20Rng {
    <rand_chacha::ChaCha20Rng as rand::SeedableRng>::from_entropy()
}

/// Relies on Rng::gen_range over the half-open range `0..n`: a uniformly
/// random value in `[0, n)`, taken from the generator's next draws. The
/// call panics on an empty range, which the precondition rules out; the
/// wordlist is not touched.
#[verifier::external_body]
fn draw_below(g: &mut Generator, n: usize) -> (r: usize)
    requires
        n >= 1,
    ensures
        r < n,
        final(g)@ == old(g)@,
{
    rand::Rng::gen_range(&mut g.rng, 0..n)
}

/// The capitalized wordlist entries that a sequence of drawn indices picks,
/// in draw order.
pub open spec fn phrase_words(wl: Seq<Seq<char>>, idxs: Seq<int>) -> Seq<Seq<char>> {
    idxs.map_values(|i: int| capitalized(wl[i]))
}

/// The passphrase that a sequence of drawn indices and drawn digits builds:
/// the picked words, each capitalized, joined with hyphens, then the digit
/// characters with no separator.
pub open spec fn phrase_of(wl: Seq<Seq<char>>, idxs: Seq<int>, ds: Seq<int>) -> Seq<char> {
    joined(phrase_words(wl, idxs)) + digit_chars(ds)
}

/// How many words a request for `nw` words yields: always at least one, so
/// a request for zero words still yields a single word.
pub open spec fn word_total(nw: int) -> int {
    if nw <= 1 {
        1
    } else {
        nw
    }
}

/// Valid draws for a request: one index per word, each inside the
/// wordlist, and one value per digit, each between 0 and 9.
pub open spec fn phrase_draw(
    wl: Seq<Seq<char>>,
    nw: int,
    nd: int,
    idxs: Seq<int>,
    ds: Seq<int>,
) -> bool {
    &&& idxs.len() == word_total(nw)
    &&& ds.len() == nd
    &&& forall|i: int| 0 <= i < idxs.len() ==> 0 <= #[trigger] idxs[i] < wl.len()
    &&& forall|i: int| 0 <= i < ds.len() ==> 0 <= #[trigger] ds[i] <= 9
}

/// Every word the draws picked has the capitalized shape: uppercase letter
/// first, lowercase letters after.
pub open spec fn cap_words(wl: Seq<Seq<char>>, idxs: Seq<int>) -> bool {
    forall|k: int| 0 <= k < idxs.len() ==> is_cap_word(#[trigger] phrase_words(wl, idxs)[k])
}

/// What is known of a generated passphrase `p`: some valid draws for the
/// request exist under which `p` is exactly the passphrase those draws
/// build, and every picked word has the capitalized shape.
pub open spec fn generated_ok(wl: Seq<Seq<char>>, nw: int, nd: int, p: Seq<char>) -> bool {
    exists|idxs: Seq<int>, ds: Seq<int>|
        #[trigger] phrase_draw(wl, nw, nd, idxs, ds) && cap_words(wl, idxs) && p == phrase_of(
            wl,
            idxs,
            ds,
        )
}

/// What valid draws guarantee of the built passphrase. Writing `toks` for
/// the picked capitalized words and splitting the word portion on hyphens:
/// the split gives back exactly `toks`, so the word portion has exactly
/// `word_total(nw)` hyphen-separated tokens, each a wordlist entry with
/// only its first character's case changed; one word stands without any
/// hyphen; the digit portion holds exactly `nd` characters, each an ASCII
/// decimal digit, and no character of the word portion is one.
pub proof fn lemma_passphrase_structure(
    wl: Seq<Seq<char>>,
    nw: int,
    nd: int,
    idxs: Seq<int>,
    ds: Seq<int>,
)
    requires
        phrase_draw(wl, nw, nd, idxs, ds),
        cap_words(wl, idxs),
    ensures
        phrase_of(wl, idxs, ds) == joined(phrase_words(wl, idxs)) + digit_chars(ds),
        split_hyphens(joined(phrase_words(wl, idxs))) == phrase_words(wl, idxs),
        phrase_words(wl, idxs).len() == word_total(nw),
        forall|k: int|
            0 <= k < idxs.len() ==> #[trigger] phrase_words(wl, idxs)[k] == capitalized(
                wl[idxs[k]],
            ),
        idxs.len() == 1 ==> crate::structure::hyphen_free(joined(phrase_words(wl, idxs))),
        joined(phrase_words(wl, idxs)).len() >= 1,
        phrase_of(wl, idxs, ds).len() == joined(phrase_words(wl, idxs)).len() + nd,
        digit_chars(ds).len() == nd,
        forall|j: int| 0 <= j < nd ==> is_ascii_digit(#[trigger] digit_chars(ds)[j]),
        forall|j: int|
            0 <= j < joined(phrase_words(wl, idxs)).len() ==> !is_ascii_digit(
                #[trigger] joined(phrase_words(wl, idxs))[j],
            ),
{
    let toks = phrase_words(wl, idxs);
    assert forall|k: int| 0 <= k < toks.len() implies crate::structure::hyphen_free(
        #[trigger] toks[k],
    ) by {
        assert(is_cap_word(toks[k]));
        crate::structure::lemma_cap_word_chars(toks[k]);
    }
    crate::structure::lemma_split_of_joined(toks);
    crate::structure::lemma_digit_chars(ds);
    crate::structure::lemma_joined_digit_free(toks);
    if idxs.len() == 1 {
        assert(joined(toks) == toks[0]);
    }
    crate::structure::lemma_cap_word_chars(toks[0]);
    if toks.len() == 1 {
        assert(joined(toks).len() >= 1);
    } else {
        assert(joined(toks) == toks[0] + seq!['-'] + joined(toks.skip(1)));
        assert(joined(toks).len() >= 1);
    }
}

/// Append the character that prints one decimal digit.
fn push_digit(r: &mut String, d: u8)
    requires
        d <= 9,
    ensures
        final(r)@ == old(r)@ + seq![digit_char(d as int)],
{
    let c: char = if d == 0 {
        '0'
    } else if d == 1 {
        '1'
    } else if d == 2 {
        '2'
    } else if d == 3 {
        '3'
    } else if d == 4 {
        '4'
    } else if d == 5 {
        '5'
    } else if d == 6 {
        '6'
    } else if d == 7 {
        '7'
    } else if d == 8 {
        '8'
    } else {
        '9'
    };
    push_char(r, c);
}

/// Build the passphrase text that the given draws describe: the words the
/// indices pick, capitalized and joined with hyphens, then the digit
/// characters. This is the whole construction of the output; it is a pure
/// function of the wordlist and the draws.
pub fn build_passphrase(wl: &Wordlist, idxs: &Vec<usize>, digits: &Vec<u8>) -> (r: String)
    requires
        idxs@.len() >= 1,
        forall|i: int| 0 <= i < idxs@.len() ==> #[trigger] idxs@[i] < wl@.len(),
        forall|i: int| 0 <= i < digits@.len() ==> #[trigger] digits@[i] <= 9,
    ensures
        r@ == phrase_of(
            wl@,
            idxs@.map_values(|x: usize| x as int),
            digits@.map_values(|d: u8| d as int),
        ),
        cap_words(wl@, idxs@.map_values(|x: usize| x as int)),
{
    proof {
        use_type_invariant(&*wl);
    }
    let ghost gidx: Seq<int> = idxs@.map_values(|x: usize| x as int);
    let ghost gds: Seq<int> = digits@.map_values(|d: u8| d as int);
    let ghost toks: Seq<Seq<char>> = phrase_words(wl@, gidx);

    let first = wl.word_at(idxs[0]);
    let mut r = capitalize(first.as_str());
    proof {
        assert(valid_word(wl@[gidx[0]]));
        assert(is_cap_word(r@));
        assert(toks[0] == r@);
        assert(toks.take(1) =~= seq![toks[0]]);
        assert(joined(toks.take(1)) == r@);
    }
    let mut i: usize = 1;
    while i < idxs.len()
        invariant
            1 <= i <= idxs@.len(),
            valid_wordlist(wl@),
            gidx == idxs@.map_values(|x: usize| x as int),
            toks == phrase_words(wl@, gidx),
            forall|k: int| 0 <= k < idxs@.len() ==> #[trigger] idxs@[k] < wl@.len(),
            r@ == joined(toks.take(i as int)),
            forall|k: int| 0 <= k < i ==> is_cap_word(#[trigger] toks[k]),
        decreases idxs@.len() - i,
    {
        push_char(&mut r, '-');
        let cw = capitalize(wl.word_at(idxs[i]).as_str());
        r.append(cw.as_str());
        proof {
            assert(valid_word(wl@[gidx[i as int]]));
            assert(is_cap_word(cw@));
            assert(toks[i as int] == cw@);
            crate::structure::lemma_joined_push(toks.take(i as int), toks[i as int]);
            assert(toks.take(i + 1) =~= toks.take(i as int).push(toks[i as int]));
            assert(r@ == joined(toks.take(i + 1)));
        }
        i = i + 1;
    }
    proof {
        assert(toks.take(idxs@.len() as int) =~= toks);
        assert(r@ == joined(toks));
    }
    let mut j: usize = 0;
    while j < digits.len()
        invariant
            0 <= j <= digits@.len(),
            gds == digits@.map_values(|d: u8| d as int),
            toks == phrase_words(wl@, gidx),
            forall|k: int| 0 <= k < digits@.len() ==> #[trigger] digits@[k] <= 9,
            r@ == joined(toks) + digit_chars(gds.take(j as int)),
        decreases digits@.len() - j,
    {
        push_digit(&mut r, digits[j]);
        proof {
            assert(gds.take(j + 1) =~= gds.take(j as int).push(gds[j as int]));
            assert(digit_chars(gds.take(j + 1)) =~= digit_chars(gds.take(j as int)).push(
                digit_char(gds[j as int]),
            ));
            assert(r@ == joined(toks) + digit_chars(gds.take(j + 1)));
        }
        j = j + 1;
    }
    proof {
        assert(gds.take(digits@.len() as int) =~= gds);
        assert(r@ == phrase_of(wl@, gidx, gds));
    }
    r
}

impl Generator {
    /// Bring up the process-wide state: take the wordlist and seed one
    /// ChaCha20 generator, once, from the operating system's entropy
    /// source. Aborts the process when that source is unavailable.
    pub fn new(words: Wordlist) -> (g: Generator)
        ensures
            g@ == words@,
    {
        Generator { words, rng: fresh_rng() }
    }
}

/// Generate one passphrase: draw one word index per requested word — at
/// least one, so a request for zero words yields a single word — then one
/// value per requested digit, and build the text those draws describe.
/// The wordlist is left as it was; only the generator state advances.
pub fn passphrase_gen(g: &mut Generator, num_words: u8, num_digits: u8) -> (r: String)
    ensures
        final(g)@ == old(g)@,
        generated_ok(old(g)@, num_words as int, num_digits as int, r@),
{
    proof {
        use_type_invariant(&g.words);
    }
    let n = g.words.len();
    let total: usize = if num_words <= 1 {
        1
    } else {
        num_words as usize
    };
    let mut idxs: Vec<usize> = Vec::new();
    while idxs.len() < total
        invariant
            g@ == old(g)@,
            valid_wordlist(g@),
            n == g@.len(),
            1 <= total,
            total == word_total(num_words as int),
            idxs@.len() <= total,
            forall|k: int| 0 <= k < idxs@.len() ==> #[trigger] idxs@[k] < n,
        decreases total - idxs@.len(),
    {
        let ix = draw_below(g, n);
        idxs.push(ix);
    }
    let mut digits: Vec<u8> = Vec::new();
    let mut j: usize = 0;
    while j < num_digits as usize
        invariant
            g@ == old(g)@,
            valid_wordlist(g@),
            n == g@.len(),
            j == digits@.len(),
            digits@.len() <= num_digits as int,
            forall|k: int| 0 <= k < digits@.len() ==> #[trigger] digits@[k] <= 9,
        decreases num_digits as int - j,
    {
        let d = draw_below(g, 10);
        digits.push(d as u8);
        j = j + 1;
    }
    let r = build_passphrase(&g.words, &idxs, &digits);
    proof {
        let gidx = idxs@.map_values(|x: usize| x as int);
        let gds = digits@.map_values(|d: u8| d as int);
        assert(phrase_draw(old(g)@, num_words as int, num_digits as int, gidx, gds));
        assert(r@ == phrase_of(old(g)@, gidx, gds));
    }
    r
}

/// Answer a passphrase request that may name a word count and a digit
/// count: a missing parameter falls back to the defaults of four words and
/// no digits.
pub fn phrase_params(g: &mut Generator, length: Option<u8>, digits: Option<u8>) -> (r: String)
    ensures
        final(g)@ == old(g)@,
        generated_ok(
            old(g)@,
            resolved(length, DEFAULT_LENGTH) as int,
            resolved(digits, DEFAULT_DIGITS) as int,
            r@,
        ),
{
    let num_words = resolve_param(length, DEFAULT_LENGTH);
    let num_digits = resolve_param(digits, DEFAULT_DIGITS);
    passphrase_gen(g, num_words, num_digits)
}

/// Answer a passphrase request that names nothing: the defaults of four
/// words and no digits.
pub fn phrase(g: &mut Generator) -> (r: String)
    ensures
        final(g)@ == old(g)@,
        generated_ok(old(g)@, DEFAULT_LENGTH as int, DEFAULT_DIGITS as int, r@),
{
    passphrase_gen(g, DEFAULT_LENGTH, DEFAULT_DIGITS)
}

} // verus!

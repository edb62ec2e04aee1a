//! The wordlist: an immutable, non-empty ordered sequence of words, each a
//! non-empty run of ASCII lowercase letters, fixed at startup and shared
//! read-only by every request.
use vstd::prelude::*;

use crate::text::chars_vec;
use crate::text::is_lower_alpha;

verus! {

/// A usable wordlist entry: non-empty, ASCII lowercase letters only.
pub open spec fn valid_word(w: Seq<char>) -> bool {
    &&& w.len() > 0
    &&& forall|j: int| 0 <= j < w.len() ==> is_lower_alpha(#[trigger] w[j])
}

/// A usable wordlist: at least one entry, every entry a valid word.
pub open spec fn valid_wordlist(wl: Seq<Seq<char>>) -> bool {
    &&& wl.len() > 0
    &&& forall|i: int| 0 <= i < wl.len() ==> valid_word(#[trigger] wl[i])
}

/// The fixed word store. Constructed once at startup; never mutated.
pub struct Wordlist {
    words: Vec<String>,
}

impl View for Wordlist {
    type V = Seq<Seq<char>>;

    closed spec fn view(&self) -> Seq<Seq<char>> {
        self.words.deep_view()
    }
}

/// Whether one word consists only of ASCII lowercase letters and is non-empty.
fn check_word(w: &String) -> (r: bool)
    ensures
        r == valid_word(w@),
{
    let chars = chars_vec(w.as_str());
    if chars.len() == 0 {
        return false;
    }
    let mut j: usize = 0;
    while j < chars.len()
        invariant
            chars@ == w@,
            0 <= j <= w@.len(),
            forall|k: int| 0 <= k < j ==> is_lower_alpha(#[trigger] w@[k]),
        decreases chars@.len() - j,
    {
        let u = chars[j] as u32;
        if u < 'a' as u32 || u > 'z' as u32 {
            return false;
        }
        j = j + 1;
    }
    true
}

impl Wordlist {
    /// Every wordlist that can be built is usable: the constructor refuses
    /// anything else.
    #[verifier::type_invariant]
    pub open spec fn inv(&self) -> bool {
        valid_wordlist(self@)
    }

    /// Build a wordlist from its entries. Returns `None` exactly when the
    /// given entries do not form a usable wordlist: when the list is empty,
    /// or some entry is empty or holds anything but ASCII lowercase letters.
    pub fn new(words: Vec<String>) -> (r: Option<Wordlist>)
        ensures
            r is Some <==> valid_wordlist(words.deep_view()),
            r is Some ==> r->0@ == words.deep_view(),
    {
        if words.len() == 0 {
            return None;
        }
        let mut i: usize = 0;
        while i < words.len()
            invariant
                0 <= i <= words@.len(),
                forall|k: int| 0 <= k < i ==> valid_word(#[trigger] words.deep_view()[k]),
            decreases words@.len() - i,
        {
            if !check_word(&words[i]) {
                assert(!valid_word(words.deep_view()[i as int]));
                return None;
            }
            i = i + 1;
        }
        Some(Wordlist { words })
    }

    /// How many entries the wordlist holds.
    pub fn len(&self) -> (n: usize)
        ensures
            n == self@.len(),
    {
        self.words.len()
    }

    /// The entry at a given position.
    pub fn word_at(&self, i: usize) -> (w: &String)
        requires
            i < self@.len(),
        ensures
            w@ == self@[i as int],
    {
        &self.words[i]
    }
}

} // verus!

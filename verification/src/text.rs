use vstd::prelude::*;
use vstd::string::StringSliceAdditionalSpecFns;

verus! {

/// Whether `word` stands in `text` at the position `at`.
pub open spec fn occurs_at(word: Seq<u8>, text: Seq<u8>, at: int) -> bool {
    0 <= at && at + word.len() <= text.len() && text.subrange(at, at + word.len()) == word
}

/// Whether `word` stands somewhere in `text`.
pub open spec fn occurs(word: Seq<u8>, text: Seq<u8>) -> bool {
    exists|at: int| occurs_at(word, text, at)
}

/// Tells whether `word` stands in `text` at the position `at`.
pub fn matches_at(text: &[u8], at: usize, word: &[u8]) -> (found: bool)
    ensures
        found == occurs_at(word@, text@, at as int),
{
    if at > text.len() || word.len() > text.len() - at {
        return false;
    }
    let mut checked: usize = 0;
    while checked < word.len()
        invariant
            at + word.len() <= text.len(),
            checked <= word.len(),
            text@.subrange(at as int, at + checked) == word@.subrange(0, checked as int),
        decreases word.len() - checked,
    {
        if text[at + checked] != word[checked] {
            return false;
        }
        checked += 1;
    }
    assert(word@.subrange(0, checked as int) =~= word@);
    true
}

/// Tells whether `text` begins with `word`, byte for byte.
pub fn starts_with(text: &str, word: &str) -> (found: bool)
    ensures
        found == occurs_at(word.spec_bytes(), text.spec_bytes(), 0),
{
    matches_at(text.as_bytes(), 0, word.as_bytes())
}

/// Tells whether `word` stands somewhere in `text`, byte for byte.
pub fn contains(text: &str, word: &str) -> (found: bool)
    ensures
        found == occurs(word.spec_bytes(), text.spec_bytes()),
{
    let haystack = text.as_bytes();
    let needle = word.as_bytes();
    if needle.len() > haystack.len() {
        return false;
    }
    let last = haystack.len() - needle.len();
    let mut at: usize = 0;
    loop
        invariant
            haystack@ == text.spec_bytes(),
            needle@ == word.spec_bytes(),
            last == haystack.len() - needle.len(),
            at <= last,
            forall|before: int| 0 <= before < at ==> !occurs_at(needle@, haystack@, before),
        decreases last - at,
    {
        if matches_at(haystack, at, needle) {
            return true;
        }
        if at == last {
            return false;
        }
        at += 1;
    }
}

} // verus!

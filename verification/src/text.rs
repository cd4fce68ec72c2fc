//! Questions about the characters of a name.

use vstd::prelude::*;
use crate::conflict::{ends_with, occurs_in};

verus! {

/// The characters of `s`, one by one.
pub fn chars_of(s: &str) -> (chars: Vec<char>)
    ensures
        chars@ == s@,
{
    let n: usize = s.unicode_len();
    let mut chars: Vec<char> = Vec::new();
    let mut i: usize = 0;
    while i < n
        invariant
            i <= n,
            n == s@.len(),
            chars@ == s@.take(i as int),
        decreases n - i,
    {
        chars.push(s.get_char(i));
        assert(chars@ =~= s@.take(i + 1));
        i += 1;
    }
    assert(s@.take(n as int) =~= s@);
    chars
}

/// Whether `c` is one of `chars`.
pub fn contains_char(chars: &Vec<char>, c: char) -> (found: bool)
    ensures
        found == chars@.contains(c),
{
    let mut i: usize = 0;
    while i < chars.len()
        invariant
            i <= chars.len(),
            forall|k: int| 0 <= k < i ==> chars@[k] != c,
        decreases chars.len() - i,
    {
        if chars[i] == c {
            return true;
        }
        i += 1;
    }
    false
}

/// Whether `pattern` stands in `text` at position `at`.
fn matches_at(text: &Vec<char>, pattern: &Vec<char>, at: usize) -> (same: bool)
    requires
        at + pattern@.len() <= text@.len(),
    ensures
        same == (text@.subrange(at as int, at + pattern@.len()) == pattern@),
{
    let ghost window = text@.subrange(at as int, at + pattern@.len());
    let mut k: usize = 0;
    while k < pattern.len()
        invariant
            k <= pattern.len(),
            at + pattern@.len() <= text@.len(),
            text@.len() == text.len(),
            window == text@.subrange(at as int, at + pattern@.len()),
            forall|j: int| 0 <= j < k ==> window[j] == pattern@[j],
        decreases pattern.len() - k,
    {
        if text[at + k] != pattern[k] {
            assert(window[k as int] != pattern@[k as int]);
            return false;
        }
        k += 1;
    }
    assert(window =~= pattern@);
    true
}

/// Whether `text` ends with `suffix`.
pub fn has_suffix(text: &Vec<char>, suffix: &Vec<char>) -> (found: bool)
    ensures
        found == ends_with(text@, suffix@),
{
    if suffix.len() > text.len() {
        return false;
    }
    matches_at(text, suffix, text.len() - suffix.len())
}

/// Whether `pattern` occurs in `text` as a run of neighbouring characters.
pub fn contains_text(text: &Vec<char>, pattern: &Vec<char>) -> (found: bool)
    ensures
        found == occurs_in(pattern@, text@),
{
    if pattern.len() > text.len() {
        return false;
    }
    let last: usize = text.len() - pattern.len();
    let mut at: usize = 0;
    loop
        invariant
            at <= last,
            last + pattern@.len() == text@.len(),
            forall|i: int|
                0 <= i < at ==> #[trigger] text@.subrange(i, i + pattern@.len()) != pattern@,
        decreases last - at,
    {
        if matches_at(text, pattern, at) {
            return true;
        }
        if at == last {
            return false;
        }
        at += 1;
    }
}

} // verus!

//! Character-level helpers shared by the other modules.

use vstd::prelude::*;
use vstd::utf8::*;

verus! {

/// `String::push` appends one character to the end of the string.
pub assume_specification[ String::push ](s: &mut String, c: char)
    ensures
        final(s)@ == old(s)@.push(c),
;

/// `String::from_utf8`, on a copy of `bytes`: the decoded text exactly when
/// the bytes are valid UTF-8.
#[verifier::external_body]
pub(crate) fn decode_text(bytes: &[u8]) -> (text: Option<String>)
    ensures
        text is Some <==> valid_utf8(bytes@),
        text matches Some(t) ==> t@ == decode_utf8(bytes@),
{
    String::from_utf8(bytes.to_vec()).ok()
}

/// The text that `bytes` encode, if they are valid UTF-8.
pub open spec fn utf8_text(bytes: Seq<u8>) -> Option<Seq<char>> {
    if valid_utf8(bytes) {
        Some(decode_utf8(bytes))
    } else {
        None
    }
}

/// The characters of a string.
pub fn chars_of(s: &str) -> (chars: Vec<char>)
    ensures
        chars@ == s@,
{
    let mut chars: Vec<char> = Vec::new();
    for c in it: s.chars()
        invariant
            chars@ == it.seq().take(it.index() as int),
            it.seq() == s@,
    {
        chars.push(c);
    }
    chars
}

/// A string made of the given characters.
pub fn string_of(chars: &[char]) -> (s: String)
    ensures
        s@ == chars@,
{
    let mut s = String::new();
    for i in 0..chars.len()
        invariant
            s@ == chars@.take(i as int),
    {
        s.push(chars[i]);
    }
    s
}

/// Whether two strings hold the same characters.
pub fn same_text(a: &str, b: &str) -> (same: bool)
    ensures
        same == (a@ == b@),
{
    let left = chars_of(a);
    let right = chars_of(b);
    if left.len() != right.len() {
        return false;
    }
    for i in 0..left.len()
        invariant
            left@ == a@,
            right@ == b@,
            left@.len() == right@.len(),
            forall|j: int| 0 <= j < i ==> left@[j] == right@[j],
    {
        if left[i] != right[i] {
            return false;
        }
    }
    assert(a@ == b@);
    true
}

/// The position of the last `c` in `s`, or -1.
pub open spec fn last_index_of(s: Seq<char>, c: char) -> int
    decreases s.len(),
{
    if s.len() == 0 {
        -1
    } else if s.last() == c {
        s.len() - 1
    } else {
        last_index_of(s.drop_last(), c)
    }
}

/// Find the last occurrence of a character.
pub fn find_last(s: &[char], c: char) -> (found: Option<usize>)
    ensures
        match found {
            Some(i) => i == last_index_of(s@, c),
            None => last_index_of(s@, c) == -1,
        },
        found matches Some(i) ==> i < s@.len() && s@[i as int] == c,
{
    let mut end = s.len();
    assert(s@.take(end as int) == s@);
    while end > 0
        invariant
            end <= s@.len(),
            last_index_of(s@.take(end as int), c) == last_index_of(s@, c),
        decreases end,
    {
        assert(s@.take(end as int).drop_last() == s@.take(end - 1));
        if s[end - 1] == c {
            return Some(end - 1);
        }
        end = end - 1;
    }
    None
}

/// Whether `s` ends with `suffix`.
pub open spec fn ends_with(s: Seq<char>, suffix: Seq<char>) -> bool {
    s.len() >= suffix.len() && s.skip(s.len() - suffix.len()) == suffix
}

/// Whether a string ends with a suffix.
pub fn has_suffix(s: &[char], suffix: &[char]) -> (found: bool)
    ensures
        found == ends_with(s@, suffix@),
{
    if s.len() < suffix.len() {
        return false;
    }
    let offset: usize = s.len() - suffix.len();
    for i in 0..suffix.len()
        invariant
            offset + suffix.len() == s.len(),
            forall|j: int| 0 <= j < i ==> s@[offset + j] == suffix@[j],
    {
        if s[offset + i] != suffix[i] {
            assert(s@.skip(offset as int)[i as int] != suffix@[i as int]);
            return false;
        }
    }
    assert(s@.skip(offset as int) == suffix@);
    true
}

/// `chars` without the characters at its end that equal `c`.
pub open spec fn trim_end(chars: Seq<char>, c: char) -> Seq<char>
    decreases chars.len(),
{
    if chars.len() > 0 && chars.last() == c {
        trim_end(chars.drop_last(), c)
    } else {
        chars
    }
}

/// Remove every trailing NUL character.
pub fn trim_end_nul(s: &str) -> (trimmed: String)
    ensures
        trimmed@ == trim_end(s@, '\0'),
{
    let mut chars = chars_of(s);
    while chars.len() > 0 && chars[chars.len() - 1] == '\0'
        invariant
            trim_end(chars@, '\0') == trim_end(s@, '\0'),
        decreases chars@.len(),
    {
        chars.pop();
    }
    string_of(&chars)
}

} // verus!

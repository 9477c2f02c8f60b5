//! Kernel command line fragments.

use crate::text::{chars_of, same_text};
use vstd::prelude::*;

verus! {

/// Whether a character counts as whitespace on the kernel command line: the
/// ASCII control characters and the space.
pub open spec fn is_blank(c: char) -> bool {
    c <= '\u{20}' || c == '\u{7f}'
}

/// `s` without its leading blanks.
pub open spec fn trim_leading(s: Seq<char>) -> Seq<char>
    decreases s.len(),
{
    if s.len() > 0 && is_blank(s[0]) {
        trim_leading(s.drop_first())
    } else {
        s
    }
}

/// `s` without its trailing blanks.
pub open spec fn trim_trailing(s: Seq<char>) -> Seq<char>
    decreases s.len(),
{
    if s.len() > 0 && is_blank(s.last()) {
        trim_trailing(s.drop_last())
    } else {
        s
    }
}

/// `s` with every blank replaced by a plain space.
pub open spec fn plain_spaces(s: Seq<char>) -> Seq<char> {
    s.map_values(
        |c: char|
            if is_blank(c) {
                ' '
            } else {
                c
            },
    )
}

/// The normal form of a command line fragment.
pub open spec fn mangled(s: Seq<char>) -> Seq<char> {
    plain_spaces(trim_trailing(trim_leading(s)))
}

fn shall_be_whitespace(c: char) -> (blank: bool)
    ensures
        blank == is_blank(c),
{
    c <= '\u{20}' || c == '\u{7f}'
}

/// Normalise a kernel command line fragment for hand-off to the kernel.
///
/// Leading and trailing whitespace is removed and every inner control
/// character becomes a plain space.
pub fn mangle_stub_cmdline(cmdline: &str) -> (result: String)
    ensures
        result@ == mangled(cmdline@),
{
    let chars = chars_of(cmdline);

    let mut start: usize = 0;
    assert(chars@.skip(0) == chars@);
    while start < chars.len() && shall_be_whitespace(chars[start])
        invariant
            start <= chars@.len(),
            trim_leading(chars@.skip(start as int)) == trim_leading(chars@),
        decreases chars@.len() - start,
    {
        assert(chars@.skip(start as int).drop_first() == chars@.skip(start + 1));
        start = start + 1;
    }
    assert(trim_leading(chars@) == chars@.skip(start as int));

    let mut end: usize = chars.len();
    assert(chars@.subrange(start as int, end as int) == chars@.skip(start as int));
    while end > start && shall_be_whitespace(chars[end - 1])
        invariant
            start <= end <= chars@.len(),
            trim_trailing(chars@.subrange(start as int, end as int)) == trim_trailing(
                trim_leading(chars@),
            ),
        decreases end,
    {
        assert(chars@.subrange(start as int, end as int).drop_last() == chars@.subrange(
            start as int,
            end - 1,
        ));
        end = end - 1;
    }
    let ghost kept = chars@.subrange(start as int, end as int);
    assert(trim_trailing(trim_leading(chars@)) == kept);

    let mut result = String::new();
    for i in start..end
        invariant
            start <= end <= chars@.len(),
            kept == chars@.subrange(start as int, end as int),
            result@ == plain_spaces(kept.take(i - start)),
    {
        assert(kept.take(i + 1 - start) == kept.take(i - start).push(chars@[i as int]));
        if shall_be_whitespace(chars[i]) {
            result.push(' ');
        } else {
            result.push(chars[i]);
        }
        assert(result@ == plain_spaces(kept.take(i + 1 - start)));
    }
    assert(kept.take(end - start) == kept);
    result
}

proof fn lemma_trim_leading(s: Seq<char>)
    ensures
        trim_leading(s).len() <= s.len(),
        trim_leading(s).len() > 0 ==> !is_blank(trim_leading(s)[0]),
        trim_leading(s) == s.skip(s.len() - trim_leading(s).len()),
    decreases s.len(),
{
    if s.len() > 0 && is_blank(s[0]) {
        lemma_trim_leading(s.drop_first());
    }
}

proof fn lemma_trim_trailing(s: Seq<char>)
    ensures
        trim_trailing(s).len() <= s.len(),
        trim_trailing(s).len() > 0 ==> !is_blank(trim_trailing(s).last()),
        trim_trailing(s) == s.take(trim_trailing(s).len() as int),
        s.len() > 0 && !is_blank(s[0]) ==> trim_trailing(s).len() > 0,
    decreases s.len(),
{
    if s.len() > 0 && is_blank(s.last()) {
        lemma_trim_trailing(s.drop_last());
    }
}

/// A normalised fragment holds no control character, and no blank at either
/// end.
pub proof fn law_mangled_is_clean(s: Seq<char>)
    ensures
        forall|i: int|
            0 <= i < mangled(s).len() ==> (is_blank(#[trigger] mangled(s)[i]) ==> mangled(s)[i]
                == ' '),
        mangled(s).len() > 0 ==> !is_blank(mangled(s)[0]) && !is_blank(mangled(s).last()),
{
    lemma_trim_leading(s);
    lemma_trim_trailing(trim_leading(s));
}

/// Normalising a fragment twice is the same as normalising it once.
pub proof fn law_mangling_is_idempotent(s: Seq<char>)
    ensures
        mangled(mangled(s)) == mangled(s),
{
    law_mangled_is_clean(s);
    let once = mangled(s);
    assert(trim_leading(once) == once);
    assert(trim_trailing(once) == once);
    assert(plain_spaces(once) =~= once);
}

/// A fragment without blanks is left as it is.
pub proof fn law_mangling_keeps_plain_words(s: Seq<char>)
    requires
        forall|i: int| 0 <= i < s.len() ==> !is_blank(#[trigger] s[i]),
    ensures
        mangled(s) == s,
{
    assert(trim_leading(s) == s);
    assert(trim_trailing(s) == s);
    assert(plain_spaces(s) =~= s);
}

/// Whether an addon applies to the booted kernel.
pub open spec fn uname_compatible(uki: Option<Seq<char>>, addon: Option<Seq<char>>) -> bool {
    uki is Some && addon is Some ==> uki == addon
}

/// The characters of an optional string.
pub open spec fn text_option(s: Option<&str>) -> Option<Seq<char>> {
    match s {
        Some(s) => Some(s@),
        None => None,
    }
}

/// Whether an addon's `.uname` is compatible with the booted UKI's `.uname`.
///
/// An addon without a `.uname` section applies to every kernel; a UKI
/// without one accepts every addon.
pub fn addon_matches_uki_uname(uki_uname: Option<&str>, addon_uname: Option<&str>) -> (matches: bool)
    ensures
        matches == uname_compatible(text_option(uki_uname), text_option(addon_uname)),
{
    match (uki_uname, addon_uname) {
        (Some(uki_uname), Some(addon_uname)) => same_text(addon_uname, uki_uname),
        _ => true,
    }
}

} // verus!

//! Names of companion files and of the directories that hold them.

use crate::text::{chars_of, ends_with, find_last, has_suffix, last_index_of, string_of};
use vstd::prelude::*;

verus! {

/// The lower-case form of an ASCII letter; any other character is unchanged.
pub open spec fn ascii_lower(c: char) -> char {
    if 'A' <= c <= 'Z' {
        (c as u32 + 32) as char
    } else {
        c
    }
}

/// Whether `name` ends with `suffix`, ignoring the case of ASCII letters.
pub open spec fn ends_with_ignoring_case(name: Seq<char>, suffix: Seq<char>) -> bool {
    &&& name.len() >= suffix.len()
    &&& forall|i: int|
        0 <= i < suffix.len() ==> ascii_lower(#[trigger] name[name.len() - suffix.len() + i])
            == ascii_lower(suffix[i])
}

/// Lower-case an ASCII letter.
pub fn to_ascii_lower(c: char) -> (lower: char)
    ensures
        lower == ascii_lower(c),
{
    if 'A' <= c && c <= 'Z' {
        let code: u8 = c as u8;
        (code + 32) as char
    } else {
        c
    }
}

fn has_suffix_ignoring_case(name: &[char], suffix: &[char]) -> (found: bool)
    ensures
        found == ends_with_ignoring_case(name@, suffix@),
{
    if name.len() < suffix.len() {
        return false;
    }
    let offset: usize = name.len() - suffix.len();
    for i in 0..suffix.len()
        invariant
            offset + suffix.len() == name.len(),
            forall|j: int|
                0 <= j < i ==> ascii_lower(#[trigger] name@[offset + j]) == ascii_lower(suffix@[j]),
    {
        if to_ascii_lower(name[offset + i]) != to_ascii_lower(suffix[i]) {
            assert(name@.len() - suffix@.len() + i == offset + i);
            return false;
        }
    }
    assert forall|j: int| 0 <= j < suffix@.len() implies ascii_lower(
        #[trigger] name@[name@.len() - suffix@.len() + j],
    ) == ascii_lower(suffix@[j]) by {
        assert(ascii_lower(name@[offset + j]) == ascii_lower(suffix@[j]));
    }
    true
}

/// Whether a filename is selected by a suffix and an excluded suffix.
pub open spec fn suffix_selects(
    filename: Seq<char>,
    suffix: Seq<char>,
    excluded: Option<Seq<char>>,
) -> bool {
    &&& ends_with_ignoring_case(filename, suffix)
    &&& excluded matches Some(excluded) ==> !ends_with_ignoring_case(filename, excluded)
}

/// Whether a filename ends with `suffix` (ASCII case-insensitive) while not
/// ending with the more specific `excluded_suffix`.
pub fn filename_matches_suffix(
    filename: &str,
    suffix: &str,
    excluded_suffix: Option<&str>,
) -> (selected: bool)
    ensures
        selected == suffix_selects(
            filename@,
            suffix@,
            crate::cmdline::text_option(excluded_suffix),
        ),
{
    let name = chars_of(filename);
    if !has_suffix_ignoring_case(&name, &chars_of(suffix)) {
        return false;
    }
    match excluded_suffix {
        Some(excluded) => !has_suffix_ignoring_case(&name, &chars_of(excluded)),
        None => true,
    }
}

/// Whether `s` is a non-empty run of ASCII digits.
pub open spec fn is_number(s: Seq<char>) -> bool {
    s.len() > 0 && forall|i: int| 0 <= i < s.len() ==> '0' <= #[trigger] s[i] <= '9'
}

/// Whether `s` has the form `tries` or `tries-done`.
pub open spec fn is_counter(s: Seq<char>) -> bool {
    is_number(s) || exists|k: int| #[trigger] splits_counter(s, k)
}

/// Whether the `-` of a `tries-done` counter stands at position `k`.
pub open spec fn splits_counter(s: Seq<char>, k: int) -> bool {
    &&& 0 <= k < s.len()
    &&& s[k] == '-'
    &&& is_number(s.take(k))
    &&& is_number(s.skip(k + 1))
}

/// Whether a boot assessment counter starts with the `+` at position `k` and
/// runs to the end of `stem`.
pub open spec fn counter_at(stem: Seq<char>, k: int) -> bool {
    0 <= k < stem.len() && stem[k] == '+' && is_counter(stem.skip(k + 1))
}

/// `stem` without its boot assessment counter.
pub open spec fn without_counter(stem: Seq<char>) -> Seq<char> {
    if exists|k: int| counter_at(stem, k) {
        stem.take(choose|k: int| counter_at(stem, k))
    } else {
        stem
    }
}

/// There is no `+` in a counter.
pub proof fn lemma_counter_has_no_plus(s: Seq<char>, i: int)
    requires
        is_counter(s),
        0 <= i < s.len(),
    ensures
        s[i] != '+',
{
    if !is_number(s) {
        let k = choose|k: int| #[trigger] splits_counter(s, k);
        if i < k {
            assert(s.take(k)[i] == s[i]);
        } else if i > k {
            assert(s.skip(k + 1)[i - k - 1] == s[i]);
        }
    }
}

proof fn lemma_counter_unique(stem: Seq<char>, a: int, b: int)
    requires
        counter_at(stem, a),
        counter_at(stem, b),
    ensures
        a == b,
{
    if a < b {
        lemma_counter_has_no_plus(stem.skip(a + 1), b - a - 1);
    } else if b < a {
        lemma_counter_has_no_plus(stem.skip(b + 1), a - b - 1);
    }
}

proof fn lemma_last_index_is_last(s: Seq<char>, c: char, i: int)
    requires
        0 <= i < s.len(),
        s[i] == c,
    ensures
        i <= last_index_of(s, c) < s.len(),
        s[last_index_of(s, c)] == c,
    decreases s.len(),
{
    if s.last() != c {
        lemma_last_index_is_last(s.drop_last(), c, i);
    }
}

fn number(s: &[char], from: usize, to: usize) -> (ok: bool)
    requires
        from <= to <= s@.len(),
    ensures
        ok == is_number(s@.subrange(from as int, to as int)),
{
    let ghost part = s@.subrange(from as int, to as int);
    if from == to {
        return false;
    }
    for i in from..to
        invariant
            from <= to <= s@.len(),
            part == s@.subrange(from as int, to as int),
            forall|j: int| 0 <= j < i - from ==> '0' <= #[trigger] part[j] <= '9',
    {
        if !('0' <= s[i] && s[i] <= '9') {
            assert(!('0' <= part[i - from] <= '9'));
            return false;
        }
    }
    true
}

/// Whether the characters from `from` on are a boot assessment counter.
fn counter(s: &[char], from: usize) -> (ok: bool)
    requires
        from <= s@.len(),
    ensures
        ok == is_counter(s@.skip(from as int)),
{
    let ghost tail = s@.skip(from as int);
    let mut dash: usize = from;
    while dash < s.len() && s[dash] != '-'
        invariant
            from <= dash <= s@.len(),
            tail == s@.skip(from as int),
            forall|j: int| 0 <= j < dash - from ==> tail[j] != '-',
        decreases s@.len() - dash,
    {
        dash = dash + 1;
    }
    assert(s@.subrange(from as int, s@.len() as int) == tail);
    if dash == s.len() {
        return number(s, from, s.len());
    }
    let ghost k = dash - from;
    assert(s@.subrange(from as int, dash as int) == tail.take(k));
    assert(s@.subrange(dash + 1, s@.len() as int) == tail.skip(k + 1));
    let ok = number(s, from, dash) && number(s, dash + 1, s.len());
    proof {
        assert(tail[k] == '-');
        if ok {
            assert(splits_counter(tail, k));
        } else {
            assert forall|j: int| !splits_counter(tail, j) by {
                if splits_counter(tail, j) && j > k {
                    assert(tail.take(j)[k] == '-');
                }
            }
        }
    }
    ok
}

/// The length of `stem` without its boot assessment counter.
fn length_without_counter(stem: &[char]) -> (len: usize)
    ensures
        len <= stem@.len(),
        stem@.take(len as int) == without_counter(stem@),
{
    let plus = match find_last(stem, '+') {
        Some(plus) => plus,
        None => {
            assert forall|k: int| !counter_at(stem@, k) by {
                if counter_at(stem@, k) {
                    lemma_last_index_is_last(stem@, '+', k);
                }
            }
            return stem.len();
        },
    };
    assert(plus < stem.len());
    if counter(stem, plus + 1) {
        assert(counter_at(stem@, plus as int));
        proof {
            lemma_counter_unique(stem@, plus as int, choose|k: int| counter_at(stem@, k));
        }
        plus
    } else {
        assert forall|k: int| !counter_at(stem@, k) by {
            if counter_at(stem@, k) {
                lemma_last_index_is_last(stem@, '+', k);
                if k < plus {
                    lemma_counter_has_no_plus(stem@.skip(k + 1), plus - k - 1);
                }
            }
        }
        stem.len()
    }
}

/// Remove an Automatic Boot Assessment counter (`+tries` or `+tries-done`)
/// from the end of an image name stem.
pub fn strip_automatic_boot_assessment_counter(stem: &str) -> (stripped: &str)
    ensures
        stripped@ == without_counter(stem@),
{
    let chars = chars_of(stem);
    let len = length_without_counter(&chars);
    assert(stem@.subrange(0, len as int) == stem@.take(len as int));
    stem.substring_char(0, len)
}

/// The directory part of an image path, with its trailing `\`; empty for a
/// bare file name.
pub open spec fn image_directory(image_path: Seq<char>) -> Seq<char> {
    image_path.take(last_index_of(image_path, '\\') + 1)
}

/// The file name of an image path.
pub open spec fn image_filename(image_path: Seq<char>) -> Seq<char> {
    image_path.skip(last_index_of(image_path, '\\') + 1)
}

/// A file name without its `.efi` extension.
pub open spec fn image_stem(filename: Seq<char>) -> Seq<char> {
    filename.take(filename.len() - 4)
}

/// The image-specific drop-in directory of an image.
pub open spec fn dropin_directory(image_path: Seq<char>) -> Seq<char> {
    let directory = image_directory(image_path);
    let filename = image_filename(image_path);
    if ends_with(filename, ".efi"@) {
        directory + without_counter(image_stem(filename)) + ".efi.extra.d"@
    } else {
        directory + without_counter(filename) + ".extra.d"@
    }
}

/// The image-specific companion drop-in directory (`<image>.efi.extra.d`),
/// with any boot assessment counter removed from the image name.
pub fn image_dropin_directory_path(image_path: &str) -> (path: String)
    ensures
        path@ == dropin_directory(image_path@),
{
    let chars = chars_of(image_path);
    let start: usize = match find_last(&chars, '\\') {
        Some(separator) => {
            assert(separator < chars.len());
            separator + 1
        },
        None => 0,
    };
    let directory = vstd::slice::slice_subrange(&chars, 0, start);
    let filename = vstd::slice::slice_subrange(&chars, start, chars.len());
    let extension = chars_of(".efi");
    proof {
        reveal_strlit(".efi");
        assert(directory@ == image_directory(image_path@));
        assert(filename@ == image_filename(image_path@));
        assert(extension@ == ".efi"@);
    }
    let mut path = string_of(directory);
    if has_suffix(filename, &extension) {
        let stem = vstd::slice::slice_subrange(filename, 0, filename.len() - 4);
        assert(stem@ == image_stem(filename@));
        let kept = vstd::slice::slice_subrange(stem, 0, length_without_counter(stem));
        assert(kept@ == without_counter(stem@));
        path.append(string_of(kept).as_str());
        path.append(".efi.extra.d");
    } else {
        let kept = vstd::slice::slice_subrange(filename, 0, length_without_counter(filename));
        assert(kept@ == without_counter(filename@));
        path.append(string_of(kept).as_str());
        path.append(".extra.d");
    }
    path
}

/// The file name starts behind the last `\`.
pub proof fn lemma_last_separator(directory: Seq<char>, filename: Seq<char>)
    requires
        directory.len() == 0 || directory.last() == '\\',
        forall|i: int| 0 <= i < filename.len() ==> #[trigger] filename[i] != '\\',
    ensures
        last_index_of(directory + filename, '\\') == directory.len() - 1,
    decreases filename.len(),
{
    let path = directory + filename;
    if filename.len() > 0 {
        assert(path.last() == filename[filename.len() - 1]);
        assert(path.drop_last() == directory + filename.drop_last());
        lemma_last_separator(directory, filename.drop_last());
    } else {
        assert(path == directory);
    }
}

proof fn lemma_counter_has_no_separator(s: Seq<char>, i: int)
    requires
        is_counter(s),
        0 <= i < s.len(),
    ensures
        s[i] != '\\',
{
    if !is_number(s) {
        let k = choose|k: int| #[trigger] splits_counter(s, k);
        if i < k {
            assert(s.take(k)[i] == s[i]);
        } else if i > k {
            assert(s.skip(k + 1)[i - k - 1] == s[i]);
        }
    }
}

/// Whatever its boot assessment counter says, an image has the same drop-in
/// directory, with and without the `.efi` extension.
pub proof fn law_counters_do_not_move_the_dropin_directory(
    directory: Seq<char>,
    stem: Seq<char>,
    counter: Seq<char>,
)
    requires
        directory.len() == 0 || directory.last() == '\\',
        forall|i: int| 0 <= i < stem.len() ==> #[trigger] stem[i] != '\\',
        is_counter(counter),
    ensures
        without_counter(stem.push('+') + counter) == stem,
        dropin_directory(directory + (stem.push('+') + counter + ".efi"@)) == directory + stem
            + ".efi.extra.d"@,
        dropin_directory(directory + (stem.push('+') + counter)) == directory + stem
            + ".extra.d"@,
{
    reveal_strlit(".efi");
    let counted = stem.push('+') + counter;
    assert(counted.skip(stem.len() as int + 1) == counter);
    assert(counter_at(counted, stem.len() as int));
    lemma_counter_unique(
        counted,
        stem.len() as int,
        choose|k: int| counter_at(counted, k),
    );
    assert(counted.take(stem.len() as int) == stem);
    let filename = counted + ".efi"@;
    let path = directory + filename;
    assert forall|i: int| 0 <= i < filename.len() implies #[trigger] filename[i] != '\\' by {
        if i > stem.len() && i < counted.len() {
            lemma_counter_has_no_separator(counter, i - stem.len() - 1);
        }
    }
    lemma_last_separator(directory, filename);
    assert(image_directory(path) == directory);
    assert(image_filename(path) == filename);
    assert(filename.skip(filename.len() - 4) == ".efi"@);
    assert(image_stem(filename) == counted);
    assert forall|i: int| 0 <= i < counted.len() implies #[trigger] counted[i] != '\\' by {
        assert(filename[i] == counted[i]);
    }
    lemma_last_separator(directory, counted);
    assert(image_directory(directory + counted) == directory);
    assert(image_filename(directory + counted) == counted);
    lemma_counter_ends_with_digit(counter);
    assert(!ends_with(counted, ".efi"@)) by {
        if ends_with(counted, ".efi"@) {
            assert(counted.skip(counted.len() - 4)[3] == 'i');
            assert(counted.last() == counter.last());
        }
    }
}

proof fn lemma_counter_ends_with_digit(s: Seq<char>)
    requires
        is_counter(s),
    ensures
        s.len() > 0,
        '0' <= s.last() <= '9',
{
    if !is_number(s) {
        let k = choose|k: int| #[trigger] splits_counter(s, k);
        let done = s.skip(k + 1);
        assert(done[done.len() - 1] == s.last());
    } else {
        assert(s[s.len() - 1] == s.last());
    }
}

/// The historical drop-in directory of an image.
pub open spec fn legacy_dropin_directory(image_path: Seq<char>) -> Seq<char> {
    image_path + ".extra"@
}

/// The historical lanzaboote drop-in directory (`<image>.extra`).
pub fn legacy_image_dropin_directory_path(image_path: &str) -> (path: String)
    ensures
        path@ == legacy_dropin_directory(image_path@),
{
    let mut path = String::new();
    path.append(image_path);
    path.append(".extra");
    assert(path@ == image_path@ + ".extra"@);
    path
}

} // verus!

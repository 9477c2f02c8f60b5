//! What becomes of command lines, names and sections, told by their
//! characters.

use crate::addons::{addon_verdict, image_verdict, AddonSkip};
use crate::cmdline::{mangled, plain_spaces, trim_leading, trim_trailing, uname_compatible};
use crate::discovery::CompanionModel;
use crate::dropin_paths::{
    ascii_lower, counter_at, dropin_directory, ends_with_ignoring_case, image_directory,
    image_filename, image_stem, is_counter, is_number, splits_counter, suffix_selects,
    without_counter,
};
use crate::pe::{first_named, parsed_pe, readable_names, PeLayout, PeModel, SectionModel};
use crate::stub::{joined_cmdlines, merged_companions, section_file};
use crate::text::{ends_with, trim_end};
use vstd::prelude::*;
use vstd::utf8::*;

verus! {

/// Whether a character is an ASCII control character or the space.
pub open spec fn is_control_or_space(c: char) -> bool {
    c as int <= 32 || c as int == 127
}

proof fn lemma_leading(s: Seq<char>)
    ensures
        trim_leading(s).len() <= s.len(),
        trim_leading(s) == s.skip(s.len() - trim_leading(s).len()),
        forall|i: int|
            0 <= i < s.len() - trim_leading(s).len() ==> is_control_or_space(#[trigger] s[i]),
        trim_leading(s).len() > 0 ==> !is_control_or_space(trim_leading(s)[0]),
    decreases s.len(),
{
    if s.len() > 0 && is_control_or_space(s[0]) {
        let rest = s.drop_first();
        lemma_leading(rest);
        let cut = s.len() - trim_leading(s).len();
        assert forall|i: int| 0 <= i < cut implies is_control_or_space(#[trigger] s[i]) by {
            if i > 0 {
                assert(s[i] == rest[i - 1]);
            }
        }
    }
}

proof fn lemma_trailing(s: Seq<char>)
    ensures
        trim_trailing(s).len() <= s.len(),
        trim_trailing(s) == s.take(trim_trailing(s).len() as int),
        forall|i: int|
            trim_trailing(s).len() <= i < s.len() ==> is_control_or_space(#[trigger] s[i]),
        trim_trailing(s).len() > 0 ==> !is_control_or_space(trim_trailing(s).last()),
    decreases s.len(),
{
    if s.len() > 0 && is_control_or_space(s.last()) {
        let rest = s.drop_last();
        lemma_trailing(rest);
        assert forall|i: int| trim_trailing(s).len() <= i < s.len() implies is_control_or_space(
            #[trigger] s[i],
        ) by {
            if i < rest.len() {
                assert(s[i] == rest[i]);
            }
        }
    }
}

/// Whether a text is a part of another, from one position up to another, with
/// a space in place of every control character.
pub open spec fn is_clean_part(text: Seq<char>, of: Seq<char>, from: int, to: int) -> bool {
    &&& 0 <= from <= to <= of.len()
    &&& text.len() == to - from
    &&& forall|i: int|
        0 <= i < text.len() ==> #[trigger] text[i] == if is_control_or_space(of[from + i]) {
            ' '
        } else {
            of[from + i]
        }
}

/// A normalised fragment is what is left between the leading and the trailing
/// control characters and spaces, and each control character in it has become
/// a space. Nothing else is lost.
pub proof fn law_mangling_loses_only_blanks(s: Seq<char>) -> (bounds: (int, int))
    ensures
        is_clean_part(mangled(s), s, bounds.0, bounds.1),
        forall|i: int| 0 <= i < bounds.0 ==> is_control_or_space(#[trigger] s[i]),
        forall|i: int| bounds.1 <= i < s.len() ==> is_control_or_space(#[trigger] s[i]),
        bounds.0 < bounds.1 ==> !is_control_or_space(s[bounds.0]) && !is_control_or_space(
            s[bounds.1 - 1],
        ),
{
    let tail = trim_leading(s);
    lemma_leading(s);
    lemma_trailing(tail);
    let kept = trim_trailing(tail);
    let from = s.len() - tail.len();
    let to = from + kept.len();
    assert forall|i: int| to <= i < s.len() implies is_control_or_space(#[trigger] s[i]) by {
        assert(tail[i - from] == s[i]);
    }
    assert forall|i: int| 0 <= i < kept.len() implies kept[i] == s[from + i] by {
        assert(tail[i] == s[from + i]);
    }
    if from < to {
        assert(kept[0] == tail[0]);
        assert(kept.last() == s[to - 1]);
    }
    assert(plain_spaces(kept).len() == kept.len());
    (from, to)
}

/// An addon is for the booted kernel if both name the same one, and also if
/// one of them names none.
pub proof fn law_addons_apply_to_the_kernel_they_name(uki: Seq<char>, addon: Seq<char>)
    ensures
        uname_compatible(Some(uki), Some(addon)) <==> uki == addon,
        uname_compatible(None, Some(addon)),
        uname_compatible(Some(uki), None),
        uname_compatible(None, None),
{
}

/// Why an image is passed over: it is not a PE binary; it has a `.linux`
/// section; it names another kernel; it has no text for a command line. Where
/// several of these hold, the first is the reason.
pub proof fn law_reasons_to_pass_over_an_image(
    data: Seq<u8>,
    layout: PeLayout,
    pe: PeModel,
    uki_uname: Option<Seq<char>>,
)
    ensures
        image_verdict(data, layout, uki_uname) == Err::<Seq<char>, AddonSkip>(
            AddonSkip::Unparsable,
        ) <==> parsed_pe(data, layout) is Err,
        ({
            let verdict = addon_verdict(pe, uki_uname);
            let kernel = exists|i: int|
                0 <= i < pe.sections.len() && (#[trigger] pe.sections[i]).name == Some(".linux"@);
            let other = uki_uname is Some && pe.text(".uname"@) is Some && pe.text(".uname"@)
                != uki_uname;
            let text = pe.text(".cmdline"@);
            &&& verdict == Err::<Seq<char>, AddonSkip>(AddonSkip::KernelImage) <==> kernel
            &&& verdict == Err::<Seq<char>, AddonSkip>(AddonSkip::OtherKernel) <==> !kernel && other
            &&& verdict == Err::<Seq<char>, AddonSkip>(AddonSkip::NoCmdline) <==> !kernel && !other
                && text is None
            &&& verdict is Ok <==> !kernel && !other && text is Some
            &&& verdict is Ok ==> verdict->Ok_0 == mangled(text->0)
        }),
{
    lemma_first_named_exists(pe.sections, ".linux"@);
}

proof fn lemma_first_named_exists(sections: Seq<SectionModel>, name: Seq<char>)
    ensures
        first_named(sections, name) is Some <==> exists|i: int|
            0 <= i < sections.len() && (#[trigger] sections[i]).name == Some(name),
    decreases sections.len(),
{
    if sections.len() > 0 {
        let rest = sections.drop_first();
        lemma_first_named_exists(rest, name);
        if sections[0].name != Some(name) {
            if first_named(rest, name) is Some {
                let i = choose|i: int|
                    0 <= i < rest.len() && (#[trigger] rest[i]).name == Some(name);
                assert(sections[i + 1].name == Some(name));
            }
            if exists|i: int|
                0 <= i < sections.len() && (#[trigger] sections[i]).name == Some(name) {
                let i = choose|i: int|
                    0 <= i < sections.len() && (#[trigger] sections[i]).name == Some(name);
                assert(rest[i - 1].name == Some(name));
            }
        }
    }
}

/// Of several sections with one name the first counts, and one without that
/// name never does.
pub proof fn law_first_section_of_a_name_counts(
    sections: Seq<SectionModel>,
    name: Seq<char>,
    i: int,
)
    requires
        0 <= i <= sections.len(),
        forall|j: int| 0 <= j < i ==> (#[trigger] sections[j]).name != Some(name),
        i < sections.len() ==> sections[i].name == Some(name),
    ensures
        first_named(sections, name) == if i < sections.len() {
            Some(sections[i])
        } else {
            None
        },
    decreases i,
{
    if i > 0 {
        let rest = sections.drop_first();
        assert(sections[0].name != Some(name));
        assert forall|j: int| 0 <= j < i - 1 implies (#[trigger] rest[j]).name != Some(name) by {
            assert(rest[j] == sections[j + 1]);
        }
        law_first_section_of_a_name_counts(rest, name, i - 1);
    }
}

/// The readable names of a section table are those of its parts, one part
/// after the other; a section with a readable name gives that name, and one
/// without gives none.
pub proof fn law_names_keep_the_order_of_the_table(
    a: Seq<SectionModel>,
    b: Seq<SectionModel>,
    section: SectionModel,
)
    ensures
        readable_names(a + b) == readable_names(a) + readable_names(b),
        readable_names(seq![section]) == match section.name {
            Some(name) => seq![name],
            None => Seq::empty(),
        },
    decreases b.len(),
{
    let one = seq![section];
    assert(one.drop_last() =~= Seq::<SectionModel>::empty());
    assert(readable_names(one.drop_last()) =~= Seq::<Seq<char>>::empty());
    assert(readable_names(one) =~= match section.name {
        Some(name) => seq![name],
        None => Seq::empty(),
    });
    if b.len() == 0 {
        assert(a + b =~= a);
        assert(readable_names(a) + readable_names(b) =~= readable_names(a));
    } else {
        law_names_keep_the_order_of_the_table(a, b.drop_last(), section);
        assert((a + b).drop_last() =~= a + b.drop_last());
        assert((a + b).last() == b.last());
        assert(readable_names(a + b) =~= readable_names(a) + readable_names(b));
    }
}

proof fn lemma_trim_end(text: Seq<char>, c: char, n: nat)
    requires
        text.len() == 0 || text.last() != c,
    ensures
        trim_end(text + Seq::new(n, |i: int| c), c) == text,
    decreases n,
{
    let all = text + Seq::new(n, |i: int| c);
    if n == 0 {
        assert(all =~= text);
    } else {
        assert(all.last() == c);
        assert(all.drop_last() =~= text + Seq::new((n - 1) as nat, |i: int| c));
        lemma_trim_end(text, c, (n - 1) as nat);
    }
}

/// The text of a section is read back from its bytes, without the NULs that
/// pad it. Bytes that are not UTF-8 hold no text.
pub proof fn law_section_texts_are_read_back(
    pe: PeModel,
    name: Seq<char>,
    text: Seq<char>,
    padding: nat,
)
    requires
        text.len() == 0 || text.last() != '\0',
    ensures
        pe.contents(name) == Some(encode_utf8(text + Seq::new(padding, |i: int| '\0'))) ==> pe.text(
            name,
        ) == Some(text),
        pe.contents(name) is None ==> pe.text(name) is None,
        pe.contents(name) matches Some(bytes) ==> (pe.text(name) is Some <==> valid_utf8(bytes)),
{
    let padded = text + Seq::new(padding, |i: int| '\0');
    encode_utf8_valid_utf8(padded);
    encode_utf8_decode_utf8(padded);
    lemma_trim_end(text, '\0', padding);
}

/// Whether two characters are the same but for the case of an ASCII letter.
pub open spec fn same_letter(a: char, b: char) -> bool {
    ||| a == b
    ||| 65 <= a as int <= 90 && b as int == a as int + 32
    ||| 65 <= b as int <= 90 && a as int == b as int + 32
}

proof fn lemma_same_letter(a: char, b: char)
    ensures
        same_letter(a, b) <==> ascii_lower(a) == ascii_lower(b),
{
}

/// A file name has an ending if its last characters are those of the ending,
/// but for the case of ASCII letters. It is selected by its ending unless it
/// has the excluded one as well.
pub proof fn law_endings_ignore_the_case_of_letters(
    name: Seq<char>,
    ending: Seq<char>,
    excluded: Seq<char>,
)
    ensures
        suffix_selects(name, ending, None) <==> name.len() >= ending.len() && forall|i: int|
            0 <= i < ending.len() ==> same_letter(
                #[trigger] name[name.len() - ending.len() + i],
                ending[i],
            ),
        suffix_selects(name, ending, Some(excluded)) <==> suffix_selects(name, ending, None)
            && !suffix_selects(name, excluded, None),
{
    if name.len() >= ending.len() {
        let offset = name.len() - ending.len();
        if ends_with_ignoring_case(name, ending) {
            assert forall|i: int| 0 <= i < ending.len() implies same_letter(
                #[trigger] name[offset + i],
                ending[i],
            ) by {
                lemma_same_letter(name[offset + i], ending[i]);
            }
        }
        if forall|i: int|
            0 <= i < ending.len() ==> same_letter(#[trigger] name[offset + i], ending[i]) {
            assert forall|i: int| 0 <= i < ending.len() implies ascii_lower(
                #[trigger] name[offset + i],
            ) == ascii_lower(ending[i]) by {
                assert(same_letter(name[offset + i], ending[i]));
                lemma_same_letter(name[offset + i], ending[i]);
            }
        }
    }
}

/// Whether all characters of a text are ASCII digits, and there is one.
pub open spec fn all_digits(s: Seq<char>) -> bool {
    s.len() > 0 && forall|i: int| 0 <= i < s.len() ==> 48 <= (#[trigger] s[i]) as int <= 57
}

proof fn lemma_digits(s: Seq<char>)
    ensures
        all_digits(s) <==> is_number(s),
{
    if all_digits(s) {
        assert forall|i: int| 0 <= i < s.len() implies '0' <= #[trigger] s[i] <= '9' by {
            assert(48 <= s[i] as int <= 57);
        }
    }
    if is_number(s) {
        assert forall|i: int| 0 <= i < s.len() implies 48 <= (#[trigger] s[i]) as int <= 57 by {
            assert('0' <= s[i] <= '9');
        }
    }
}

/// A boot assessment counter is a number of tries, which may be followed by a
/// `-` and another number.
pub proof fn law_counters_are_numbers(tries: Seq<char>, done: Seq<char>, counter: Seq<char>)
    requires
        all_digits(tries),
        all_digits(done),
    ensures
        is_counter(tries),
        is_counter(tries.push('-') + done),
        is_counter(counter) && !all_digits(counter) ==> exists|k: int|
            0 < k < counter.len() - 1 && #[trigger] counter[k] == '-' && all_digits(counter.take(k))
                && all_digits(counter.skip(k + 1)),
{
    lemma_digits(tries);
    lemma_digits(done);
    lemma_digits(counter);
    let both = tries.push('-') + done;
    let n = tries.len() as int;
    assert(both.take(n) =~= tries);
    assert(both.skip(n + 1) =~= done);
    assert(splits_counter(both, n));
    if is_counter(counter) && !all_digits(counter) {
        let k = choose|k: int| #[trigger] splits_counter(counter, k);
        lemma_digits(counter.take(k));
        lemma_digits(counter.skip(k + 1));
        assert(counter[k] == '-');
    }
}

/// A name whose part behind the last `+` is no counter keeps that part, and so
/// does a name without a `+`.
pub proof fn law_names_without_a_counter_are_kept(stem: Seq<char>, tail: Seq<char>)
    requires
        forall|i: int| 0 <= i < tail.len() ==> #[trigger] tail[i] != '+',
        !all_digits(tail),
        forall|k: int|
            0 <= k < tail.len() ==> !(#[trigger] tail[k] == '-' && all_digits(tail.take(k))
                && all_digits(tail.skip(k + 1))),
    ensures
        without_counter(stem.push('+') + tail) == stem.push('+') + tail,
        without_counter(tail) == tail,
{
    let name = stem.push('+') + tail;
    lemma_digits(tail);
    assert forall|k: int| !#[trigger] splits_counter(tail, k) by {
        if 0 <= k < tail.len() {
            assert(tail[k] == tail[k]);
            lemma_digits(tail.take(k));
            lemma_digits(tail.skip(k + 1));
        }
    }
    assert(!is_counter(tail));
    let n = stem.len() as int;
    assert forall|k: int| !counter_at(name, k) by {
        if counter_at(name, k) {
            let rest = name.skip(k + 1);
            if k > n {
                assert(name[k] == tail[k - n - 1]);
            } else if k == n {
                assert(rest =~= tail);
            } else {
                assert(rest[n - k - 1] == '+');
                crate::dropin_paths::lemma_counter_has_no_plus(rest, n - k - 1);
            }
        }
    }
    assert forall|k: int| !counter_at(tail, k) by {}
}

/// The drop-in directory of an image stands next to it and is named after it:
/// `.extra.d` is put behind the file name, and a boot assessment counter, if
/// there is one, is left out.
pub proof fn law_dropin_directory_stands_next_to_the_image(
    directory: Seq<char>,
    stem: Seq<char>,
)
    requires
        directory.len() == 0 || directory.last() == '\\',
        forall|i: int| 0 <= i < stem.len() ==> #[trigger] stem[i] != '\\' && stem[i] != '+',
    ensures
        dropin_directory(directory + (stem + ".efi"@)) == directory + stem + ".efi.extra.d"@,
        !ends_with(stem, ".efi"@) ==> dropin_directory(directory + stem) == directory + stem
            + ".extra.d"@,
{
    reveal_strlit(".efi");
    assert forall|k: int| !counter_at(stem, k) by {
        if 0 <= k < stem.len() {
            assert(stem[k] != '+');
        }
    }
    let filename = stem + ".efi"@;
    assert forall|i: int| 0 <= i < filename.len() implies #[trigger] filename[i] != '\\' by {
        if i < stem.len() {
            assert(filename[i] == stem[i]);
        }
    }
    crate::dropin_paths::lemma_last_separator(directory, filename);
    let path = directory + filename;
    assert(image_directory(path) =~= directory);
    assert(image_filename(path) =~= filename);
    assert(filename.skip(filename.len() - 4) =~= ".efi"@);
    assert(image_stem(filename) =~= stem);
    crate::dropin_paths::lemma_last_separator(directory, stem);
    assert(image_directory(directory + stem) =~= directory);
    assert(image_filename(directory + stem) =~= stem);
}

/// Command lines are put one behind the other with a space in between.
pub proof fn law_cmdlines_are_put_together(
    a: Seq<Seq<char>>,
    b: Seq<Seq<char>>,
    cmdline: Seq<char>,
)
    ensures
        joined_cmdlines(Seq::empty()) == Seq::<char>::empty(),
        joined_cmdlines(seq![cmdline]) == cmdline,
        a.len() > 0 && b.len() > 0 ==> joined_cmdlines(a + b) == joined_cmdlines(a) + seq![' ']
            + joined_cmdlines(b),
    decreases b.len(),
{
    if a.len() > 0 && b.len() > 0 {
        let all = a + b;
        assert(all.drop_last() =~= a + b.drop_last());
        assert(all.last() == b.last());
        if b.len() == 1 {
            assert(all.drop_last() =~= a);
            assert(joined_cmdlines(all) =~= joined_cmdlines(a) + seq![' '] + b[0]);
        } else {
            law_cmdlines_are_put_together(a, b.drop_last(), cmdline);
            assert(joined_cmdlines(all) =~= joined_cmdlines(a) + seq![' '] + joined_cmdlines(b));
        }
    }
}

/// Credentials come before system extensions, and these before configuration
/// extensions. None of them is lost where another kind could not be collected.
pub proof fn law_companions_of_all_kinds_are_merged(
    credentials: Seq<CompanionModel>,
    sysexts: Seq<CompanionModel>,
    confexts: Seq<CompanionModel>,
)
    ensures
        merged_companions(Some(credentials), Some(sysexts), Some(confexts)) == credentials + sysexts
            + confexts,
        merged_companions(None, Some(sysexts), Some(confexts)) == sysexts + confexts,
        merged_companions(Some(credentials), None, Some(confexts)) == credentials + confexts,
        merged_companions(Some(credentials), Some(sysexts), None) == credentials + sysexts,
        merged_companions(None, None, Some(confexts)) == confexts,
        merged_companions(None, Some(sysexts), None) == sysexts,
        merged_companions(Some(credentials), None, None) == credentials,
        merged_companions(None, None, None) == Seq::<CompanionModel>::empty(),
{
    let none = Seq::<CompanionModel>::empty();
    assert(none + sysexts + confexts =~= sysexts + confexts);
    assert(credentials + none + confexts =~= credentials + confexts);
    assert(credentials + sysexts + none =~= credentials + sysexts);
    assert(none + none + confexts =~= confexts);
    assert(none + sysexts + none =~= sysexts);
    assert(credentials + none + none =~= credentials);
    assert(none + none + none =~= none);
}

/// A section is handed to the initrd with all its bytes, as a file that
/// everybody can read.
pub proof fn law_sections_are_handed_on_whole(
    pe: PeModel,
    section: Seq<char>,
    name: Seq<char>,
)
    ensures
        section_file(pe, section, name) is Some <==> pe.contents(section) is Some,
        section_file(pe, section, name) is Some ==> ({
            let file = section_file(pe, section, name)->0;
            &&& file.contents == pe.contents(section)->0
            &&& file.name == name
            &&& file.target == ".extra"@
            &&& file.directory_mode == 0o555
            &&& file.file_mode == 0o444
        }),
{
}

} // verus!

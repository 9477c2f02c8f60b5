//! What holds of every SMBIOS structure table.

use crate::cmdline::{is_blank, law_mangled_is_clean};
use crate::smbios::{
    cmdline_extra, double_nul_before, double_nul_ends, end_of_structure, first_after_prefix,
    first_nul, oem_strings, string_set, SMBIOS_HEADER_SIZE, SMBIOS_TYPE_END_OF_TABLE,
    SMBIOS_TYPE_OEM_STRINGS,
};
use vstd::prelude::*;

verus! {

/// Whether a byte string can stand in a string set: not empty, without NUL.
pub open spec fn is_string(bytes: Seq<u8>) -> bool {
    bytes.len() > 0 && forall|i: int| 0 <= i < bytes.len() ==> #[trigger] bytes[i] != 0
}

/// Strings one after the other, each with a NUL at its end.
pub open spec fn terminated(strings: Seq<Seq<u8>>) -> Seq<u8>
    decreases strings.len(),
{
    if strings.len() == 0 {
        Seq::empty()
    } else {
        strings[0].push(0) + terminated(strings.drop_first())
    }
}

/// A structure that carries OEM strings, with the given handle and number of
/// strings in its formatted area.
pub open spec fn oem_structure(strings: Seq<Seq<u8>>, handle: (u8, u8), count: u8) -> Seq<u8> {
    seq![SMBIOS_TYPE_OEM_STRINGS, 5u8, handle.0, handle.1, count] + terminated(strings).push(0)
}

/// The first NUL is the one behind a string.
pub proof fn lemma_first_nul(string: Seq<u8>, rest: Seq<u8>)
    requires
        forall|i: int| 0 <= i < string.len() ==> #[trigger] string[i] != 0,
    ensures
        first_nul(string.push(0) + rest) == Some(string.len() as int),
    decreases string.len(),
{
    let all = string.push(0) + rest;
    if string.len() > 0 {
        assert(all.drop_first() == string.drop_first().push(0) + rest);
        lemma_first_nul(string.drop_first(), rest);
    }
}

/// Terminated strings are read back up to the empty one behind them.
pub proof fn lemma_string_set(strings: Seq<Seq<u8>>, rest: Seq<u8>)
    requires
        forall|i: int| 0 <= i < strings.len() ==> is_string(#[trigger] strings[i]),
    ensures
        string_set(terminated(strings).push(0) + rest) == strings,
    decreases strings.len(),
{
    let bytes = terminated(strings).push(0) + rest;
    if strings.len() == 0 {
        assert(bytes[0] == 0);
    } else {
        let first = strings[0];
        let others = strings.drop_first();
        assert(bytes == first.push(0) + (terminated(others).push(0) + rest));
        lemma_first_nul(first, terminated(others).push(0) + rest);
        lemma_string_set(others, rest);
        assert(bytes.take(first.len() as int) == first);
        assert(bytes.skip(first.len() as int + 1) == terminated(others).push(0) + rest);
        assert(strings == seq![first] + others);
    }
}

/// Terminated strings start with no NUL, end with one, and hold no two of them
/// next to each other.
pub proof fn lemma_no_adjacent_nuls(strings: Seq<Seq<u8>>)
    requires
        forall|i: int| 0 <= i < strings.len() ==> is_string(#[trigger] strings[i]),
    ensures
        strings.len() > 0 ==> terminated(strings).len() > 0 && terminated(strings)[0] != 0
            && terminated(strings).last() == 0,
        forall|i: int|
            0 < i < terminated(strings).len() ==> #[trigger] terminated(strings)[i] != 0
                || terminated(strings)[i - 1] != 0,
    decreases strings.len(),
{
    if strings.len() > 0 {
        let first = strings[0];
        let others = strings.drop_first();
        lemma_no_adjacent_nuls(others);
        let all = terminated(strings);
        let tail = terminated(others);
        assert forall|i: int| 0 < i < all.len() implies #[trigger] all[i] != 0 || all[i - 1]
            != 0 by {
            if i < first.len() {
                assert(all[i] == first[i]);
            } else if i == first.len() {
                assert(all[i - 1] == first[i - 1]);
            } else if i == first.len() + 1 {
                assert(all[i] == tail[0]);
            } else {
                assert(all[i] == tail[i - first.len() - 1]);
                assert(all[i - 1] == tail[i - first.len() - 2]);
            }
        }
    }
}

/// The OEM strings that are written into a structure are read back, followed
/// by those of the rest of the table.
pub proof fn law_oem_strings_are_read_back(
    strings: Seq<Seq<u8>>,
    handle: (u8, u8),
    count: u8,
    rest: Seq<u8>,
)
    requires
        strings.len() > 0,
        forall|i: int| 0 <= i < strings.len() ==> is_string(#[trigger] strings[i]),
    ensures
        oem_strings(oem_structure(strings, handle, count) + rest) == strings + oem_strings(rest),
{
    let structure = oem_structure(strings, handle, count);
    let body = terminated(strings);
    let table = structure + rest;
    let end = structure.len() as int;
    assert(table.skip(5) == body.push(0) + rest);
    lemma_string_set(strings, rest);
    lemma_no_adjacent_nuls(strings);
    assert(double_nul_before(table, 5, end)) by {
        assert(table[end - 1] == 0);
        assert(table[end - 2] == body.last());
    }
    assert forall|e: int| e < end implies !#[trigger] double_nul_before(table, 5, e) by {
        if double_nul_before(table, 5, e) {
            assert(table[e - 1] == body[e - 6]);
            assert(table[e - 2] == body[e - 7]);
        }
    }
    assert(double_nul_ends(table, 5, end));
    assert(table[1] == 5);
    let chosen = choose|e: int| double_nul_ends(table, table[1] as int, e);
    if chosen < end {
        assert(double_nul_before(table, 5, chosen));
    } else if end < chosen {
        assert(double_nul_before(table, 5, end));
    }
    assert(end_of_structure(table) == Some(end));
    assert(table.skip(end) == rest);
}

/// Nothing behind the structure that ends the table is looked at.
pub proof fn law_nothing_follows_the_end_of_the_table(
    strings: Seq<Seq<u8>>,
    handle: (u8, u8),
    count: u8,
    rest: Seq<u8>,
)
    requires
        strings.len() > 0,
        forall|i: int| 0 <= i < strings.len() ==> is_string(#[trigger] strings[i]),
        rest.len() > 0,
        rest[0] == SMBIOS_TYPE_END_OF_TABLE,
    ensures
        oem_strings(oem_structure(strings, handle, count) + rest) == strings,
{
    law_oem_strings_are_read_back(strings, handle, count, rest);
    assert(strings + oem_strings(rest) == strings);
}

/// A structure that is too short for its own header ends the search: it
/// carries no OEM strings, and nothing behind it is looked at.
pub proof fn law_malformed_structures_end_the_search(table: Seq<u8>)
    requires
        table.len() >= SMBIOS_HEADER_SIZE,
        table[1] < SMBIOS_HEADER_SIZE,
    ensures
        end_of_structure(table) is None,
        oem_strings(table) == Seq::<Seq<u8>>::empty(),
{
}

/// Extra command line arguments are not empty, hold no control character, and
/// have no blank at either end.
pub proof fn law_extra_arguments_are_clean(strings: Seq<Seq<u8>>)
    ensures
        cmdline_extra(strings) matches Some(cmdline) ==> {
            &&& cmdline.len() > 0
            &&& !is_blank(cmdline[0])
            &&& !is_blank(cmdline.last())
            &&& forall|i: int|
                0 <= i < cmdline.len() ==> (is_blank(#[trigger] cmdline[i]) ==> cmdline[i] == ' ')
        },
{
    if let Some(value) = first_after_prefix(strings, "io.systemd.stub.kernel-cmdline-extra="@) {
        law_mangled_is_clean(value);
    }
}

} // verus!

//! Minimal SMBIOS support: reading the entry points of the structure table
//! and its Type 11 (OEM strings) entries.

use crate::bytes::{le_value, read_le};
use crate::cmdline::{mangle_stub_cmdline, mangled};
use crate::text::{chars_of, decode_text, string_of, utf8_text};
use vstd::prelude::*;
use vstd::slice::slice_subrange;

verus! {

/// Size of the header common to all SMBIOS structures: type, length and
/// handle.
pub const SMBIOS_HEADER_SIZE: usize = 4;

/// SMBIOS structure type carrying free-form OEM strings.
pub const SMBIOS_TYPE_OEM_STRINGS: u8 = 11;

/// SMBIOS structure type marking the end of the structure table.
pub const SMBIOS_TYPE_END_OF_TABLE: u8 = 127;

/// Size of the SMBIOS 3 (64-bit) entry point structure.
pub const SMBIOS3_ENTRY_POINT_SIZE: usize = 24;

/// Size of the legacy SMBIOS (32-bit) entry point structure.
pub const SMBIOS_ENTRY_POINT_SIZE: usize = 31;

/// Whether the first two adjacent NUL bytes from `from` on end just before
/// position `end`.
pub open spec fn double_nul_ends(table: Seq<u8>, from: int, end: int) -> bool {
    &&& double_nul_before(table, from, end)
    &&& forall|e: int| e < end ==> !#[trigger] double_nul_before(table, from, e)
}

/// Whether there are two NUL bytes just before position `end`, neither of them
/// before `from`.
pub open spec fn double_nul_before(table: Seq<u8>, from: int, end: int) -> bool {
    from + 2 <= end <= table.len() && table[end - 2] == 0 && table[end - 1] == 0
}

/// The offset just past the structure at the start of `table`: past its
/// formatted area and past the double NUL that ends its strings. Nothing if
/// the structure is malformed, which it is if its formatted area does not even
/// hold the header, or runs past the end of the table.
pub open spec fn end_of_structure(table: Seq<u8>) -> Option<int> {
    if table.len() < SMBIOS_HEADER_SIZE || table[1] < SMBIOS_HEADER_SIZE || table.len()
        < table[1] {
        None
    } else if exists|end: int| double_nul_ends(table, table[1] as int, end) {
        Some(choose|end: int| double_nul_ends(table, table[1] as int, end))
    } else {
        None
    }
}

/// The position of the first NUL byte, if there is one.
pub open spec fn first_nul(bytes: Seq<u8>) -> Option<int>
    decreases bytes.len(),
{
    if bytes.len() == 0 {
        None
    } else if bytes[0] == 0 {
        Some(0int)
    } else {
        match first_nul(bytes.drop_first()) {
            Some(i) => Some(i + 1),
            None => None,
        }
    }
}

/// The NUL-terminated strings at the start of `bytes`, up to an empty one.
pub open spec fn string_set(bytes: Seq<u8>) -> Seq<Seq<u8>>
    decreases bytes.len(),
{
    match first_nul(bytes) {
        Some(end) => if 0 < end < bytes.len() {
            seq![bytes.take(end)] + string_set(bytes.skip(end + 1))
        } else {
            Seq::empty()
        },
        None => Seq::empty(),
    }
}

/// All OEM strings of a structure table, in order.
pub open spec fn oem_strings(table: Seq<u8>) -> Seq<Seq<u8>>
    decreases table.len(),
{
    if table.len() < SMBIOS_HEADER_SIZE || table[0] == SMBIOS_TYPE_END_OF_TABLE || table.len()
        < table[1] {
        Seq::empty()
    } else {
        let own = if table[0] == SMBIOS_TYPE_OEM_STRINGS && table[1] >= SMBIOS_HEADER_SIZE + 1 {
            string_set(table.skip(table[1] as int))
        } else {
            Seq::empty()
        };
        match end_of_structure(table) {
            Some(end) => if 0 < end <= table.len() {
                own + oem_strings(table.skip(end))
            } else {
                own
            },
            None => own,
        }
    }
}

/// What follows `prefix` in a UTF-8 string, if the string starts with it.
pub open spec fn after_prefix(string: Seq<u8>, prefix: Seq<char>) -> Option<Seq<char>> {
    match utf8_text(string) {
        Some(text) => if prefix.is_prefix_of(text) {
            Some(text.skip(prefix.len() as int))
        } else {
            None
        },
        None => None,
    }
}

/// What follows `prefix` in the first string that starts with it.
pub open spec fn first_after_prefix(strings: Seq<Seq<u8>>, prefix: Seq<char>) -> Option<Seq<char>>
    decreases strings.len(),
{
    if strings.len() == 0 {
        None
    } else {
        match after_prefix(strings[0], prefix) {
            Some(rest) => Some(rest),
            None => first_after_prefix(strings.drop_first(), prefix),
        }
    }
}

proof fn lemma_first_after_prefix_concat(
    a: Seq<Seq<u8>>,
    b: Seq<Seq<u8>>,
    prefix: Seq<char>,
)
    ensures
        first_after_prefix(a + b, prefix) == (match first_after_prefix(a, prefix) {
            Some(rest) => Some(rest),
            None => first_after_prefix(b, prefix),
        }),
    decreases a.len(),
{
    if a.len() == 0 {
        assert(a + b == b);
    } else {
        assert((a + b).drop_first() == a.drop_first() + b);
        lemma_first_after_prefix_concat(a.drop_first(), b, prefix);
    }
}

proof fn lemma_double_nul_unique(table: Seq<u8>, from: int, a: int, b: int)
    requires
        double_nul_ends(table, from, a),
        double_nul_ends(table, from, b),
    ensures
        a == b,
{
    if a < b {
        assert(double_nul_before(table, from, a));
    } else if b < a {
        assert(double_nul_before(table, from, b));
    }
}

/// Find the first NUL byte.
fn find_nul(bytes: &[u8], from: usize) -> (found: Option<usize>)
    requires
        from <= bytes@.len(),
    ensures
        match found {
            Some(i) => from <= i < bytes@.len() && bytes@[i as int] == 0 && first_nul(
                bytes@.skip(from as int),
            ) == Some(i - from) && forall|k: int| from <= k < i ==> #[trigger] bytes@[k] != 0,
            None => first_nul(bytes@.skip(from as int)) is None && forall|k: int|
                from <= k < bytes@.len() ==> #[trigger] bytes@[k] != 0,
        },
{
    let mut i: usize = from;
    while i < bytes.len() && bytes[i] != 0
        invariant
            from <= i <= bytes@.len(),
            forall|k: int| from <= k < i ==> #[trigger] bytes@[k] != 0,
            first_nul(bytes@.skip(from as int)) == (match first_nul(bytes@.skip(i as int)) {
                Some(k) => Some(k + (i - from)),
                None => None,
            }),
        decreases bytes@.len() - i,
    {
        assert(bytes@.skip(i as int).drop_first() == bytes@.skip(i + 1));
        i = i + 1;
    }
    if i < bytes.len() {
        Some(i)
    } else {
        None
    }
}

/// The offset just past the structure at the start of `table`.
fn structure_end(table: &[u8]) -> (end: Option<usize>)
    ensures
        match end {
            Some(end) => end_of_structure(table@) == Some(end as int) && SMBIOS_HEADER_SIZE + 2
                <= end <= table@.len(),
            None => end_of_structure(table@) is None,
        },
{
    if table.len() < SMBIOS_HEADER_SIZE {
        return None;
    }
    let from: usize = table[1] as usize;
    if from < SMBIOS_HEADER_SIZE || table.len() < from {
        return None;
    }
    let mut at: usize = from;
    loop
        invariant
            table@.len() >= SMBIOS_HEADER_SIZE,
            from == table@[1],
            from >= SMBIOS_HEADER_SIZE,
            from <= at <= table@.len(),
            at > from ==> table@[at - 1] == 0,
            forall|e: int| e <= at ==> !#[trigger] double_nul_before(table@, from as int, e),
        decreases table@.len() - at,
    {
        let nul: usize = match find_nul(table, at) {
            Some(nul) => nul,
            None => {
                assert forall|e: int| !double_nul_before(table@, from as int, e) by {
                    if e > at + 1 && double_nul_before(table@, from as int, e) {
                        assert(table@[e - 2] == 0);
                    }
                    if e == at + 1 && double_nul_before(table@, from as int, e) {
                        assert(table@[at as int] == 0);
                    }
                }
                return None;
            },
        };
        assert(nul < table.len());
        if at > from && nul == at {
            let ghost end = at + 1;
            assert(double_nul_before(table@, from as int, end));
            assert(double_nul_ends(table@, from as int, end));
            proof {
                lemma_double_nul_unique(
                    table@,
                    from as int,
                    end,
                    choose|e: int| double_nul_ends(table@, from as int, e),
                );
            }
            return Some(at + 1);
        }
        assert forall|e: int| e <= nul + 1 implies !#[trigger] double_nul_before(
            table@,
            from as int,
            e,
        ) by {
            if e > at && double_nul_before(table@, from as int, e) {
                assert(table@[e - 2] == 0 && table@[e - 1] == 0);
                if e - 2 >= at {
                    assert(table@[e - 2] != 0);
                }
            }
        }
        at = nul + 1;
    }
}

/// The text after `prefix`, if `bytes` are UTF-8 text that starts with it.
fn strip_prefix(bytes: &[u8], prefix: &str) -> (rest: Option<String>)
    ensures
        match rest {
            Some(rest) => after_prefix(bytes@, prefix@) == Some(rest@),
            None => after_prefix(bytes@, prefix@) is None,
        },
{
    let text = match decode_text(bytes) {
        Some(text) => text,
        None => {
            return None;
        },
    };
    let chars = chars_of(text.as_str());
    let start = chars_of(prefix);
    if chars.len() < start.len() {
        return None;
    }
    for i in 0..start.len()
        invariant
            chars@.len() >= start@.len(),
            start@ == prefix@,
            chars@ == text@,
            utf8_text(bytes@) == Some(text@),
            forall|j: int| 0 <= j < i ==> chars@[j] == start@[j],
    {
        if chars[i] != start[i] {
            assert(!prefix@.is_prefix_of(text@));
            return None;
        }
    }
    assert(prefix@.is_prefix_of(text@));
    let rest = slice_subrange(&chars, start.len(), chars.len());
    assert(rest@ == text@.skip(prefix@.len() as int));
    Some(string_of(rest))
}

/// The remainder of the first string of a string set that starts with
/// `prefix`.
fn find_prefixed_string(strings: &[u8], prefix: &str) -> (rest: Option<String>)
    ensures
        match rest {
            Some(rest) => first_after_prefix(string_set(strings@), prefix@) == Some(rest@),
            None => first_after_prefix(string_set(strings@), prefix@) is None,
        },
{
    let mut at: usize = 0;
    assert(strings@.skip(0) == strings@);
    loop
        invariant
            at <= strings@.len(),
            first_after_prefix(string_set(strings@), prefix@) == first_after_prefix(
                string_set(strings@.skip(at as int)),
                prefix@,
            ),
        decreases strings@.len() - at,
    {
        let ghost left = strings@.skip(at as int);
        let nul: usize = match find_nul(strings, at) {
            Some(nul) => nul,
            None => {
                return None;
            },
        };
        assert(nul < strings.len());
        if nul == at {
            return None;
        }
        let string = slice_subrange(strings, at, nul);
        proof {
            assert(string@ == left.take(nul - at));
            assert(left.skip(nul - at + 1) == strings@.skip(nul + 1));
            let set = string_set(left);
            assert(set[0] == string@);
            assert(set.drop_first() =~= string_set(strings@.skip(nul + 1)));
        }
        if let Some(rest) = strip_prefix(string, prefix) {
            return Some(rest);
        }
        at = nul + 1;
    }
}

/// Find the first OEM string (SMBIOS Type 11) of a structure table that begins
/// with `prefix` and return the remainder of that string.
pub fn find_oem_string(table: &[u8], prefix: &str) -> (rest: Option<String>)
    ensures
        match rest {
            Some(rest) => first_after_prefix(oem_strings(table@), prefix@) == Some(rest@),
            None => first_after_prefix(oem_strings(table@), prefix@) is None,
        },
{
    let mut at: usize = 0;
    assert(table@.skip(0) == table@);
    loop
        invariant
            at <= table@.len(),
            first_after_prefix(oem_strings(table@), prefix@) == first_after_prefix(
                oem_strings(table@.skip(at as int)),
                prefix@,
            ),
        decreases table@.len() - at,
    {
        let left = slice_subrange(table, at, table.len());
        assert(left@ == table@.skip(at as int));
        if left.len() < SMBIOS_HEADER_SIZE {
            return None;
        }
        let structure_type: u8 = left[0];
        let formatted_length: usize = left[1] as usize;
        if structure_type == SMBIOS_TYPE_END_OF_TABLE || left.len() < formatted_length {
            return None;
        }
        let ghost own: Seq<Seq<u8>> = if structure_type == SMBIOS_TYPE_OEM_STRINGS
            && formatted_length >= SMBIOS_HEADER_SIZE + 1 {
            string_set(left@.skip(formatted_length as int))
        } else {
            Seq::empty()
        };
        if structure_type == SMBIOS_TYPE_OEM_STRINGS && formatted_length >= SMBIOS_HEADER_SIZE + 1 {
            let strings = slice_subrange(left, formatted_length, left.len());
            assert(strings@ == left@.skip(formatted_length as int));
            if let Some(rest) = find_prefixed_string(strings, prefix) {
                proof {
                    if let Some(end) = end_of_structure(left@) {
                        lemma_first_after_prefix_concat(
                            own,
                            oem_strings(left@.skip(end)),
                            prefix@,
                        );
                    }
                }
                return Some(rest);
            }
        }
        assert(first_after_prefix(own, prefix@) is None);
        match structure_end(left) {
            Some(end) => {
                proof {
                    lemma_first_after_prefix_concat(
                        own,
                        oem_strings(left@.skip(end as int)),
                        prefix@,
                    );
                    assert(left@.skip(end as int) == table@.skip(at + end));
                }
                at = at + end;
            },
            None => {
                return None;
            },
        }
    }
}

/// Extra kernel command line arguments among OEM strings, in normal form.
pub open spec fn cmdline_extra(strings: Seq<Seq<u8>>) -> Option<Seq<char>> {
    match first_after_prefix(strings, "io.systemd.stub.kernel-cmdline-extra="@) {
        Some(value) => if mangled(value).len() == 0 {
            None
        } else {
            Some(mangled(value))
        },
        None => None,
    }
}

/// Extra kernel command line arguments passed in through the OEM strings of a
/// structure table, already in normal form.
///
/// OEM strings are controlled by the host, so callers must not trust them
/// inside a confidential VM.
pub fn kernel_cmdline_extra(table: &[u8]) -> (cmdline: Option<String>)
    ensures
        match cmdline {
            Some(cmdline) => cmdline_extra(oem_strings(table@)) == Some(cmdline@),
            None => cmdline_extra(oem_strings(table@)) is None,
        },
{
    match find_oem_string(table, "io.systemd.stub.kernel-cmdline-extra=") {
        Some(value) => {
            let cmdline = mangle_stub_cmdline(value.as_str());
            if cmdline.as_str().unicode_len() == 0 {
                None
            } else {
                Some(cmdline)
            }
        },
        None => None,
    }
}

/// What an SMBIOS 3 entry point says: the address and the maximum size of the
/// structure table.
pub open spec fn smbios3_table(entry_point: Seq<u8>) -> Option<(nat, nat)> {
    if entry_point.take(5) == seq![0x5fu8, 0x53, 0x4d, 0x33, 0x5f] && entry_point[6]
        <= SMBIOS3_ENTRY_POINT_SIZE {
        Some(
            (le_value(entry_point.subrange(16, 24)), le_value(entry_point.subrange(12, 16))),
        )
    } else {
        None
    }
}

/// What a legacy SMBIOS entry point says: the address and the size of the
/// structure table.
pub open spec fn smbios_table(entry_point: Seq<u8>) -> Option<(nat, nat)> {
    if entry_point.take(4) == seq![0x5fu8, 0x53, 0x4d, 0x5f] && entry_point[5]
        <= SMBIOS_ENTRY_POINT_SIZE {
        Some(
            (le_value(entry_point.subrange(24, 28)), le_value(entry_point.subrange(22, 24))),
        )
    } else {
        None
    }
}

/// The address and the size of a structure table as numbers.
pub open spec fn table_numbers(table: Option<(u64, usize)>) -> Option<(nat, nat)> {
    match table {
        Some((address, size)) => Some((address as nat, size as nat)),
        None => None,
    }
}

/// Parse an SMBIOS 3 (64-bit) entry point, which starts with `_SM3_`.
pub fn parse_smbios3_entry_point(entry_point: &[u8; SMBIOS3_ENTRY_POINT_SIZE]) -> (table: Option<
    (u64, usize),
>)
    ensures
        table_numbers(table) == smbios3_table(entry_point@),
{
    let ep: &[u8] = entry_point;
    let anchor_matches = ep[0] == 0x5f && ep[1] == 0x53 && ep[2] == 0x4d && ep[3] == 0x33 && ep[4]
        == 0x5f;
    proof {
        let anchor = seq![0x5fu8, 0x53, 0x4d, 0x33, 0x5f];
        let start = ep@.take(5);
        assert(start[0] == ep@[0] && start[1] == ep@[1] && start[2] == ep@[2] && start[3] == ep@[3]
            && start[4] == ep@[4]);
        if anchor_matches {
            assert(start =~= anchor);
        }
    }
    if !anchor_matches || ep[6] as usize > SMBIOS3_ENTRY_POINT_SIZE {
        return None;
    }
    let size: u64 = read_le(slice_subrange(ep, 12, 16));
    let address: u64 = read_le(slice_subrange(ep, 16, 24));
    Some((address, size as usize))
}

/// Parse a legacy SMBIOS (32-bit) entry point, which starts with `_SM_`.
pub fn parse_smbios_entry_point(entry_point: &[u8; SMBIOS_ENTRY_POINT_SIZE]) -> (table: Option<
    (u64, usize),
>)
    ensures
        table_numbers(table) == smbios_table(entry_point@),
{
    let ep: &[u8] = entry_point;
    let anchor_matches = ep[0] == 0x5f && ep[1] == 0x53 && ep[2] == 0x4d && ep[3] == 0x5f;
    proof {
        let anchor = seq![0x5fu8, 0x53, 0x4d, 0x5f];
        let start = ep@.take(4);
        assert(start[0] == ep@[0] && start[1] == ep@[1] && start[2] == ep@[2] && start[3]
            == ep@[3]);
        if anchor_matches {
            assert(start =~= anchor);
        }
    }
    if !anchor_matches || ep[5] as usize > SMBIOS_ENTRY_POINT_SIZE {
        return None;
    }
    let size: u64 = read_le(slice_subrange(ep, 22, 24));
    let address: u64 = read_le(slice_subrange(ep, 24, 28));
    Some((address, size as usize))
}

/// Where the structure table is, preferring the SMBIOS 3 (64-bit) entry point
/// over the legacy one. A table without an address or without contents is
/// none.
pub open spec fn structure_table(
    smbios3: Option<Seq<u8>>,
    smbios: Option<Seq<u8>>,
) -> Option<(nat, nat)> {
    let preferred = match smbios3 {
        Some(entry_point) => smbios3_table(entry_point),
        None => None,
    };
    let legacy = match smbios {
        Some(entry_point) => smbios_table(entry_point),
        None => None,
    };
    match (preferred, legacy) {
        (Some(table), _) => if table.0 == 0 || table.1 == 0 {
            None
        } else {
            Some(table)
        },
        (None, Some(table)) => if table.0 == 0 || table.1 == 0 {
            None
        } else {
            Some(table)
        },
        (None, None) => None,
    }
}

/// Locate the structure table through the entry points that the firmware
/// provides.
pub fn find_structure_table(
    smbios3: Option<&[u8; SMBIOS3_ENTRY_POINT_SIZE]>,
    smbios: Option<&[u8; SMBIOS_ENTRY_POINT_SIZE]>,
) -> (table: Option<(u64, usize)>)
    ensures
        table_numbers(table) == structure_table(
            match smbios3 {
                Some(entry_point) => Some(entry_point@),
                None => None,
            },
            match smbios {
                Some(entry_point) => Some(entry_point@),
                None => None,
            },
        ),
{
    let preferred = match smbios3 {
        Some(entry_point) => parse_smbios3_entry_point(entry_point),
        None => None,
    };
    let table = match preferred {
        Some(table) => Some(table),
        None => match smbios {
            Some(entry_point) => parse_smbios_entry_point(entry_point),
            None => None,
        },
    };
    match table {
        Some((address, size)) => if address == 0 || size == 0 {
            None
        } else {
            Some((address, size))
        },
        None => None,
    }
}

} // verus!

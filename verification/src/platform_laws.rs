//! What is told from the tables and the registers of the machine.

use crate::bytes::{le_bytes, le_value};
use crate::cmdline::mangled;
use crate::smbios::{
    after_prefix, cmdline_extra, double_nul_before, double_nul_ends, end_of_structure,
    first_after_prefix, first_nul, oem_strings, smbios3_table, smbios_table, string_set,
    structure_table,
};
use crate::smbios_laws::{is_string, lemma_first_nul, terminated};
use crate::vmm::{
    law_verdict_is_that_of_the_processor, signature, signature_swapped, CpuModel, CpuProbe,
    CpuidResult, FactsModel,
};
use vstd::prelude::*;
use vstd::utf8::*;

verus! {

/// A structure of some type: its header with the length of its formatted area
/// and its handle, the rest of the formatted area, and its strings, each with
/// a NUL at its end, and another NUL behind them.
pub open spec fn structure(
    kind: u8,
    handle: (u8, u8),
    area: Seq<u8>,
    strings: Seq<Seq<u8>>,
) -> Seq<u8> {
    seq![kind, (4 + area.len()) as u8, handle.0, handle.1] + area + terminated(strings).push(0)
}

/// OEM strings are those of the structures of type 11; the strings of any
/// other structure are passed over, and the search goes on behind it. It ends
/// with a structure of type 127.
pub proof fn law_oem_strings_stand_in_structures_of_type_11(
    kind: u8,
    handle: (u8, u8),
    area: Seq<u8>,
    strings: Seq<Seq<u8>>,
    rest: Seq<u8>,
)
    requires
        area.len() <= 251,
        strings.len() > 0,
        forall|i: int| 0 <= i < strings.len() ==> is_string(#[trigger] strings[i]),
    ensures
        oem_strings(structure(kind, handle, area, strings) + rest) == if kind == 127 {
            Seq::<Seq<u8>>::empty()
        } else if kind == 11 && area.len() > 0 {
            strings + oem_strings(rest)
        } else {
            oem_strings(rest)
        },
{
    let own = structure(kind, handle, area, strings);
    let table = own + rest;
    let body = terminated(strings);
    let from = 4 + area.len() as int;
    let end = own.len() as int;
    crate::smbios_laws::lemma_no_adjacent_nuls(strings);
    crate::smbios_laws::lemma_string_set(strings, rest);
    assert(table.skip(from) =~= body.push(0) + rest);
    assert(table[1] == from);
    assert(double_nul_before(table, from, end)) by {
        assert(table[end - 1] == 0);
        assert(table[end - 2] == body.last());
    }
    assert forall|e: int| e < end implies !#[trigger] double_nul_before(table, from, e) by {
        if double_nul_before(table, from, e) {
            assert(table[e - 1] == body[e - 1 - from]);
            assert(table[e - 2] == body[e - 2 - from]);
        }
    }
    assert(double_nul_ends(table, from, end));
    let chosen = choose|e: int| double_nul_ends(table, table[1] as int, e);
    if chosen < end {
        assert(double_nul_before(table, from, chosen));
    } else if end < chosen {
        assert(double_nul_before(table, from, end));
    }
    assert(end_of_structure(table) == Some(end));
    assert(table.skip(end) =~= rest);
    assert(Seq::<Seq<u8>>::empty() + oem_strings(rest) =~= oem_strings(rest));
}

/// A structure without strings is followed by two NULs all the same.
pub proof fn law_structures_without_strings_are_passed_over(
    kind: u8,
    handle: (u8, u8),
    area: Seq<u8>,
    rest: Seq<u8>,
)
    requires
        area.len() <= 251,
        kind != 127,
    ensures
        oem_strings(
            seq![kind, (4 + area.len()) as u8, handle.0, handle.1] + area + seq![0u8, 0u8] + rest,
        ) == oem_strings(rest),
{
    let table = seq![kind, (4 + area.len()) as u8, handle.0, handle.1] + area + seq![0u8, 0u8]
        + rest;
    let from = 4 + area.len() as int;
    let end = from + 2;
    assert(table[1] == from);
    assert(double_nul_before(table, from, end));
    assert(double_nul_ends(table, from, end));
    let chosen = choose|e: int| double_nul_ends(table, table[1] as int, e);
    if chosen < end {
        assert(double_nul_before(table, from, chosen));
    } else if end < chosen {
        assert(double_nul_before(table, from, end));
    }
    assert(end_of_structure(table) == Some(end));
    assert(table.skip(end) =~= rest);
    let strings = table.skip(from);
    assert(strings[0] == 0);
    assert(string_set(strings) =~= Seq::<Seq<u8>>::empty());
    assert(Seq::<Seq<u8>>::empty() + oem_strings(rest) =~= oem_strings(rest));
}

proof fn lemma_no_nul(bytes: Seq<u8>)
    requires
        forall|i: int| 0 <= i < bytes.len() ==> #[trigger] bytes[i] != 0,
    ensures
        first_nul(bytes) is None,
    decreases bytes.len(),
{
    if bytes.len() > 0 {
        lemma_no_nul(bytes.drop_first());
    }
}

proof fn lemma_cut_off_strings(strings: Seq<Seq<u8>>, tail: Seq<u8>)
    requires
        forall|i: int| 0 <= i < strings.len() ==> is_string(#[trigger] strings[i]),
        forall|i: int| 0 <= i < tail.len() ==> #[trigger] tail[i] != 0,
    ensures
        string_set(terminated(strings) + tail) == strings,
    decreases strings.len(),
{
    let bytes = terminated(strings) + tail;
    if strings.len() == 0 {
        assert(bytes =~= tail);
        lemma_no_nul(tail);
        assert(string_set(bytes) =~= strings);
    } else {
        let first = strings[0];
        let others = strings.drop_first();
        assert(bytes =~= first.push(0) + (terminated(others) + tail));
        lemma_first_nul(first, terminated(others) + tail);
        lemma_cut_off_strings(others, tail);
        assert(bytes.take(first.len() as int) =~= first);
        assert(bytes.skip(first.len() as int + 1) =~= terminated(others) + tail);
        assert(strings =~= seq![first] + others);
    }
}

/// Where the table is cut off, the strings before are found, and the one that
/// is cut off is not. A header or a formatted area that is cut off ends the
/// search.
pub proof fn law_cut_off_tables_are_read_as_far_as_they_go(
    handle: (u8, u8),
    area: Seq<u8>,
    strings: Seq<Seq<u8>>,
    tail: Seq<u8>,
    table: Seq<u8>,
)
    requires
        0 < area.len() <= 251,
        forall|i: int| 0 <= i < strings.len() ==> is_string(#[trigger] strings[i]),
        forall|i: int| 0 <= i < tail.len() ==> #[trigger] tail[i] != 0,
    ensures
        oem_strings(
            seq![11u8, (4 + area.len()) as u8, handle.0, handle.1] + area + terminated(strings)
                + tail,
        ) == strings,
        table.len() < 4 || table[1] > table.len() ==> oem_strings(table) == Seq::<
            Seq<u8>,
        >::empty(),
{
    let whole = seq![11u8, (4 + area.len()) as u8, handle.0, handle.1] + area + terminated(strings)
        + tail;
    let from = 4 + area.len() as int;
    let body = terminated(strings);
    assert(whole[1] == from);
    assert(whole.skip(from) =~= body + tail);
    lemma_cut_off_strings(strings, tail);
    crate::smbios_laws::lemma_no_adjacent_nuls(strings);
    assert forall|e: int| !#[trigger] double_nul_before(whole, from, e) by {
        if double_nul_before(whole, from, e) {
            let at = e - 1 - from;
            if at < body.len() {
                assert(whole[e - 1] == body[at]);
                assert(whole[e - 2] == body[at - 1]);
            } else {
                assert(whole[e - 1] == tail[at - body.len()]);
            }
        }
    }
    assert forall|e: int| !double_nul_ends(whole, from, e) by {
        assert(!double_nul_before(whole, from, e));
    }
    assert(end_of_structure(whole) is None);
}

/// Extra arguments are taken from the first string that starts with
/// `io.systemd.stub.kernel-cmdline-extra=`, and are what follows it in normal
/// form. Only a blank value is none, and a later string does not replace it.
pub proof fn law_first_string_with_the_prefix_counts(
    strings: Seq<Seq<u8>>,
    value: Seq<char>,
    i: int,
)
    requires
        0 <= i < strings.len(),
        strings[i] == encode_utf8("io.systemd.stub.kernel-cmdline-extra="@ + value),
        forall|j: int|
            0 <= j < i ==> valid_utf8(#[trigger] strings[j])
                ==> !"io.systemd.stub.kernel-cmdline-extra="@.is_prefix_of(decode_utf8(strings[j])),
    ensures
        cmdline_extra(strings) == if mangled(value).len() > 0 {
            Some(mangled(value))
        } else {
            None
        },
        cmdline_extra(strings.take(i)) is None,
{
    let prefix = "io.systemd.stub.kernel-cmdline-extra="@;
    encode_utf8_valid_utf8(prefix + value);
    encode_utf8_decode_utf8(prefix + value);
    assert(prefix.is_prefix_of(prefix + value));
    assert((prefix + value).skip(prefix.len() as int) =~= value);
    assert(after_prefix(strings[i], prefix) == Some(value));
    assert forall|j: int| 0 <= j < i implies after_prefix(
        #[trigger] strings[j],
        prefix,
    ) is None by {}
    lemma_first_after_prefix(strings, prefix, i);
    let before = strings.take(i);
    assert forall|j: int| 0 <= j < i implies after_prefix(#[trigger] before[j], prefix) is None by {
        assert(before[j] == strings[j]);
    }
    lemma_first_after_prefix(before, prefix, i);
}

proof fn lemma_first_after_prefix(strings: Seq<Seq<u8>>, prefix: Seq<char>, i: int)
    requires
        0 <= i <= strings.len(),
        forall|j: int| 0 <= j < i ==> after_prefix(#[trigger] strings[j], prefix) is None,
        i < strings.len() ==> after_prefix(strings[i], prefix) is Some,
    ensures
        first_after_prefix(strings, prefix) == if i < strings.len() {
            after_prefix(strings[i], prefix)
        } else {
            None
        },
    decreases i,
{
    if i > 0 {
        let rest = strings.drop_first();
        assert(after_prefix(strings[0], prefix) is None);
        assert forall|j: int| 0 <= j < i - 1 implies after_prefix(
            #[trigger] rest[j],
            prefix,
        ) is None by {
            assert(rest[j] == strings[j + 1]);
        }
        lemma_first_after_prefix(rest, prefix, i - 1);
    }
}

/// An SMBIOS 3 entry point starts with `_SM3_` and is at most 24 bytes long.
/// The address of the table takes the last eight bytes, and its size the four
/// before them.
pub proof fn law_smbios3_entry_point(entry_point: Seq<u8>)
    requires
        entry_point.len() == 24,
    ensures
        ({
            let e = entry_point;
            let valid = e[0] == 0x5f && e[1] == 0x53 && e[2] == 0x4d && e[3] == 0x33 && e[4] == 0x5f
                && e[6] <= 24;
            let (address, size) = smbios3_table(e)->0;
            &&& smbios3_table(e) is Some <==> valid
            &&& valid ==> size == e[12] + 0x100 * e[13] + 0x1_0000 * e[14]
                + 0x100_0000 * e[15]
            &&& valid ==> address == e[16] + 0x100 * e[17] + 0x1_0000 * e[18]
                + 0x100_0000 * e[19] + 0x1_0000_0000 * e[20] + 0x100_0000_0000 * e[21]
                + 0x1_0000_0000_0000 * e[22] + 0x100_0000_0000_0000 * e[23]
        }),
{
    let e = entry_point;
    let anchor = seq![0x5fu8, 0x53, 0x4d, 0x33, 0x5f];
    let start = e.take(5);
    assert(start[0] == e[0] && start[1] == e[1] && start[2] == e[2] && start[3] == e[3] && start[4]
        == e[4]);
    if e[0] == 0x5f && e[1] == 0x53 && e[2] == 0x4d && e[3] == 0x33 && e[4] == 0x5f {
        assert(start =~= anchor);
    }
    lemma_value_4(e.subrange(12, 16));
    lemma_value_8(e.subrange(16, 24));
}

/// A legacy entry point starts with `_SM_` and is at most 31 bytes long. The
/// size of the table takes two bytes, and its address the four behind them.
pub proof fn law_smbios_entry_point(entry_point: Seq<u8>)
    requires
        entry_point.len() == 31,
    ensures
        ({
            let e = entry_point;
            let valid = e[0] == 0x5f && e[1] == 0x53 && e[2] == 0x4d && e[3] == 0x5f && e[5] <= 31;
            let (address, size) = smbios_table(e)->0;
            &&& smbios_table(e) is Some <==> valid
            &&& valid ==> size == e[22] + 0x100 * e[23]
            &&& valid ==> address == e[24] + 0x100 * e[25] + 0x1_0000 * e[26]
                + 0x100_0000 * e[27]
        }),
{
    let e = entry_point;
    let anchor = seq![0x5fu8, 0x53, 0x4d, 0x5f];
    let start = e.take(4);
    assert(start[0] == e[0] && start[1] == e[1] && start[2] == e[2] && start[3] == e[3]);
    if e[0] == 0x5f && e[1] == 0x53 && e[2] == 0x4d && e[3] == 0x5f {
        assert(start =~= anchor);
    }
    lemma_value_2(e.subrange(22, 24));
    lemma_value_4(e.subrange(24, 28));
}

proof fn lemma_value_2(bytes: Seq<u8>)
    requires
        bytes.len() == 2,
    ensures
        le_value(bytes) == bytes[0] + 0x100 * bytes[1],
{
    reveal_with_fuel(le_value, 3);
    assert(bytes.drop_first()[0] == bytes[1]);
}

proof fn lemma_value_4(bytes: Seq<u8>)
    requires
        bytes.len() == 4,
    ensures
        le_value(bytes) == bytes[0] + 0x100 * bytes[1] + 0x1_0000 * bytes[2] + 0x100_0000
            * bytes[3],
{
    let rest = bytes.drop_first();
    let two = rest.drop_first();
    lemma_value_2(two);
    assert(rest[0] == bytes[1] && two[0] == bytes[2] && two[1] == bytes[3]);
    assert(le_value(rest) == rest[0] + 0x100 * le_value(two));
}

proof fn lemma_value_8(bytes: Seq<u8>)
    requires
        bytes.len() == 8,
    ensures
        le_value(bytes) == bytes[0] + 0x100 * bytes[1] + 0x1_0000 * bytes[2] + 0x100_0000 * bytes[3]
            + 0x1_0000_0000 * bytes[4] + 0x100_0000_0000 * bytes[5] + 0x1_0000_0000_0000 * bytes[6]
            + 0x100_0000_0000_0000 * bytes[7],
{
    let b1 = bytes.drop_first();
    let b2 = b1.drop_first();
    let b3 = b2.drop_first();
    let b4 = b3.drop_first();
    lemma_value_4(b4);
    assert(b1[0] == bytes[1] && b2[0] == bytes[2] && b3[0] == bytes[3]);
    assert(b4[0] == bytes[4] && b4[1] == bytes[5] && b4[2] == bytes[6] && b4[3] == bytes[7]);
    assert(le_value(b3) == b3[0] + 0x100 * le_value(b4));
    assert(le_value(b2) == b2[0] + 0x100 * le_value(b3));
    assert(le_value(b1) == b1[0] + 0x100 * le_value(b2));
}

/// The table is that of the SMBIOS 3 entry point, if that one is valid, and
/// that of the legacy one otherwise. A table at address zero, or of size zero,
/// is none, and no other is looked for then.
pub proof fn law_smbios3_entry_point_is_preferred(
    smbios3: Seq<u8>,
    smbios: Seq<u8>,
    other: Option<Seq<u8>>,
)
    ensures
        ({
            let new = smbios3_table(smbios3);
            let legacy = smbios_table(smbios);
            let (address, size) = new->0;
            let (legacy_address, legacy_size) = legacy->0;
            &&& new is Some && address > 0 && size > 0 ==> structure_table(
                Some(smbios3),
                other,
            ) == new
            &&& new is Some && (address == 0 || size == 0) ==> structure_table(
                Some(smbios3),
                other,
            ) is None
            &&& new is None ==> structure_table(Some(smbios3), other) == structure_table(
                None,
                other,
            )
            &&& legacy is Some && legacy_address > 0 && legacy_size > 0 ==> structure_table(
                None,
                Some(smbios),
            ) == legacy
            &&& legacy is None || legacy_address == 0 || legacy_size == 0 ==> structure_table(
                None,
                Some(smbios),
            ) is None
            &&& structure_table(None, None) is None
        }),
{
}

/// The vendor string of a processor stands in EBX, EDX and ECX, that of a
/// hypervisor in EBX, ECX and EDX, and the characters of a register start with
/// its low byte.
pub proof fn law_vendor_strings_stand_in_registers(result: CpuidResult)
    ensures
        ({
            let r = result;
            let s = signature_swapped(r);
            &&& s.len() == 12
            &&& s[0] + 0x100 * s[1] + 0x1_0000 * s[2] + 0x100_0000 * s[3] == r.ebx
            &&& s[4] + 0x100 * s[5] + 0x1_0000 * s[6] + 0x100_0000 * s[7] == r.edx
            &&& s[8] + 0x100 * s[9] + 0x1_0000 * s[10] + 0x100_0000 * s[11] == r.ecx
        }),
        ({
            let r = result;
            let s = signature(r);
            &&& s.len() == 12
            &&& s[0] + 0x100 * s[1] + 0x1_0000 * s[2] + 0x100_0000 * s[3] == r.ebx
            &&& s[4] + 0x100 * s[5] + 0x1_0000 * s[6] + 0x100_0000 * s[7] == r.ecx
            &&& s[8] + 0x100 * s[9] + 0x1_0000 * s[10] + 0x100_0000 * s[11] == r.edx
        }),
{
    lemma_register(result.ebx);
    lemma_register(result.ecx);
    lemma_register(result.edx);
}

proof fn lemma_register(n: u32)
    ensures
        ({
            let bytes = le_bytes(n as nat, 4);
            &&& bytes.len() == 4
            &&& bytes[0] + 0x100 * bytes[1] + 0x1_0000 * bytes[2] + 0x100_0000 * bytes[3] == n
        }),
{
    crate::bytes::lemma_le_bytes_len(n as nat, 4);
    assert(n < crate::bytes::le_limit(4)) by {
        reveal_with_fuel(crate::bytes::le_limit, 5);
    }
    crate::bytes::lemma_le_round_trip(n as nat, 4);
    lemma_value_4(le_bytes(n as nat, 4));
}

/// Whether Hyper-V announces that it isolates the VM by some technology: by
/// its vendor string and its range of leaves, and by the bits of the leaves
/// for features and for isolation. The root partition is not isolated.
pub open spec fn isolated_by_hyperv(cpu: CpuModel, technology: u32) -> bool {
    let vendor = (cpu.cpuid)(0x4000_0000);
    let features = (cpu.cpuid)(0x4000_0003).ebx;
    &&& 0x4000_0005 <= vendor.eax <= 0x4000_ffff
    &&& signature(vendor) == encode_utf8("Microsoft Hv"@)
    &&& features & 0x40_0000 != 0
    &&& features & 0x1000 == 0
    &&& (cpu.cpuid)(0x4000_000c).ebx & 0xf == technology
}

/// A VM is confidential on an AMD processor whose status register names an
/// active form of SEV, or that does not advertise SEV to a guest that Hyper-V
/// isolates by it; and on an Intel processor that is a trust domain, or that
/// Hyper-V isolates as one. Nothing else is.
pub proof fn law_confidential_processors(cpu: CpuModel, facts: FactsModel, confidential: bool)
    requires
        facts.true_of(cpu),
        facts.confidential() == Ok::<bool, CpuProbe>(confidential),
    ensures
        confidential <==> {
            let vendor = signature_swapped((cpu.cpuid)(0));
            let highest = (cpu.cpuid)(0x8000_0000).eax;
            &&& (cpu.cpuid)(0).eax >= 1
            &&& (cpu.cpuid)(1).ecx & 0x8000_0000 != 0
            &&& {
                ||| {
                    &&& vendor == encode_utf8("AuthenticAMD"@)
                    &&& highest >= 0x8000_001f
                    &&& if (cpu.cpuid)(0x8000_001f).eax & 0x2 != 0 {
                        cpu.sev_status & 0x7 != 0
                    } else {
                        isolated_by_hyperv(cpu, 2)
                    }
                }
                ||| {
                    &&& vendor == encode_utf8("GenuineIntel"@)
                    &&& highest >= 0x21
                    &&& (signature_swapped((cpu.cpuid)(0x21)) == encode_utf8("IntelTDX    "@)
                        || isolated_by_hyperv(cpu, 3))
                }
            }
        },
{
    law_verdict_is_that_of_the_processor(facts, cpu, confidential);
}

/// A verdict is reached where everything is known that can be asked for.
pub proof fn law_complete_facts_give_a_verdict(facts: FactsModel)
    requires
        facts.sev_status is Some,
        forall|leaf: u32|
            leaf == 0 || leaf == 1 || leaf == 0x21 || leaf == 0x4000_0000 || leaf == 0x4000_0003
                || leaf == 0x4000_000c || leaf == 0x8000_0000 || leaf == 0x8000_001f
                ==> #[trigger] facts.leaves.contains_key(leaf),
    ensures
        facts.confidential() is Ok,
{
}

} // verus!

//! UCS-2 strings and the paths of the firmware's file system.

use uefi::data_types::FromStrError;
use uefi::CString16;
use vstd::prelude::*;
use vstd::relations::*;
use vstd::seq_lib::*;

verus! {

/// The path separator `\`.
pub const BACKSLASH: u16 = 0x5c;

/// The character `/`.
pub const SLASH: u16 = 0x2f;

/// The error of `CString16::try_from`.
#[verifier::external_type_specification]
#[verifier::external_body]
pub struct ExFromStrError(FromStrError);

/// Whether a character can stand in a NUL-terminated UCS-2 string.
pub open spec fn is_ucs2(c: char) -> bool {
    0 < c as u32 <= 0xffff
}

/// The UCS-2 units of a text, if it can be written as a NUL-terminated UCS-2
/// string.
pub open spec fn ucs2(text: Seq<char>) -> Option<Seq<u16>> {
    if forall|i: int| 0 <= i < text.len() ==> is_ucs2(#[trigger] text[i]) {
        Some(text.map_values(|c: char| c as u16))
    } else {
        None
    }
}

/// `CString16::try_from`: one unit for each character and a NUL at the end. It
/// fails exactly if the text holds a NUL or a character beyond the range of a
/// single unit.
#[verifier::external_body]
fn encode_terminated(text: &str) -> (units: Result<Vec<u16>, FromStrError>)
    ensures
        match units {
            Ok(units) => ucs2(text@) is Some && units@ == ucs2(text@)->0.push(0),
            Err(_) => ucs2(text@) is None,
        },
{
    Ok(CString16::try_from(text)?.to_u16_slice_with_nul().to_vec())
}

/// The NUL-terminated UCS-2 form of a text.
pub fn encode_with_nul(text: &str) -> (units: Option<Vec<u16>>)
    ensures
        match units {
            Some(units) => ucs2(text@) is Some && units@ == ucs2(text@)->0.push(0),
            None => ucs2(text@) is None,
        },
{
    match encode_terminated(text) {
        Ok(units) => Some(units),
        Err(_) => None,
    }
}

/// The UCS-2 form of a text.
pub fn encode(text: &str) -> (units: Option<Vec<u16>>)
    ensures
        match units {
            Some(units) => ucs2(text@) == Some(units@),
            None => ucs2(text@) is None,
        },
{
    match encode_with_nul(text) {
        Some(units) => {
            let mut units = units;
            units.pop();
            assert(units@ == ucs2(text@)->0);
            Some(units)
        },
        None => None,
    }
}

/// The bytes of UCS-2 units, least significant byte first.
pub open spec fn unit_bytes(units: Seq<u16>) -> Seq<u8> {
    Seq::new(
        2 * units.len(),
        |i: int|
            if i % 2 == 0 {
                (units[i / 2] % 256) as u8
            } else {
                (units[i / 2] / 256) as u8
            },
    )
}

/// The bytes of UCS-2 units, least significant byte first.
pub fn bytes_of_units(units: &[u16]) -> (bytes: Vec<u8>)
    ensures
        bytes@ == unit_bytes(units@),
{
    let mut bytes: Vec<u8> = Vec::new();
    for i in 0..units.len()
        invariant
            bytes@ == unit_bytes(units@.take(i as int)),
    {
        bytes.push((units[i] % 256) as u8);
        bytes.push((units[i] / 256) as u8);
        assert(bytes@ == unit_bytes(units@.take(i + 1)));
    }
    assert(units@.take(units.len() as int) == units@);
    bytes
}

/// Whether all units are ASCII characters.
pub open spec fn all_ascii(units: Seq<u16>) -> bool {
    forall|i: int| 0 <= i < units.len() ==> #[trigger] units[i] < 128
}

/// The characters that ASCII units stand for.
pub open spec fn ascii_text(units: Seq<u16>) -> Seq<char> {
    units.map_values(|unit: u16| unit as u8 as char)
}

/// The text of a string of ASCII units.
pub fn decode_ascii(units: &[u16]) -> (text: Option<String>)
    ensures
        match text {
            Some(text) => all_ascii(units@) && text@ == ascii_text(units@),
            None => !all_ascii(units@),
        },
{
    let mut text = String::new();
    for i in 0..units.len()
        invariant
            forall|j: int| 0 <= j < i ==> #[trigger] units@[j] < 128,
            text@ == ascii_text(units@.take(i as int)),
    {
        if units[i] >= 128 {
            return None;
        }
        text.push(units[i] as u8 as char);
        assert(text@ == ascii_text(units@.take(i + 1)));
    }
    assert(units@.take(units.len() as int) == units@);
    Some(text)
}

/// A path with `\` in place of every `/`.
pub open spec fn normalized(path: Seq<u16>) -> Seq<u16> {
    path.map_values(
        |unit: u16|
            if unit == SLASH {
                BACKSLASH
            } else {
                unit
            },
    )
}

/// Replace every `/` of a path by `\`.
pub fn normalize(path: &[u16]) -> (clean: Vec<u16>)
    ensures
        clean@ == normalized(path@),
{
    let mut clean: Vec<u16> = Vec::new();
    for i in 0..path.len()
        invariant
            clean@ == normalized(path@.take(i as int)),
    {
        if path[i] == SLASH {
            clean.push(BACKSLASH);
        } else {
            clean.push(path[i]);
        }
        assert(clean@ == normalized(path@.take(i + 1)));
    }
    assert(path@.take(path.len() as int) == path@);
    clean
}

/// The path of a file in a directory.
pub open spec fn path_in(directory: Seq<u16>, name: Seq<u16>) -> Seq<u16> {
    normalized(directory.push(BACKSLASH) + name)
}

/// The path of a file in a directory.
pub fn join_path(directory: &[u16], name: &[u16]) -> (path: Vec<u16>)
    ensures
        path@ == path_in(directory@, name@),
{
    let mut path: Vec<u16> = Vec::new();
    path.extend_from_slice(directory);
    assert(path@ == directory@);
    path.push(BACKSLASH);
    path.extend_from_slice(name);
    assert(path@ == directory@.push(BACKSLASH) + name@);
    normalize(&path)
}

/// Whether `a` does not come after `b` in the order of paths: unit by unit,
/// and a shorter path before its extensions.
pub open spec fn not_after(a: Seq<u16>, b: Seq<u16>) -> bool
    decreases a.len(),
{
    if a.len() == 0 {
        true
    } else if b.len() == 0 {
        false
    } else {
        a[0] < b[0] || (a[0] == b[0] && not_after(a.drop_first(), b.drop_first()))
    }
}

/// The order of paths.
pub open spec fn path_order() -> spec_fn(Seq<u16>, Seq<u16>) -> bool {
    |a: Seq<u16>, b: Seq<u16>| not_after(a, b)
}

proof fn lemma_not_after_total(a: Seq<u16>, b: Seq<u16>)
    ensures
        not_after(a, a),
        not_after(a, b) || not_after(b, a),
        not_after(a, b) && not_after(b, a) ==> a == b,
    decreases a.len(),
{
    if a.len() > 0 {
        lemma_not_after_total(a.drop_first(), a.drop_first());
        if b.len() > 0 {
            lemma_not_after_total(a.drop_first(), b.drop_first());
            if a[0] == b[0] && a.drop_first() == b.drop_first() {
                assert(a == seq![a[0]] + a.drop_first());
                assert(b == seq![b[0]] + b.drop_first());
            }
        }
    } else if b.len() == 0 {
        assert(a == b);
    }
}

proof fn lemma_not_after_transitive(a: Seq<u16>, b: Seq<u16>, c: Seq<u16>)
    requires
        not_after(a, b),
        not_after(b, c),
    ensures
        not_after(a, c),
    decreases a.len(),
{
    if a.len() > 0 && a[0] == b[0] && b[0] == c[0] {
        lemma_not_after_transitive(a.drop_first(), b.drop_first(), c.drop_first());
    }
}

/// The order of paths is total.
pub proof fn law_path_order_is_total()
    ensures
        total_ordering(path_order()),
{
    let leq = path_order();
    assert forall|a: Seq<u16>| #[trigger] leq(a, a) by {
        lemma_not_after_total(a, a);
    }
    assert forall|a: Seq<u16>, b: Seq<u16>| #[trigger] leq(a, b) && #[trigger] leq(b, a) implies a
        == b by {
        lemma_not_after_total(a, b);
    }
    assert forall|a: Seq<u16>, b: Seq<u16>, c: Seq<u16>| #[trigger]
        leq(a, b) && #[trigger] leq(b, c) implies leq(a, c) by {
        lemma_not_after_transitive(a, b, c);
    }
    assert forall|a: Seq<u16>, b: Seq<u16>| #[trigger] leq(a, b) || #[trigger] leq(b, a) by {
        lemma_not_after_total(a, b);
    }
}

/// Paths that are permutations of each other are the same once sorted.
pub proof fn law_sorting_forgets_the_order(a: Seq<Seq<u16>>, b: Seq<Seq<u16>>)
    requires
        a.to_multiset() == b.to_multiset(),
    ensures
        a.sort_by(path_order()) == b.sort_by(path_order()),
{
    law_path_order_is_total();
    a.lemma_sort_by_ensures(path_order());
    b.lemma_sort_by_ensures(path_order());
    lemma_sorted_unique(a.sort_by(path_order()), b.sort_by(path_order()), path_order());
}

fn comes_not_after(a: &[u16], b: &[u16]) -> (ordered: bool)
    ensures
        ordered == not_after(a@, b@),
{
    let mut i: usize = 0;
    assert(a@.skip(0) == a@ && b@.skip(0) == b@);
    while i < a.len() && i < b.len() && a[i] == b[i]
        invariant
            i <= a@.len(),
            i <= b@.len(),
            not_after(a@, b@) == not_after(a@.skip(i as int), b@.skip(i as int)),
        decreases a@.len() - i,
    {
        assert(a@.skip(i as int).drop_first() == a@.skip(i + 1));
        assert(b@.skip(i as int).drop_first() == b@.skip(i + 1));
        i = i + 1;
    }
    if i == a.len() {
        true
    } else if i == b.len() {
        false
    } else {
        a[i] < b[i]
    }
}

/// The units of each string.
pub open spec fn unit_views(strings: Seq<Vec<u16>>) -> Seq<Seq<u16>> {
    strings.map_values(|units: Vec<u16>| units@)
}

/// Sort paths.
pub fn sort_paths(paths: Vec<Vec<u16>>) -> (sorted: Vec<Vec<u16>>)
    ensures
        unit_views(sorted@) == unit_views(paths@).sort_by(path_order()),
        sorted@.len() == paths@.len(),
{
    let mut rest = paths;
    let mut sorted: Vec<Vec<u16>> = Vec::new();
    let ghost leq = path_order();
    let ghost all = unit_views(paths@);
    proof {
        broadcast use group_to_multiset_ensures;

        assert(unit_views(sorted@) == Seq::<Seq<u16>>::empty());
        assert(unit_views(rest@) == all);
        assert(Seq::<Seq<u16>>::empty().to_multiset().len() == 0);
        assert(unit_views(sorted@).to_multiset().add(unit_views(rest@).to_multiset())
            =~= all.to_multiset());
    }
    while rest.len() > 0
        invariant
            leq == path_order(),
            sorted_by(unit_views(sorted@), leq),
            unit_views(sorted@).to_multiset().add(unit_views(rest@).to_multiset())
                == all.to_multiset(),
        decreases rest@.len(),
    {
        let ghost left = unit_views(rest@);
        let ghost before = unit_views(sorted@);
        let path = rest.pop().unwrap();
        let mut at: usize = sorted.len();
        while at > 0 && !comes_not_after(&sorted[at - 1], &path)
            invariant
                leq == path_order(),
                before == unit_views(sorted@),
                at <= sorted@.len(),
                forall|k: int| at <= k < sorted@.len() ==> !leq(#[trigger] before[k], path@),
            decreases at,
        {
            assert(before[at - 1] == sorted@[at - 1]@);
            at = at - 1;
        }
        let ghost place = at as int;
        sorted.insert(at, path);
        proof {
            broadcast use group_to_multiset_ensures;

            law_path_order_is_total();
            let after = unit_views(sorted@);
            assert(after =~= before.insert(place, path@));
            if place > 0 {
                assert(leq(before[place - 1], path@));
            }
            assert forall|i: int, j: int| 0 <= i < j < after.len() implies #[trigger] leq(
                after[i],
                after[j],
            ) by {
                if i < place {
                    assert(after[i] == before[i]);
                    if j < place {
                        assert(leq(before[i], before[j]));
                    } else if j == place {
                        if i < place - 1 {
                            assert(leq(before[i], before[place - 1]));
                        }
                    } else {
                        assert(leq(before[i], before[j - 1]));
                    }
                } else if i == place {
                    assert(!leq(before[j - 1], path@));
                    assert(leq(path@, before[j - 1]));
                } else {
                    assert(leq(before[i - 1], before[j - 1]));
                }
            }
            assert(unit_views(rest@) =~= left.drop_last());
            assert(left =~= left.drop_last().push(path@));
            assert(after.to_multiset() =~= before.to_multiset().insert(path@));
            assert(left.to_multiset() =~= left.drop_last().to_multiset().insert(path@));
            assert(after.to_multiset().add(unit_views(rest@).to_multiset())
                =~= before.to_multiset().add(left.to_multiset()));
        }
    }
    proof {
        broadcast use group_to_multiset_ensures;

        law_path_order_is_total();
        all.lemma_sort_by_ensures(leq);
        assert(unit_views(rest@) =~= Seq::<Seq<u16>>::empty());
        assert(unit_views(sorted@).to_multiset() =~= all.to_multiset());
        lemma_sorted_unique(unit_views(sorted@), all.sort_by(leq), leq);
        assert(unit_views(sorted@).to_multiset().len() == all.to_multiset().len());
    }
    sorted
}

} // verus!

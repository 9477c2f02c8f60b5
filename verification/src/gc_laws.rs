//! Which `.pcrlock` variants are removed, told from their names, from what
//! they record and from the event log.

use crate::gc::{holds_digest, log_digests, records_digest, removed, variant_hash};
use crate::json::{json_document, member_names, name_index, JsonTree};
use crate::lock_laws::lemma_last_dot;
use crate::path::{last_dot, DOT};
use vstd::prelude::*;
use vstd::utf8::*;

verus! {

/// The name of the file that holds the records of a binary.
pub open spec fn variant_name(hash: Seq<char>) -> Seq<u8> {
    encode_utf8(hash + ".pcrlock"@)
}

proof fn lemma_encode_concat(a: Seq<char>, b: Seq<char>)
    ensures
        encode_utf8(a + b) == encode_utf8(a) + encode_utf8(b),
    decreases a.len(),
{
    if a.len() == 0 {
        assert(a + b =~= b);
        assert(encode_utf8(a) + encode_utf8(b) =~= encode_utf8(b));
    } else {
        assert((a + b).drop_first() =~= a.drop_first() + b);
        lemma_encode_concat(a.drop_first(), b);
        assert(encode_utf8(a + b) =~= encode_utf8(a) + encode_utf8(b));
    }
}

proof fn lemma_extension_bytes()
    ensures
        encode_utf8(".pcrlock"@) =~= seq![46u8, 112, 99, 114, 108, 111, 99, 107],
        encode_utf8("pcrlock"@) =~= seq![112u8, 99, 114, 108, 111, 99, 107],
{
    reveal_strlit(".pcrlock");
    reveal_strlit("pcrlock");
    is_ascii_chars_encode_utf8(".pcrlock"@);
    is_ascii_chars_encode_utf8("pcrlock"@);
    assert(encode_utf8(".pcrlock"@) =~= seq![46u8, 112, 99, 114, 108, 111, 99, 107]);
    assert(encode_utf8("pcrlock"@) =~= seq![112u8, 99, 114, 108, 111, 99, 107]);
}

/// A file with the extension `.pcrlock` is the variant of the binary whose
/// hash is the rest of its name; a file with another ending is none.
pub proof fn law_variants_are_known_by_their_names(hash: Seq<char>, file_name: Seq<u8>)
    ensures
        hash.len() > 0 ==> variant_hash(variant_name(hash)) == Some(hash),
        variant_hash(file_name) is Some ==> file_name.len() >= 8 && file_name.skip(
            file_name.len() - 8,
        ) == seq![46u8, 112, 99, 114, 108, 111, 99, 107],
{
    lemma_extension_bytes();
    if hash.len() > 0 {
        lemma_encode_concat(hash, ".pcrlock"@);
        let name = variant_name(hash);
        let at = encode_utf8(hash).len() as int;
        assert(at > 0) by {
            assert(encode_utf8(hash).len() > 0) by {
                encode_utf8_first_scalar(hash);
                encode_utf8_decode_utf8(hash);
                if encode_utf8(hash).len() == 0 {
                    assert(encode_utf8(hash) =~= encode_utf8(Seq::<char>::empty()));
                    encode_utf8_decode_utf8(Seq::<char>::empty());
                }
            }
        }
        assert(name[at] == DOT);
        assert forall|i: int| at < i < name.len() implies #[trigger] name[i] != DOT by {
            assert(name[i] == encode_utf8(".pcrlock"@)[i - at]);
        }
        lemma_last_dot(name, at);
        assert(name.take(at) =~= encode_utf8(hash));
        assert(name.skip(at + 1) =~= encode_utf8("pcrlock"@));
        encode_utf8_valid_utf8(hash);
        encode_utf8_decode_utf8(hash);
    }
    if variant_hash(file_name) is Some {
        let at = last_dot(file_name);
        lemma_last_dot_is_a_dot(file_name);
        assert(file_name.skip(at + 1) == encode_utf8("pcrlock"@));
        assert(file_name.skip(at + 1).len() == 7);
        assert(file_name.skip(file_name.len() - 8) =~= seq![
            46u8,
            112,
            99,
            114,
            108,
            111,
            99,
            107,
        ]) by {
            let tail = file_name.skip(file_name.len() - 8);
            assert forall|i: int| 1 <= i < 8 implies #[trigger] tail[i] == encode_utf8(
                "pcrlock"@,
            )[i - 1] by {
                assert(tail[i] == file_name.skip(at + 1)[i - 1]);
            }
        }
    }
}

proof fn lemma_last_dot_is_a_dot(name: Seq<u8>)
    ensures
        -1 <= last_dot(name) < name.len(),
        last_dot(name) >= 0 ==> name[last_dot(name)] == DOT,
    decreases name.len(),
{
    if name.len() > 0 && name.last() != DOT {
        lemma_last_dot_is_a_dot(name.drop_last());
    }
}

/// A variant whose hash is not kept is removed if it records a digest that is
/// not in the event log: its binary did not take part in this boot.
pub proof fn law_variants_of_other_boots_are_removed(
    keep: Seq<Seq<char>>,
    hash: Seq<char>,
    log: Set<Seq<char>>,
    bytes: Seq<u8>,
    document: JsonTree,
    digest: Seq<char>,
)
    requires
        hash.len() > 0,
        !keep.contains(hash),
        json_document(bytes) == Some(document),
        records_digest(document, digest),
        !log.contains(digest),
    ensures
        removed(keep, variant_name(hash), Some(log), Some(bytes)),
{
    law_variants_are_known_by_their_names(hash, variant_name(hash));
    assert(crate::gc::recorded_digests(document).contains(digest));
}

/// A variant is kept if all digests that it records are in the event log and
/// there is one, or if its hash is kept. Every other variant is removed:
/// without an event log, if it cannot be read, or if it records no digest.
pub proof fn law_variants_without_evidence_are_removed(
    keep: Seq<Seq<char>>,
    hash: Seq<char>,
    log: Set<Seq<char>>,
    bytes: Seq<u8>,
    document: JsonTree,
    contents: Option<Seq<u8>>,
    any_log: Option<Set<Seq<char>>>,
)
    requires
        hash.len() > 0,
        json_document(bytes) == Some(document),
    ensures
        keep.contains(hash) ==> !removed(keep, variant_name(hash), any_log, contents),
        (exists|digest: Seq<char>| #[trigger] records_digest(document, digest)) && (forall|
            digest: Seq<char>,
        | #[trigger]
            records_digest(document, digest) ==> log.contains(digest)) ==> !removed(
            keep,
            variant_name(hash),
            Some(log),
            Some(bytes),
        ),
        !keep.contains(hash) ==> {
            &&& removed(keep, variant_name(hash), None, contents)
            &&& removed(keep, variant_name(hash), Some(log), None)
            &&& contents is Some && json_document(contents->0) is None ==> removed(
                keep,
                variant_name(hash),
                Some(log),
                contents,
            )
            &&& (forall|digest: Seq<char>| !#[trigger] records_digest(document, digest))
                ==> removed(keep, variant_name(hash), Some(log), Some(bytes))
        },
{
    law_variants_are_known_by_their_names(hash, variant_name(hash));
    let recorded = crate::gc::recorded_digests(document);
    if exists|digest: Seq<char>| #[trigger] records_digest(document, digest) {
        let digest = choose|digest: Seq<char>| #[trigger] records_digest(document, digest);
        assert(recorded.contains(digest));
    } else {
        assert(recorded =~= Set::<Seq<char>>::empty());
    }
}

/// A file without the extension `.pcrlock` is never removed.
pub proof fn law_files_with_other_endings_stay(
    keep: Seq<Seq<char>>,
    file_name: Seq<u8>,
    log: Option<Set<Seq<char>>>,
    contents: Option<Seq<u8>>,
)
    requires
        file_name.len() < 8 || file_name.skip(file_name.len() - 8) != seq![
            46u8,
            112,
            99,
            114,
            108,
            111,
            99,
            107,
        ],
    ensures
        !removed(keep, file_name, log, contents),
{
    law_variants_are_known_by_their_names(Seq::empty(), file_name);
}

/// Whether a character is a hexadecimal digit that reads `lower` in lower
/// case.
pub open spec fn reads(c: char, lower: char) -> bool {
    ||| c == lower && ('0' <= c <= '9' || 'a' <= c <= 'f')
    ||| c == 'A' && lower == 'a'
    ||| c == 'B' && lower == 'b'
    ||| c == 'C' && lower == 'c'
    ||| c == 'D' && lower == 'd'
    ||| c == 'E' && lower == 'e'
    ||| c == 'F' && lower == 'f'
}

/// Whether a text is a digest of SHA-1, SHA-256, SHA-384 or SHA-512 in
/// hexadecimal, and reads `digest` in lower case.
pub open spec fn is_digest(text: Seq<char>, digest: Seq<char>) -> bool {
    &&& text.len() == 40 || text.len() == 64 || text.len() == 96 || text.len() == 128
    &&& text.len() == digest.len()
    &&& forall|i: int| 0 <= i < text.len() ==> reads(#[trigger] text[i], digest[i])
}

proof fn lemma_spelling(text: Seq<char>, digest: Seq<char>)
    ensures
        crate::gc::spells(text, digest) <==> is_digest(text, digest),
{
    let lower = crate::gc::lowered(text);
    assert forall|i: int| 0 <= i < text.len() implies (crate::gc::is_hex_digit(#[trigger] text[i])
        <==> reads(text[i], lower[i])) by {
        let c = text[i];
        assert(lower[i] == crate::dropin_paths::ascii_lower(c));
        if 'A' <= c <= 'F' {
            assert(c == 'A' || c == 'B' || c == 'C' || c == 'D' || c == 'E' || c == 'F');
        }
    }
    if crate::gc::spells(text, digest) {
        assert forall|i: int| 0 <= i < text.len() implies reads(#[trigger] text[i], digest[i]) by {
            assert(crate::gc::is_hex_digit(text[i]));
        }
    }
    if is_digest(text, digest) {
        assert forall|i: int| 0 <= i < text.len() implies #[trigger] text[i] == text[i]
            && crate::gc::is_hex_digit(text[i]) && lower[i] == digest[i] by {
            assert(reads(text[i], digest[i]));
            assert(lower[i] == crate::dropin_paths::ascii_lower(text[i]));
        }
        assert(lower =~= digest);
    }
}

/// In the event log a digest counts wherever it occurs as a string: on its own
/// or anywhere within arrays and objects, whatever the case of its letters.
pub proof fn law_digests_of_the_log_are_found_anywhere(
    text: Seq<char>,
    values: Seq<JsonTree>,
    members: Seq<(Seq<char>, JsonTree)>,
    digest: Seq<char>,
)
    ensures
        holds_digest(JsonTree::Text(text), digest) <==> is_digest(text, digest),
        holds_digest(JsonTree::Array(values), digest) <==> exists|i: int|
            0 <= i < values.len() && holds_digest(#[trigger] values[i], digest),
        holds_digest(JsonTree::Object(members), digest) <==> exists|i: int|
            0 <= i < members.len() && holds_digest((#[trigger] members[i]).1, digest),
        !holds_digest(JsonTree::Null, digest),
        forall|b: bool| !#[trigger] holds_digest(JsonTree::Bool(b), digest),
        forall|n: u64| !#[trigger] holds_digest(JsonTree::Unsigned(n), digest),
        forall|n: i64| !#[trigger] holds_digest(JsonTree::Negative(n), digest),
{
    reveal_with_fuel(holds_digest, 2);
    lemma_spelling(text, digest);
    if exists|i: int| 0 <= i < values.len() && holds_digest(#[trigger] values[i], digest) {
        let i = choose|i: int|
            0 <= i < values.len() && holds_digest(#[trigger] values[i], digest);
        assert(holds_digest(JsonTree::Array(values)->Array_0[i], digest));
    }
    if holds_digest(JsonTree::Array(values), digest) {
        let tree = JsonTree::Array(values);
        let i = choose|i: int|
            0 <= i < tree->Array_0.len() && holds_digest(#[trigger] tree->Array_0[i], digest);
        assert(holds_digest(values[i], digest));
    }
    if exists|i: int| 0 <= i < members.len() && holds_digest((#[trigger] members[i]).1, digest) {
        let i = choose|i: int|
            0 <= i < members.len() && holds_digest((#[trigger] members[i]).1, digest);
        assert(holds_digest((JsonTree::Object(members)->Object_0[i]).1, digest));
    }
    if holds_digest(JsonTree::Object(members), digest) {
        let tree = JsonTree::Object(members);
        let i = choose|i: int|
            0 <= i < tree->Object_0.len() && holds_digest((#[trigger] tree->Object_0[i]).1, digest);
        assert(holds_digest((members[i]).1, digest));
    }
}

/// In a variant a digest counts only as the value of a member named `digest`,
/// of any object anywhere within arrays and objects.
pub proof fn law_digests_of_a_variant_are_its_digest_members(
    text: Seq<char>,
    values: Seq<JsonTree>,
    members: Seq<(Seq<char>, JsonTree)>,
    digest: Seq<char>,
)
    ensures
        !records_digest(JsonTree::Text(text), digest),
        records_digest(JsonTree::Array(values), digest) <==> exists|i: int|
            0 <= i < values.len() && records_digest(#[trigger] values[i], digest),
        forall|i: int|
            0 <= i < members.len() && records_digest((#[trigger] members[i]).1, digest)
                ==> records_digest(JsonTree::Object(members), digest),
        forall|i: int|
            0 <= i < members.len() && (#[trigger] members[i]) == ("digest"@, JsonTree::Text(text))
                && is_digest(text, digest) && (forall|j: int|
                0 <= j < i ==> (#[trigger] members[j]).0 != "digest"@) ==> records_digest(
                JsonTree::Object(members),
                digest,
            ),
        records_digest(JsonTree::Object(members), digest) ==> exists|i: int|
            0 <= i < members.len() && (records_digest((#[trigger] members[i]).1, digest) || (
            members[i].0 == "digest"@ && (members[i].1 matches JsonTree::Text(own) && is_digest(
                own,
                digest,
            )))),
{
    reveal_with_fuel(records_digest, 2);
    lemma_spelling(text, digest);
    if exists|i: int| 0 <= i < values.len() && records_digest(#[trigger] values[i], digest) {
        let i = choose|i: int|
            0 <= i < values.len() && records_digest(#[trigger] values[i], digest);
        assert(records_digest(JsonTree::Array(values)->Array_0[i], digest));
    }
    if records_digest(JsonTree::Array(values), digest) {
        let tree = JsonTree::Array(values);
        let i = choose|i: int|
            0 <= i < tree->Array_0.len() && records_digest(#[trigger] tree->Array_0[i], digest);
        assert(records_digest(values[i], digest));
    }
    let names = member_names(members);
    lemma_name_index(names, "digest"@);
    let at = name_index(names, "digest"@);
    if 0 <= at < members.len() {
        if let JsonTree::Text(own) = members[at].1 {
            lemma_spelling(own, digest);
        }
    }
    assert forall|i: int|
        0 <= i < members.len() && (#[trigger] members[i]) == ("digest"@, JsonTree::Text(text))
            && is_digest(text, digest) && (forall|j: int|
            0 <= j < i ==> (#[trigger] members[j]).0 != "digest"@) implies records_digest(
        JsonTree::Object(members),
        digest,
    ) by {
        assert(names[i] == "digest"@);
        if at < i {
            assert(names[at] == members[at].0);
        }
        assert(at == i);
    }
}

/// The position of a name is the first at which it stands.
pub proof fn lemma_name_index(names: Seq<Seq<char>>, name: Seq<char>)
    ensures
        -1 <= name_index(names, name) < names.len(),
        name_index(names, name) >= 0 ==> names[name_index(names, name)] == name,
        forall|i: int|
            0 <= i < names.len() && #[trigger] names[i] == name ==> 0 <= name_index(names, name)
                <= i,
    decreases names.len(),
{
    if names.len() > 0 && names[0] != name {
        let rest = names.drop_first();
        lemma_name_index(rest, name);
        assert forall|i: int| 0 <= i < names.len() && #[trigger] names[i] == name implies 0
            <= name_index(names, name) <= i by {
            assert(rest[i - 1] == name);
        }
    }
}

/// The log that a program printed counts only if the program succeeded and
/// printed a document, and then it holds the digests of that document.
pub proof fn law_only_printed_logs_count(success: bool, stdout: Seq<u8>, digest: Seq<char>)
    ensures
        log_digests(success, stdout) is Some <==> success && json_document(stdout) is Some,
        log_digests(success, stdout) matches Some(log) ==> (log.contains(digest) <==> holds_digest(
            json_document(stdout)->0,
            digest,
        )),
{
}

} // verus!

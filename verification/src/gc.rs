//! Garbage collection of `.pcrlock` variants.

use crate::bytes::same_bytes;
use crate::dropin_paths::{ascii_lower, to_ascii_lower};
use crate::json::{find_name, json_document, JsonTree, JsonValue};
use crate::path::{extension_of, split_extension, stem_of};
use crate::pcrlock::GcArgs;
use crate::text::{chars_of, decode_text, same_text, utf8_text};
use vstd::prelude::*;
use vstd::utf8::*;

verus! {

/// A set of digests.
#[derive(Debug)]
pub struct DigestSet {
    digests: Vec<String>,
}

impl View for DigestSet {
    type V = Set<Seq<char>>;

    closed spec fn view(&self) -> Set<Seq<char>> {
        listed(self.digests@)
    }
}

/// The texts of several strings.
spec fn listed(digests: Seq<String>) -> Set<Seq<char>> {
    Set::new(|d: Seq<char>| exists|i: int| 0 <= i < digests.len() && (#[trigger] digests[i])@ == d)
}

impl DigestSet {
    /// No digest occurs twice.
    #[verifier::type_invariant]
    spec fn wf(&self) -> bool {
        forall|i: int, j: int|
            0 <= i < j < self.digests@.len() ==> (#[trigger] self.digests@[i])@ != (
            #[trigger] self.digests@[j])@
    }

    /// The empty set.
    pub fn new() -> (set: DigestSet)
        ensures
            set@ == Set::<Seq<char>>::empty(),
    {
        let set = DigestSet { digests: Vec::new() };
        assert(set@ =~= Set::<Seq<char>>::empty());
        set
    }

    /// Whether a digest is in the set.
    pub fn contains(&self, digest: &str) -> (found: bool)
        ensures
            found == self@.contains(digest@),
    {
        for i in 0..self.digests.len()
            invariant
                forall|j: int| 0 <= j < i ==> (#[trigger] self.digests@[j])@ != digest@,
        {
            if same_text(self.digests[i].as_str(), digest) {
                return true;
            }
        }
        false
    }

    /// Whether the set is empty.
    pub fn is_empty(&self) -> (empty: bool)
        ensures
            empty == (self@ == Set::<Seq<char>>::empty()),
    {
        if self.digests.len() == 0 {
            assert(self@ =~= Set::<Seq<char>>::empty());
            true
        } else {
            assert(self@.contains(self.digests@[0]@));
            false
        }
    }

    /// Add a digest.
    pub fn insert(&mut self, digest: String)
        ensures
            final(self)@ == old(self)@.insert(digest@),
    {
        if self.contains(digest.as_str()) {
            assert(self@ =~= self@.insert(digest@));
            return ;
        }
        proof {
            use_type_invariant(&*self);
        }
        let mut digests = Vec::new();
        std::mem::swap(&mut digests, &mut self.digests);
        let ghost before = digests@;
        assert(forall|i: int| 0 <= i < before.len() ==> (#[trigger] before[i])@ != digest@) by {
            assert forall|i: int| 0 <= i < before.len() implies (#[trigger] before[i])@
                != digest@ by {
                if before[i]@ == digest@ {
                    assert(listed(before).contains(digest@));
                }
            }
        }
        digests.push(digest);
        self.digests = digests;
        assert(self@ =~= old(self)@.insert(digest@)) by {
            let after = self.digests@;
            assert forall|d: Seq<char>|
                listed(after).contains(d) <==> listed(before).insert(digest@).contains(d) by {
                if listed(after).contains(d) {
                    let i = choose|i: int| 0 <= i < after.len() && (#[trigger] after[i])@ == d;
                    if i < before.len() {
                        assert(before[i] == after[i]);
                    }
                }
                if listed(before).contains(d) {
                    let i = choose|i: int| 0 <= i < before.len() && (#[trigger] before[i])@ == d;
                    assert(after[i] == before[i]);
                }
                if d == digest@ {
                    assert(after[before.len() as int]@ == d);
                }
            }
        }
    }

    /// Whether every digest of this set is in the other.
    pub fn is_subset(&self, other: &DigestSet) -> (subset: bool)
        ensures
            subset == self@.subset_of(other@),
    {
        for i in 0..self.digests.len()
            invariant
                forall|j: int| 0 <= j < i ==> other@.contains((#[trigger] self.digests@[j])@),
        {
            if !other.contains(self.digests[i].as_str()) {
                assert(self@.contains(self.digests@[i as int]@));
                return false;
            }
        }
        true
    }
}

/// Whether a character is a hexadecimal digit.
pub open spec fn is_hex_digit(c: char) -> bool {
    '0' <= c <= '9' || 'a' <= c <= 'f' || 'A' <= c <= 'F'
}

/// Whether a text has the shape of a SHA-1, SHA-256, SHA-384 or SHA-512
/// digest.
pub open spec fn digest_shaped(text: Seq<char>) -> bool {
    &&& text.len() == 40 || text.len() == 64 || text.len() == 96 || text.len() == 128
    &&& forall|i: int| 0 <= i < text.len() ==> is_hex_digit(#[trigger] text[i])
}

/// Whether a text has the shape of a digest.
pub fn looks_like_digest(value: &str) -> (shaped: bool)
    ensures
        shaped == digest_shaped(value@),
{
    let chars = chars_of(value);
    let n: usize = chars.len();
    if !(n == 40 || n == 64 || n == 96 || n == 128) {
        return false;
    }
    for i in 0..chars.len()
        invariant
            chars@ == value@,
            forall|j: int| 0 <= j < i ==> is_hex_digit(#[trigger] chars@[j]),
    {
        let c = chars[i];
        if !(('0' <= c && c <= '9') || ('a' <= c && c <= 'f') || ('A' <= c && c <= 'F')) {
            return false;
        }
    }
    true
}

/// A digest in lower case.
pub open spec fn lowered(text: Seq<char>) -> Seq<char> {
    text.map_values(|c: char| ascii_lower(c))
}

fn to_lowercase(digest: &str) -> (lower: String)
    ensures
        lower@ == lowered(digest@),
{
    let chars = chars_of(digest);
    let mut lower = String::new();
    for i in 0..chars.len()
        invariant
            lower@ == lowered(chars@.take(i as int)),
    {
        lower.push(to_ascii_lower(chars[i]));
        assert(lower@ == lowered(chars@.take(i + 1)));
    }
    assert(chars@.take(chars.len() as int) == chars@);
    lower
}

/// Whether a text is a digest that reads `digest` in lower case.
pub open spec fn spells(text: Seq<char>, digest: Seq<char>) -> bool {
    digest_shaped(text) && lowered(text) == digest
}

/// Whether a digest occurs anywhere in a JSON value as a string.
pub open spec fn holds_digest(tree: JsonTree, digest: Seq<char>) -> bool
    decreases tree,
{
    match tree {
        JsonTree::Text(text) => spells(text, digest),
        JsonTree::Array(values) => exists|i: int|
            0 <= i < values.len() && holds_digest(#[trigger] values[i], digest),
        JsonTree::Object(members) => exists|i: int|
            0 <= i < members.len() && holds_digest((#[trigger] members[i]).1, digest),
        _ => false,
    }
}

/// Whether a digest occurs anywhere in a JSON value as the value of a `digest`
/// member.
pub open spec fn records_digest(tree: JsonTree, digest: Seq<char>) -> bool
    decreases tree,
{
    match tree {
        JsonTree::Array(values) => exists|i: int|
            0 <= i < values.len() && records_digest(#[trigger] values[i], digest),
        JsonTree::Object(members) => {
            ||| crate::json::member(members, "digest"@) matches Some(JsonTree::Text(text))
                && spells(text, digest)
            ||| exists|i: int|
                0 <= i < members.len() && records_digest((#[trigger] members[i]).1, digest)
        },
        _ => false,
    }
}

/// All digests that occur in a JSON value as strings.
pub open spec fn held_digests(tree: JsonTree) -> Set<Seq<char>> {
    Set::new(|digest: Seq<char>| holds_digest(tree, digest))
}

/// All digests that occur in a JSON value as `digest` members.
pub open spec fn recorded_digests(tree: JsonTree) -> Set<Seq<char>> {
    Set::new(|digest: Seq<char>| records_digest(tree, digest))
}

/// Collect all digest-shaped strings of a JSON value.
pub fn collect_digest_strings(value: &JsonValue, digests: &mut DigestSet)
    ensures
        final(digests)@ == old(digests)@.union(held_digests(value.tree())),
    decreases value,
{
    let ghost start = digests@;
    match value {
        JsonValue::Text(text) => {
            if looks_like_digest(text.as_str()) {
                digests.insert(to_lowercase(text.as_str()));
            }
            assert(digests@ =~= start.union(held_digests(value.tree())));
        },
        JsonValue::Array(values) => {
            let ghost trees = value.tree()->Array_0;
            for i in 0..values.len()
                invariant
                    *value == JsonValue::Array(*values),
                    value.tree() == JsonTree::Array(trees),
                    trees.len() == values@.len(),
                    forall|d: Seq<char>| #[trigger]
                        digests@.contains(d) <==> start.contains(d) || exists|j: int|
                            0 <= j < i && holds_digest(#[trigger] trees[j], d),
            {
                assert(trees[i as int] == values@[i as int].tree());
                assert(decreases_to!(value => values@[i as int]));
                let ghost before = digests@;
                collect_digest_strings(&values[i], digests);
                assert forall|d: Seq<char>| #[trigger]
                    digests@.contains(d) <==> start.contains(d) || exists|j: int|
                        0 <= j < i + 1 && holds_digest(#[trigger] trees[j], d) by {
                    assert(digests@.contains(d) <==> before.contains(d) || holds_digest(
                        trees[i as int],
                        d,
                    ));
                }
            }
            assert(digests@ =~= start.union(held_digests(value.tree())));
        },
        JsonValue::Object(members) => {
            let ghost trees = value.tree()->Object_0;
            for i in 0..members.len()
                invariant
                    *value == JsonValue::Object(*members),
                    value.tree() == JsonTree::Object(trees),
                    trees.len() == members@.len(),
                    forall|d: Seq<char>| #[trigger]
                        digests@.contains(d) <==> start.contains(d) || exists|j: int|
                            0 <= j < i && holds_digest((#[trigger] trees[j]).1, d),
            {
                assert(trees[i as int].1 == members@[i as int].1.tree());
                assert(decreases_to!(value => members@[i as int].1));
                let ghost before = digests@;
                collect_digest_strings(&members[i].1, digests);
                assert forall|d: Seq<char>| #[trigger]
                    digests@.contains(d) <==> start.contains(d) || exists|j: int|
                        0 <= j < i + 1 && holds_digest((#[trigger] trees[j]).1, d) by {
                    assert(digests@.contains(d) <==> before.contains(d) || holds_digest(
                        trees[i as int].1,
                        d,
                    ));
                }
            }
            assert(digests@ =~= start.union(held_digests(value.tree())));
        },
        _ => {
            assert(digests@ =~= start.union(held_digests(value.tree())));
        },
    }
}

/// Collect the digests that a JSON value records in `digest` members.
pub fn collect_record_digests(value: &JsonValue, digests: &mut DigestSet)
    ensures
        final(digests)@ == old(digests)@.union(recorded_digests(value.tree())),
    decreases value,
{
    let ghost start = digests@;
    match value {
        JsonValue::Array(values) => {
            let ghost trees = value.tree()->Array_0;
            for i in 0..values.len()
                invariant
                    *value == JsonValue::Array(*values),
                    value.tree() == JsonTree::Array(trees),
                    trees.len() == values@.len(),
                    forall|d: Seq<char>| #[trigger]
                        digests@.contains(d) <==> start.contains(d) || exists|j: int|
                            0 <= j < i && records_digest(#[trigger] trees[j], d),
            {
                assert(trees[i as int] == values@[i as int].tree());
                assert(decreases_to!(value => values@[i as int]));
                let ghost before = digests@;
                collect_record_digests(&values[i], digests);
                assert forall|d: Seq<char>| #[trigger]
                    digests@.contains(d) <==> start.contains(d) || exists|j: int|
                        0 <= j < i + 1 && records_digest(#[trigger] trees[j], d) by {
                    assert(digests@.contains(d) <==> before.contains(d) || records_digest(
                        trees[i as int],
                        d,
                    ));
                }
            }
            assert(digests@ =~= start.union(recorded_digests(value.tree())));
        },
        JsonValue::Object(members) => {
            let ghost trees = value.tree()->Object_0;
            let ghost own = Set::new(
                |d: Seq<char>|
                    crate::json::member(trees, "digest"@) matches Some(JsonTree::Text(text))
                        && spells(text, d),
            );
            proof {
                assert(crate::json::member_names(trees) =~= members@.map_values(
                    |member: (String, JsonValue)| member.0@,
                ));
            }
            if let Some(at) = find_name(members, "digest") {
                assert(trees[at as int].1 == members@[at as int].1.tree());
                if let JsonValue::Text(digest) = &members[at].1 {
                    if looks_like_digest(digest.as_str()) {
                        digests.insert(to_lowercase(digest.as_str()));
                    }
                }
            }
            assert(digests@ =~= start.union(own));
            for i in 0..members.len()
                invariant
                    *value == JsonValue::Object(*members),
                    value.tree() == JsonTree::Object(trees),
                    trees.len() == members@.len(),
                    forall|d: Seq<char>| #[trigger]
                        digests@.contains(d) <==> start.contains(d) || own.contains(d)
                            || exists|j: int|
                            0 <= j < i && records_digest((#[trigger] trees[j]).1, d),
            {
                assert(trees[i as int].1 == members@[i as int].1.tree());
                assert(decreases_to!(value => members@[i as int].1));
                let ghost before = digests@;
                collect_record_digests(&members[i].1, digests);
                assert forall|d: Seq<char>| #[trigger]
                    digests@.contains(d) <==> start.contains(d) || own.contains(d)
                        || exists|j: int|
                        0 <= j < i + 1 && records_digest((#[trigger] trees[j]).1, d) by {
                    assert(digests@.contains(d) <==> before.contains(d) || records_digest(
                        trees[i as int].1,
                        d,
                    ));
                }
            }
            assert(digests@ =~= start.union(recorded_digests(value.tree())));
        },
        _ => {
            assert(digests@ =~= start.union(recorded_digests(value.tree())));
        },
    }
}

/// What a process left behind.
#[derive(Debug, Clone, Copy)]
pub struct ProcessOutput<'a> {
    /// Whether it exited successfully.
    pub success: bool,
    pub stdout: &'a [u8],
}

/// The digests of the event log that a process printed, or nothing if there is
/// no log.
pub open spec fn log_digests(success: bool, stdout: Seq<u8>) -> Option<Set<Seq<char>>> {
    match json_document(stdout) {
        Some(tree) => if success {
            Some(held_digests(tree))
        } else {
            None
        },
        None => None,
    }
}

/// A set of digests that may be missing.
pub open spec fn digest_option(digests: Option<DigestSet>) -> Option<Set<Seq<char>>> {
    match digests {
        Some(digests) => Some(digests@),
        None => None,
    }
}

/// All digest-shaped strings of a JSON value.
pub fn digests_of_log(log: &JsonValue) -> (digests: DigestSet)
    ensures
        digests@ == held_digests(log.tree()),
{
    let mut digests = DigestSet::new();
    collect_digest_strings(log, &mut digests);
    assert(digests@ =~= held_digests(log.tree()));
    digests
}

/// All digest-shaped strings from the TPM event log that
/// `systemd-pcrlock log --json=short` printed, or nothing when the log cannot
/// be read. Collecting liberally only makes the garbage collection more
/// conservative.
pub fn read_event_log_digests(output: Option<ProcessOutput<'_>>) -> (digests: Option<DigestSet>)
    ensures
        digest_option(digests) == (match output {
            Some(output) => log_digests(output.success, output.stdout@),
            None => None,
        }),
{
    let output = match output {
        Some(output) => output,
        None => {
            return None;
        },
    };
    if !output.success {
        return None;
    }
    match JsonValue::parse(output.stdout) {
        Some(value) => Some(digests_of_log(&value)),
        None => None,
    }
}

/// Whether a variant records digests, and all of them are in the log.
pub open spec fn recorded_in_log(variant: JsonTree, log: Set<Seq<char>>) -> bool {
    &&& recorded_digests(variant) != Set::<Seq<char>>::empty()
    &&& recorded_digests(variant).subset_of(log)
}

/// Whether the contents of a variant file are in the log. A file that cannot
/// be read, or that is no JSON document, is not.
pub open spec fn contents_in_log(contents: Option<Seq<u8>>, log: Set<Seq<char>>) -> bool {
    contents matches Some(bytes) && json_document(bytes) matches Some(variant) && recorded_in_log(
        variant,
        log,
    )
}

/// Whether a variant records digests, and all of them are in the log.
pub fn records_are_in_log(variant: &JsonValue, log_digests: &DigestSet) -> (found: bool)
    ensures
        found == recorded_in_log(variant.tree(), log_digests@),
{
    let mut digests = DigestSet::new();
    collect_record_digests(variant, &mut digests);
    assert(digests@ =~= recorded_digests(variant.tree()));
    !digests.is_empty() && digests.is_subset(log_digests)
}

/// Whether every digest recorded in the variant file appears in the event log.
/// Unreadable or empty variants are not considered part of the log.
pub fn variant_is_in_log(contents: Option<&[u8]>, log_digests: &DigestSet) -> (found: bool)
    ensures
        found == contents_in_log(contents_option(contents), log_digests@),
{
    let bytes = match contents {
        Some(bytes) => bytes,
        None => {
            return false;
        },
    };
    match JsonValue::parse(bytes) {
        Some(value) => records_are_in_log(&value, log_digests),
        None => false,
    }
}

/// What becomes of a directory entry.
#[derive(Debug, Clone, Copy, PartialEq, Eq, Structural)]
pub enum GcStep {
    /// It stays.
    Retain,
    /// It stays if its contents are in the event log, and is removed
    /// otherwise.
    Examine,
    /// It is removed.
    Remove,
}

/// The PE hash that a `.pcrlock` variant is named after. Other files have
/// none.
pub open spec fn variant_hash(file_name: Seq<u8>) -> Option<Seq<char>> {
    if extension_of(file_name) == Some(encode_utf8("pcrlock"@)) {
        utf8_text(stem_of(file_name))
    } else {
        None
    }
}

/// The texts of several strings.
pub open spec fn string_views(strings: Seq<String>) -> Seq<Seq<char>> {
    strings.map_values(|string: String| string@)
}

/// What becomes of a directory entry.
pub open spec fn gc_step(keep: Seq<Seq<char>>, file_name: Seq<u8>, has_log: bool) -> GcStep {
    match variant_hash(file_name) {
        Some(hash) => if keep.contains(hash) {
            GcStep::Retain
        } else if has_log {
            GcStep::Examine
        } else {
            GcStep::Remove
        },
        None => GcStep::Retain,
    }
}

/// Decide what becomes of an entry of the directory of pcrlock variants, which
/// hold the records of PE binaries.
///
/// A variant is retained when its hash is in `keep` (the binary is still
/// present), or when every digest it records appears in the current TPM event
/// log: such a binary participated in this boot, and the policy must keep
/// recognising the booted state until the next reboot, even if the binary
/// itself has already been replaced.
pub fn gc(args: &GcArgs, file_name: &[u8], log_digests: Option<&DigestSet>) -> (step: GcStep)
    ensures
        step == gc_step(string_views(args.keep@), file_name@, log_digests is Some),
{
    let (stem, extension) = split_extension(file_name);
    match extension {
        Some(extension) => {
            if !same_bytes(extension, "pcrlock".as_bytes()) {
                return GcStep::Retain;
            }
        },
        None => {
            return GcStep::Retain;
        },
    }
    let hash = match decode_text(stem) {
        Some(hash) => hash,
        None => {
            return GcStep::Retain;
        },
    };
    let ghost keep = string_views(args.keep@);
    for i in 0..args.keep.len()
        invariant
            keep == string_views(args.keep@),
            variant_hash(file_name@) == Some(hash@),
            forall|j: int| 0 <= j < i ==> #[trigger] keep[j] != hash@,
    {
        if same_text(args.keep[i].as_str(), hash.as_str()) {
            assert(keep[i as int] == hash@);
            return GcStep::Retain;
        }
    }
    match log_digests {
        Some(_) => GcStep::Examine,
        None => GcStep::Remove,
    }
}

/// Whether a directory entry is removed in the end.
pub open spec fn removed(
    keep: Seq<Seq<char>>,
    file_name: Seq<u8>,
    log: Option<Set<Seq<char>>>,
    contents: Option<Seq<u8>>,
) -> bool {
    match gc_step(keep, file_name, log is Some) {
        GcStep::Retain => false,
        GcStep::Examine => !contents_in_log(contents, log->0),
        GcStep::Remove => true,
    }
}

/// The contents of a file that may be missing.
pub open spec fn contents_option(contents: Option<&[u8]>) -> Option<Seq<u8>> {
    match contents {
        Some(bytes) => Some(bytes@),
        None => None,
    }
}

/// Whether an entry of the directory of pcrlock variants is removed. The
/// contents of the file are looked at only if [`gc`] asks to examine it.
pub fn is_removed(
    args: &GcArgs,
    file_name: &[u8],
    log_digests: Option<&DigestSet>,
    contents: Option<&[u8]>,
) -> (gone: bool)
    ensures
        gone == removed(
            string_views(args.keep@),
            file_name@,
            match log_digests {
                Some(digests) => Some(digests@),
                None => None,
            },
            contents_option(contents),
        ),
{
    match (gc(args, file_name, log_digests), log_digests) {
        (GcStep::Retain, _) => false,
        (GcStep::Examine, Some(digests)) => !variant_is_in_log(contents, digests),
        _ => true,
    }
}

/// A `.pcrlock` variant is removed if and only if its binary is not kept and
/// the event log does not show that it took part in this boot.
pub proof fn law_only_obsolete_variants_are_removed(
    keep: Seq<Seq<char>>,
    file_name: Seq<u8>,
    log: Option<Set<Seq<char>>>,
    contents: Option<Seq<u8>>,
)
    ensures
        removed(keep, file_name, log, contents) <==> (variant_hash(file_name) matches Some(hash)
            && !keep.contains(hash) && !(log matches Some(log) && contents_in_log(contents, log))),
{
}

/// Files that are not `.pcrlock` variants are never removed.
pub proof fn law_other_files_are_never_removed(
    keep: Seq<Seq<char>>,
    file_name: Seq<u8>,
    log: Option<Set<Seq<char>>>,
    contents: Option<Seq<u8>>,
)
    requires
        extension_of(file_name) != Some(encode_utf8("pcrlock"@)),
    ensures
        !removed(keep, file_name, log, contents),
{
}

/// A larger event log never leads to more removals.
pub proof fn law_larger_logs_are_more_conservative(
    keep: Seq<Seq<char>>,
    file_name: Seq<u8>,
    smaller: Set<Seq<char>>,
    larger: Set<Seq<char>>,
    contents: Option<Seq<u8>>,
)
    requires
        smaller.subset_of(larger),
        removed(keep, file_name, Some(larger), contents),
    ensures
        removed(keep, file_name, Some(smaller), contents),
{
}

/// Every digest that a document records is also among its digest-shaped
/// strings: the log is searched at least as liberally as the variants.
pub proof fn law_recorded_digests_are_held(tree: JsonTree)
    ensures
        recorded_digests(tree).subset_of(held_digests(tree)),
{
    assert forall|digest: Seq<char>| records_digest(tree, digest) implies holds_digest(
        tree,
        digest,
    ) by {
        lemma_recorded_is_held(tree, digest);
    }
}

proof fn lemma_recorded_is_held(tree: JsonTree, digest: Seq<char>)
    requires
        records_digest(tree, digest),
    ensures
        holds_digest(tree, digest),
    decreases tree,
{
    match tree {
        JsonTree::Array(values) => {
            let i = choose|i: int|
                0 <= i < values.len() && records_digest(#[trigger] values[i], digest);
            lemma_recorded_is_held(values[i], digest);
        },
        JsonTree::Object(members) => {
            if exists|i: int|
                0 <= i < members.len() && records_digest((#[trigger] members[i]).1, digest) {
                let i = choose|i: int|
                    0 <= i < members.len() && records_digest((#[trigger] members[i]).1, digest);
                lemma_recorded_is_held(members[i].1, digest);
            } else {
                let names = crate::json::member_names(members);
                let i = crate::json::name_index(names, "digest"@);
                assert(holds_digest(members[i].1, digest));
            }
        },
        _ => {},
    }
}

} // verus!

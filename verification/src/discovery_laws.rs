//! What holds of every discovery of companion files.

use crate::companions::{found_files, selected, CompanionSource, DropinState, EntryModel};
use crate::discovery::{DiscoveryReplyModel, DiscoveryStage, DiscoveryState};
use crate::dropin_paths::ends_with_ignoring_case;
use crate::status::Status;
use crate::ucs2::{
    all_ascii, ascii_text, law_path_order_is_total, law_sorting_forgets_the_order, normalized,
    path_in, path_order, ucs2,
};
use vstd::multiset::Multiset;
use vstd::prelude::*;
use vstd::seq_lib::*;

verus! {

/// The state of a discovery after the given outcomes.
pub open spec fn discovered(
    source: CompanionSource,
    dropin: Option<Seq<u16>>,
    replies: Seq<DiscoveryReplyModel>,
) -> DiscoveryState
    decreases replies.len(),
{
    if replies.len() == 0 {
        DiscoveryState::initial(source, dropin)
    } else {
        discovered(source, dropin, replies.drop_last()).next(replies.last())
    }
}

/// Whether each outcome is one that the request before it can have.
pub open spec fn answers(
    source: CompanionSource,
    dropin: Option<Seq<u16>>,
    replies: Seq<DiscoveryReplyModel>,
) -> bool
    decreases replies.len(),
{
    if replies.len() == 0 {
        true
    } else {
        &&& answers(source, dropin, replies.drop_last())
        &&& discovered(source, dropin, replies.drop_last()).awaits(replies.last())
    }
}

/// How many more outcomes a discovery can wait for.
pub open spec fn steps_left(stage: DiscoveryStage) -> nat {
    match stage {
        DiscoveryStage::ListLocal => 6,
        DiscoveryStage::PackLocal => 5,
        DiscoveryStage::ProbeGlobal => 4,
        DiscoveryStage::QueryGlobal => 3,
        DiscoveryStage::ListGlobal => 2,
        DiscoveryStage::PackGlobal => 1,
        DiscoveryStage::Finished(_) => 0,
    }
}

/// Every outcome brings a discovery closer to its end.
pub proof fn law_discovery_terminates(state: DiscoveryState, reply: DiscoveryReplyModel)
    requires
        state.awaits(reply),
    ensures
        steps_left(state.next(reply).stage) < steps_left(state.stage),
{
}

/// Whether image-specific files are still being collected.
pub open spec fn is_local(stage: DiscoveryStage) -> bool {
    stage is ListLocal || stage is PackLocal
}

/// A discovery gives at most two initrds: one with the image-specific files,
/// and after it one with the files for all images.
pub proof fn law_image_specific_files_come_first(
    source: CompanionSource,
    dropin: Option<Seq<u16>>,
    replies: Seq<DiscoveryReplyModel>,
)
    requires
        answers(source, dropin, replies),
    ensures
        ({
            let companions = discovered(source, dropin, replies).companions;
            &&& companions.len() <= 2
            &&& companions.len() >= 1 ==> companions[0].kind == source.spec_kind(false)
                || companions[0].kind == source.spec_kind(true)
            &&& companions.len() == 2 ==> companions[0].kind == source.spec_kind(false)
                && companions[1].kind == source.spec_kind(true)
            &&& companions.len() >= 1 && companions[0].kind == source.spec_kind(false)
                ==> dropin is Some
        }),
{
    lemma_companions(source, dropin, replies);
}

proof fn lemma_companions(
    source: CompanionSource,
    dropin: Option<Seq<u16>>,
    replies: Seq<DiscoveryReplyModel>,
)
    requires
        answers(source, dropin, replies),
    ensures
        ({
            let state = discovered(source, dropin, replies);
            let companions = state.companions;
            &&& state.source == source
            &&& state.dropin == dropin
            &&& is_local(state.stage) ==> companions.len() == 0 && dropin is Some
            &&& state.stage !is Finished && companions.len() > 0 ==> companions.len() == 1
                && companions[0].kind == source.spec_kind(false)
            &&& companions.len() <= 2
            &&& companions.len() >= 1 ==> companions[0].kind == source.spec_kind(false)
                || companions[0].kind == source.spec_kind(true)
            &&& companions.len() == 2 ==> companions[0].kind == source.spec_kind(false)
                && companions[1].kind == source.spec_kind(true)
            &&& companions.len() >= 1 && companions[0].kind == source.spec_kind(false)
                ==> dropin is Some
        }),
    decreases replies.len(),
{
    if replies.len() > 0 {
        lemma_companions(source, dropin, replies.drop_last());
    }
}

/// Every state that a discovery reaches is valid: files are packed only if
/// there are any.
pub proof fn law_discovered_states_are_valid(
    source: CompanionSource,
    dropin: Option<Seq<u16>>,
    replies: Seq<DiscoveryReplyModel>,
)
    requires
        answers(source, dropin, replies),
    ensures
        discovered(source, dropin, replies).valid(),
    decreases replies.len(),
{
    if replies.len() > 0 {
        law_discovered_states_are_valid(source, dropin, replies.drop_last());
        lemma_companions(source, dropin, replies.drop_last());
        let prior = discovered(source, dropin, replies.drop_last());
        if let DiscoveryReplyModel::Entries(entries) = replies.last() {
            let directory = if prior.stage is ListLocal {
                prior.dropin->0
            } else {
                prior.global_directory()
            };
            if let Ok(files) = found_files(
                directory,
                entries,
                source.spec_suffix(),
                source.spec_excluded_suffix(),
            ) {
                lemma_arranged_len(source, files);
            }
        }
    }
}

/// Arranging files neither adds nor removes any.
pub proof fn lemma_arranged_len(source: CompanionSource, files: Seq<Seq<u16>>)
    ensures
        source.arranged(files).len() == files.len(),
{
    broadcast use group_to_multiset_ensures;

    law_path_order_is_total();
    files.lemma_sort_by_ensures(path_order());
    assert(files.to_multiset().len() == files.sort_by(path_order()).to_multiset().len());
}

/// Exactly the regular files with an ASCII name that match the suffixes are
/// found.
pub proof fn law_exactly_the_selected_files_are_found(
    directory: Seq<u16>,
    entries: Seq<Result<EntryModel, Status>>,
    suffix: Seq<char>,
    excluded: Option<Seq<char>>,
    files: Seq<Seq<u16>>,
    path: Seq<u16>,
)
    requires
        found_files(directory, entries, suffix, excluded) == Ok::<Seq<Seq<u16>>, Status>(files),
    ensures
        files.contains(path) <==> exists|i: int|
            0 <= i < entries.len() && names_selected(
                directory,
                #[trigger] entries[i],
                suffix,
                excluded,
                path,
            ),
    decreases entries.len(),
{
    if entries.len() > 0 {
        let rest = entries.drop_last();
        match (found_files(directory, rest, suffix, excluded), entries.last()) {
            (Ok(before), Ok(entry)) => {
                law_exactly_the_selected_files_are_found(
                    directory,
                    rest,
                    suffix,
                    excluded,
                    before,
                    path,
                );
                assert(entries[entries.len() - 1] == entries.last());
                if before.contains(path) {
                    let i = choose|i: int|
                        0 <= i < rest.len() && names_selected(
                            directory,
                            #[trigger] rest[i],
                            suffix,
                            excluded,
                            path,
                        );
                    assert(entries[i] == rest[i]);
                    let k = choose|k: int| 0 <= k < before.len() && before[k] == path;
                    assert(files[k] == path);
                }
                if selected(entry, suffix, excluded) && path_in(directory, entry.name) == path {
                    assert(files[files.len() - 1] == path);
                }
                if files.contains(path) && !before.contains(path) {
                    let k = choose|k: int| 0 <= k < files.len() && files[k] == path;
                    if k < before.len() {
                        assert(before[k] == path);
                    }
                    assert(names_selected(
                        directory,
                        entries[entries.len() - 1],
                        suffix,
                        excluded,
                        path,
                    ));
                }
                if exists|i: int|
                    0 <= i < entries.len() && names_selected(
                        directory,
                        #[trigger] entries[i],
                        suffix,
                        excluded,
                        path,
                    ) {
                    let i = choose|i: int|
                        0 <= i < entries.len() && names_selected(
                            directory,
                            #[trigger] entries[i],
                            suffix,
                            excluded,
                            path,
                        );
                    if i < rest.len() {
                        assert(rest[i] == entries[i]);
                    }
                }
            },
            _ => {},
        }
    }
}

/// Whether an entry is readable, selected, and has this path.
pub open spec fn names_selected(
    directory: Seq<u16>,
    entry: Result<EntryModel, Status>,
    suffix: Seq<char>,
    excluded: Option<Seq<char>>,
    path: Seq<u16>,
) -> bool {
    entry matches Ok(entry) && selected(entry, suffix, excluded) && path_in(directory, entry.name)
        == path
}

/// No file is both a system extension and a configuration extension, and
/// every `*.raw` file with an ASCII name is one of them.
pub proof fn law_extensions_are_told_apart(entry: EntryModel)
    ensures
        ({
            let sysext = CompanionSource::SystemExtensions;
            let confext = CompanionSource::ConfigurationExtensions;
            let is_sysext = selected(entry, sysext.spec_suffix(), sysext.spec_excluded_suffix());
            let is_confext = selected(entry, confext.spec_suffix(), confext.spec_excluded_suffix());
            &&& !(is_sysext && is_confext)
            &&& entry.regular_file && all_ascii(entry.name) && ends_with_ignoring_case(
                ascii_text(entry.name),
                ".raw"@,
            ) ==> is_sysext || is_confext
        }),
{
}

/// The entries of a directory that was read without an error.
pub open spec fn readable(entries: Seq<EntryModel>) -> Seq<Result<EntryModel, Status>> {
    entries.map_values(|entry: EntryModel| Ok::<EntryModel, Status>(entry))
}

proof fn lemma_found_count(
    directory: Seq<u16>,
    entries: Seq<EntryModel>,
    suffix: Seq<char>,
    excluded: Option<Seq<char>>,
    path: Seq<u16>,
)
    ensures
        found_files(directory, readable(entries), suffix, excluded) is Ok,
        found_files(directory, readable(entries), suffix, excluded)->Ok_0.to_multiset().count(path)
            == entries.to_multiset().filter(
            |entry: EntryModel|
                selected(entry, suffix, excluded) && path_in(directory, entry.name) == path,
        ).len(),
    decreases entries.len(),
{
    broadcast use group_to_multiset_ensures;
    broadcast use vstd::multiset::group_multiset_axioms;

    let keep = |entry: EntryModel|
        selected(entry, suffix, excluded) && path_in(directory, entry.name) == path;
    if entries.len() == 0 {
        assert(entries.to_multiset().filter(keep) =~= Multiset::empty());
        assert(Seq::<Seq<u16>>::empty().to_multiset() =~= Multiset::empty());
    } else {
        let rest = entries.drop_last();
        let last = entries.last();
        lemma_found_count(directory, rest, suffix, excluded, path);
        assert(readable(entries).drop_last() =~= readable(rest));
        assert(entries =~= rest.push(last));
        let before = found_files(directory, readable(rest), suffix, excluded)->Ok_0;
        assert(entries.to_multiset() =~= rest.to_multiset().insert(last));
        if keep(last) {
            assert(entries.to_multiset().filter(keep) =~= rest.to_multiset().filter(keep).insert(
                last,
            ));
        } else {
            assert(entries.to_multiset().filter(keep) =~= rest.to_multiset().filter(keep));
        }
        if selected(last, suffix, excluded) {
            assert(before.push(path_in(directory, last.name)).to_multiset()
                =~= before.to_multiset().insert(path_in(directory, last.name)));
        }
    }
}

/// Directories that list the same entries in different orders lead to the same
/// files, up to their order.
pub proof fn law_found_files_are_those_of_the_directory(
    directory: Seq<u16>,
    a: Seq<EntryModel>,
    b: Seq<EntryModel>,
    suffix: Seq<char>,
    excluded: Option<Seq<char>>,
)
    requires
        a.to_multiset() == b.to_multiset(),
    ensures
        found_files(directory, readable(a), suffix, excluded) is Ok,
        found_files(directory, readable(b), suffix, excluded) is Ok,
        found_files(directory, readable(a), suffix, excluded)->Ok_0.to_multiset() == found_files(
            directory,
            readable(b),
            suffix,
            excluded,
        )->Ok_0.to_multiset(),
{
    let found_a = found_files(directory, readable(a), suffix, excluded)->Ok_0;
    let found_b = found_files(directory, readable(b), suffix, excluded)->Ok_0;
    assert forall|path: Seq<u16>|
        found_a.to_multiset().count(path) == found_b.to_multiset().count(path) by {
        lemma_found_count(directory, a, suffix, excluded, path);
        lemma_found_count(directory, b, suffix, excluded, path);
    }
    lemma_found_count(directory, a, suffix, excluded, Seq::empty());
    lemma_found_count(directory, b, suffix, excluded, Seq::empty());
    assert(found_a.to_multiset() =~= found_b.to_multiset());
}

/// The archive of an extension does not depend on the order in which the
/// directory lists its files.
pub proof fn law_extension_archives_are_stable(
    source: CompanionSource,
    directory: Seq<u16>,
    a: Seq<EntryModel>,
    b: Seq<EntryModel>,
)
    requires
        source != CompanionSource::Credentials,
        a.to_multiset() == b.to_multiset(),
    ensures
        ({
            let suffix = source.spec_suffix();
            let excluded = source.spec_excluded_suffix();
            source.arranged(found_files(directory, readable(a), suffix, excluded)->Ok_0)
                == source.arranged(found_files(directory, readable(b), suffix, excluded)->Ok_0)
        }),
{
    let suffix = source.spec_suffix();
    let excluded = source.spec_excluded_suffix();
    let found_a = found_files(directory, readable(a), suffix, excluded)->Ok_0;
    let found_b = found_files(directory, readable(b), suffix, excluded)->Ok_0;
    law_found_files_are_those_of_the_directory(directory, a, b, suffix, excluded);
    law_sorting_forgets_the_order(found_a, found_b);
}

/// The preferred drop-in directory wins if it exists, whatever else exists;
/// the historical one is used only if the preferred one does not exist.
pub proof fn law_preferred_dropin_directory_wins(image_path: Seq<char>, first: bool, second: bool)
    requires
        ucs2(crate::dropin_paths::dropin_directory(image_path)) is Some,
        ucs2(crate::dropin_paths::legacy_dropin_directory(image_path)) is Some,
    ensures
        ({
            let preferred = ucs2(crate::dropin_paths::dropin_directory(image_path))->0;
            let legacy = ucs2(crate::dropin_paths::legacy_dropin_directory(image_path))->0;
            let start = DropinState::initial(Some(image_path));
            start.next(image_path, first).next(image_path, second) == DropinState::Finished(
                Ok(
                    if first {
                        Some(normalized(preferred))
                    } else if second {
                        Some(normalized(legacy))
                    } else {
                        None
                    },
                ),
            )
        }),
{
}

} // verus!

//! What an addon discovery looks at before it ends, and which command lines
//! come of it, told from the requests and their outcomes.

use crate::addon_laws::{answers, collected};
use crate::addons::{addon_cmdline, image_cmdline, AddonReplyModel, AddonRequestModel, AddonState};
use crate::cmdline::mangled;
use crate::companions::{found_files, EntryModel};
use crate::pe::{first_named, parsed_pe, PeLayout, PeModel};
use crate::status::Status;
use crate::ucs2::{law_path_order_is_total, path_order, ucs2};
use vstd::prelude::*;
use vstd::seq_lib::*;

verus! {

/// What was requested after the first `k` outcomes.
pub open spec fn asked(
    start: AddonState,
    replies: Seq<AddonReplyModel>,
    k: int,
) -> AddonRequestModel {
    collected(start, replies.take(k)).request()
}

/// Whether the drop-in directory was looked for, and read if it is there.
pub open spec fn dropin_was_visited(
    start: AddonState,
    replies: Seq<AddonReplyModel>,
    dropin: Seq<u16>,
) -> bool {
    exists|k: int|
        1 <= k < replies.len() && #[trigger] asked(start, replies, k)
            == AddonRequestModel::ProbeExists(dropin) && (replies[k] == AddonReplyModel::Exists(
            true,
        ) ==> exists|m: int|
            k < m < replies.len() && #[trigger] asked(start, replies, m)
                == AddonRequestModel::ListDirectory(dropin))
}

spec fn visit_fits(
    start: AddonState,
    replies: Seq<AddonReplyModel>,
    dropin: Seq<u16>,
) -> bool {
    let state = collected(start, replies);
    let n = replies.len() as int;
    &&& state.dropin == Some(dropin)
    &&& state.local ==> n >= 1
    &&& state.stage is Finished ==> state.local
    &&& state.local && state.stage is List ==> n >= 2 && asked(start, replies, n - 1)
        == AddonRequestModel::ProbeExists(dropin)
    &&& state.local && !(state.stage is Probe || state.stage is List) ==> dropin_was_visited(
        start,
        replies,
        dropin,
    )
}

proof fn lemma_asked_earlier(start: AddonState, replies: Seq<AddonReplyModel>, k: int)
    requires
        replies.len() > 0,
        0 <= k < replies.len(),
    ensures
        asked(start, replies, k) == asked(start, replies.drop_last(), k),
{
    assert(replies.take(k) == replies.drop_last().take(k));
}

proof fn lemma_visit(start: AddonState, replies: Seq<AddonReplyModel>, dropin: Seq<u16>)
    requires
        start.dropin == Some(dropin),
        !start.local,
        start.stage is Probe,
        answers(start, replies),
    ensures
        visit_fits(start, replies, dropin),
    decreases replies.len(),
{
    if replies.len() > 0 {
        let earlier = replies.drop_last();
        lemma_visit(start, earlier, dropin);
        let before = collected(start, earlier);
        let state = collected(start, replies);
        let n = replies.len() as int;
        assert(replies.take(n - 1) == earlier);
        assert(asked(start, replies, n - 1) == before.request());
        if dropin_was_visited(start, earlier, dropin) {
            let k = choose|k: int|
                1 <= k < earlier.len() && #[trigger] asked(start, earlier, k)
                    == AddonRequestModel::ProbeExists(dropin) && (earlier[k]
                    == AddonReplyModel::Exists(true) ==> exists|m: int|
                    k < m < earlier.len() && #[trigger] asked(start, earlier, m)
                        == AddonRequestModel::ListDirectory(dropin));
            lemma_asked_earlier(start, replies, k);
            assert(replies[k] == earlier[k]);
            if earlier[k] == AddonReplyModel::Exists(true) {
                let m = choose|m: int|
                    k < m < earlier.len() && #[trigger] asked(start, earlier, m)
                        == AddonRequestModel::ListDirectory(dropin);
                lemma_asked_earlier(start, replies, m);
            }
            assert(dropin_was_visited(start, replies, dropin));
        }
        if before.local && before.stage is Probe && state.stage is Finished {
            assert(asked(start, replies, n - 1) == AddonRequestModel::ProbeExists(dropin));
            assert(replies[n - 1] == replies.last());
            assert(dropin_was_visited(start, replies, dropin));
        }
        if before.local && before.stage is List {
            lemma_asked_earlier(start, replies, n - 2);
            assert(asked(start, replies, n - 2) == AddonRequestModel::ProbeExists(dropin));
            assert(asked(start, replies, n - 1) == AddonRequestModel::ListDirectory(dropin));
            assert(dropin_was_visited(start, replies, dropin));
        }
    }
}

/// A discovery for an image with a drop-in directory never ends before it has
/// looked for that directory, and has read it if it is there: whatever became
/// of the directory for all images.
pub proof fn law_dropin_directory_is_always_visited(
    dropin: Seq<u16>,
    uki_uname: Option<Seq<char>>,
    secure_boot_enabled: bool,
    replies: Seq<AddonReplyModel>,
)
    requires
        answers(AddonState::initial(Some(dropin), uki_uname, secure_boot_enabled), replies),
        collected(
            AddonState::initial(Some(dropin), uki_uname, secure_boot_enabled),
            replies,
        ).request() == AddonRequestModel::Finished,
    ensures
        dropin_was_visited(
            AddonState::initial(Some(dropin), uki_uname, secure_boot_enabled),
            replies,
            dropin,
        ),
{
    lemma_visit(
        AddonState::initial(Some(dropin), uki_uname, secure_boot_enabled),
        replies,
        dropin,
    );
}

/// The directory for all images is `\loader\addons`, and it is looked for
/// first. A discovery ends without another request only if there is no such
/// directory and no drop-in directory.
pub proof fn law_global_directory_is_visited_first(
    dropin: Option<Seq<u16>>,
    uki_uname: Option<Seq<char>>,
    secure_boot_enabled: bool,
)
    ensures
        ({
            let start = AddonState::initial(dropin, uki_uname, secure_boot_enabled);
            let global = ucs2("\\loader\\addons"@)->0;
            &&& start.request() == AddonRequestModel::ProbeExists(global)
            &&& start.next(AddonReplyModel::Exists(true)).request()
                == AddonRequestModel::ListDirectory(global)
            &&& start.next(AddonReplyModel::Exists(false)).request() == match dropin {
                Some(directory) => AddonRequestModel::ProbeExists(directory),
                None => AddonRequestModel::Finished,
            }
            &&& start.addons == Seq::<Seq<char>>::empty()
        }),
{
}

/// Whether a file was handed to the firmware after the first `k` outcomes.
pub open spec fn was_loaded(
    start: AddonState,
    replies: Seq<AddonReplyModel>,
    k: int,
    file: Seq<u16>,
) -> bool {
    exists|m: int|
        k < m < replies.len() && #[trigger] asked(start, replies, m)
            == AddonRequestModel::SecureLoad(file)
}

spec fn loading_fits(
    start: AddonState,
    replies: Seq<AddonReplyModel>,
    k: int,
    files: Seq<Seq<u16>>,
) -> bool {
    let state = collected(start, replies);
    ||| forall|j: int| 0 <= j < files.len() ==> was_loaded(start, replies, k, #[trigger] files[j])
    ||| {
        &&& state.files == files
        &&& state.done < files.len()
        &&& state.stage is SecureLoad || state.stage is Read || state.stage is Verify
        &&& forall|j: int|
            0 <= j < state.done ==> was_loaded(start, replies, k, #[trigger] files[j])
        &&& state.stage is Read || state.stage is Verify ==> was_loaded(
            start,
            replies,
            k,
            files[state.done as int],
        )
    }
}

proof fn lemma_loaded_grows(
    start: AddonState,
    replies: Seq<AddonReplyModel>,
    k: int,
    file: Seq<u16>,
)
    requires
        replies.len() > 0,
        was_loaded(start, replies.drop_last(), k, file),
        0 <= k,
    ensures
        was_loaded(start, replies, k, file),
{
    let earlier = replies.drop_last();
    let m = choose|m: int|
        k < m < earlier.len() && #[trigger] asked(start, earlier, m)
            == AddonRequestModel::SecureLoad(file);
    lemma_asked_earlier(start, replies, m);
}

proof fn lemma_loading(
    start: AddonState,
    replies: Seq<AddonReplyModel>,
    k: int,
    directory: Seq<u16>,
    entries: Seq<Result<EntryModel, Status>>,
    found: Seq<Seq<u16>>,
)
    requires
        answers(start, replies),
        0 <= k < replies.len(),
        asked(start, replies, k) == AddonRequestModel::ListDirectory(directory),
        replies[k] == AddonReplyModel::Entries(entries),
        found_files(directory, entries, ".addon.efi"@, None) == Ok::<Seq<Seq<u16>>, Status>(found),
    ensures
        loading_fits(start, replies, k, found.sort_by(path_order())),
    decreases replies.len(),
{
    let files = found.sort_by(path_order());
    let earlier = replies.drop_last();
    let before = collected(start, earlier);
    let state = collected(start, replies);
    let n = replies.len() as int;
    assert(replies.take(n - 1) == earlier);
    if k == n - 1 {
        assert(before.request() == AddonRequestModel::ListDirectory(directory));
        assert(before.stage is List);
        assert(replies.last() == AddonReplyModel::Entries(entries));
    } else {
        lemma_asked_earlier(start, replies, k);
        assert(earlier[k] == replies[k]);
        lemma_loading(start, earlier, k, directory, entries, found);
        assert forall|j: int|
            0 <= j < files.len() && was_loaded(start, earlier, k, files[j]) implies was_loaded(
            start,
            replies,
            k,
            #[trigger] files[j],
        ) by {
            lemma_loaded_grows(start, replies, k, files[j]);
        }
        if forall|j: int|
            0 <= j < files.len() ==> was_loaded(start, earlier, k, #[trigger] files[j]) {
            assert(forall|j: int|
                0 <= j < files.len() ==> was_loaded(start, replies, k, #[trigger] files[j]));
        } else {
            if before.stage is SecureLoad {
                assert(asked(start, replies, n - 1) == AddonRequestModel::SecureLoad(
                    files[before.done as int],
                ));
            }
            assert(was_loaded(start, replies, k, files[before.done as int]));
            if state.stage is Read || state.stage is Verify {
            } else if before.done + 1 < files.len() {
                assert(state.stage is SecureLoad);
                assert(state.done == before.done + 1);
            } else {
                assert forall|j: int| 0 <= j < files.len() implies was_loaded(
                    start,
                    replies,
                    k,
                    #[trigger] files[j],
                ) by {
                    if j < before.done {
                        assert(was_loaded(start, earlier, k, files[j]));
                    } else {
                        assert(j == before.done);
                    }
                }
            }
        }
    }
}

/// Every addon file that a directory lists is handed to the firmware before
/// the discovery ends.
pub proof fn law_every_listed_addon_is_loaded(
    start: AddonState,
    replies: Seq<AddonReplyModel>,
    k: int,
    directory: Seq<u16>,
    entries: Seq<Result<EntryModel, Status>>,
    found: Seq<Seq<u16>>,
    file: Seq<u16>,
)
    requires
        answers(start, replies),
        collected(start, replies).request() == AddonRequestModel::Finished,
        0 <= k < replies.len(),
        asked(start, replies, k) == AddonRequestModel::ListDirectory(directory),
        replies[k] == AddonReplyModel::Entries(entries),
        found_files(directory, entries, ".addon.efi"@, None) == Ok::<Seq<Seq<u16>>, Status>(found),
        found.contains(file),
    ensures
        was_loaded(start, replies, k, file),
{
    broadcast use group_to_multiset_ensures;

    lemma_loading(start, replies, k, directory, entries, found);
    law_path_order_is_total();
    found.lemma_sort_by_ensures(path_order());
    let files = found.sort_by(path_order());
    assert(found.to_multiset().contains(file));
    assert(files.contains(file));
    let j = choose|j: int| 0 <= j < files.len() && files[j] == file;
    assert(was_loaded(start, replies, k, files[j]));
}

/// The command lines after one more image, which may have none.
pub open spec fn with_cmdline(addons: Seq<Seq<char>>, cmdline: Option<Seq<char>>) -> Seq<
    Seq<char>,
> {
    match cmdline {
        Some(cmdline) => addons.push(cmdline),
        None => addons,
    }
}

/// What an outcome leads to: an image that the firmware loaded takes effect as
/// it was loaded. One that it refused is read, and takes effect as it was read
/// without Secure Boot; under Secure Boot the shim has to verify those bytes
/// first. A directory that is there is read.
pub proof fn law_addons_take_effect(state: AddonState, reply: AddonReplyModel)
    requires
        state.valid(),
        state.awaits(reply),
    ensures
        match (state.request(), reply) {
            (
                AddonRequestModel::ProbeExists(directory),
                AddonReplyModel::Exists(true),
            ) => state.next(reply).request() == AddonRequestModel::ListDirectory(directory)
                && state.next(reply).addons == state.addons,
            (AddonRequestModel::SecureLoad(_), AddonReplyModel::Image(Some(data))) => state.next(
                reply,
            ).addons == with_cmdline(
                state.addons,
                image_cmdline(data, PeLayout::Loaded, state.uki_uname),
            ),
            (AddonRequestModel::SecureLoad(file), AddonReplyModel::Image(None)) => state.next(
                reply,
            ).request() == AddonRequestModel::ReadFile(file) && state.next(reply).addons
                == state.addons,
            (AddonRequestModel::ReadFile(file), AddonReplyModel::Contents(Some(data))) =>
                if state.secure_boot_enabled {
                state.next(reply).request() == AddonRequestModel::ShimVerify(file, data)
                    && state.next(reply).addons == state.addons
            } else {
                state.next(reply).addons == with_cmdline(
                    state.addons,
                    image_cmdline(data, PeLayout::Disk, state.uki_uname),
                )
            },
            (AddonRequestModel::ShimVerify(_, data), AddonReplyModel::Verified(true)) =>
                state.next(reply).addons == with_cmdline(
                state.addons,
                image_cmdline(data, PeLayout::Disk, state.uki_uname),
            ),
            _ => state.next(reply).addons == state.addons,
        },
        state.next(reply).uki_uname == state.uki_uname,
        state.next(reply).secure_boot_enabled == state.secure_boot_enabled,
        state.next(reply).dropin == state.dropin,
{
}

/// One file after the other is handed to the firmware, in the order of their
/// names, and none is passed over.
pub proof fn law_addon_files_follow_each_other(state: AddonState, reply: AddonReplyModel)
    requires
        state.valid(),
        state.awaits(reply),
        state.stage is SecureLoad || state.stage is Read || state.stage is Verify,
        !(state.next(reply).stage is Read || state.next(reply).stage is Verify),
    ensures
        state.done + 1 < state.files.len() ==> state.next(reply).files == state.files
            && state.next(reply).done == state.done + 1 && state.next(reply).request()
            == AddonRequestModel::SecureLoad(state.files[state.done as int + 1]),
        state.done + 1 >= state.files.len() && !state.local && state.dropin is Some ==> state.next(
            reply,
        ).request() == AddonRequestModel::ProbeExists(state.dropin->0),
        state.done + 1 >= state.files.len() && (state.local || state.dropin is None) ==> state.next(
            reply,
        ).request() == AddonRequestModel::Finished,
{
}

/// An image contributes its command line exactly if it is a PE binary without
/// a `.linux` section, names no other kernel than the booted one, and has a
/// command line that is not blank. The bytes are read by the layout that they
/// came in.
pub proof fn law_applicable_addons_contribute(
    data: Seq<u8>,
    layout: PeLayout,
    pe: PeModel,
    uki_uname: Option<Seq<char>>,
    cmdline: Seq<char>,
)
    ensures
        image_cmdline(data, layout, uki_uname) == (match parsed_pe(data, layout) {
            Ok(parsed) => addon_cmdline(parsed, uki_uname),
            Err(_) => None,
        }),
        parsed_pe(data, layout) matches Ok(parsed) ==> parsed.data == data && parsed.layout
            == layout,
        addon_cmdline(pe, uki_uname) == Some(cmdline) <==> {
            &&& first_named(pe.sections, ".linux"@) is None
            &&& uki_uname is None || pe.text(".uname"@) is None || pe.text(".uname"@) == uki_uname
            &&& pe.text(".cmdline"@) is Some
            &&& cmdline == mangled(pe.text(".cmdline"@)->0)
            &&& cmdline.len() > 0
        },
{
}

} // verus!

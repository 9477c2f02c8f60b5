//! What holds of every addon discovery.

use crate::addons::{
    addon_cmdline, image_cmdline, AddonReplyModel, AddonRequestModel, AddonStage, AddonState,
};
use crate::cmdline::{is_blank, law_mangled_is_clean};
use crate::companions::EntryModel;
use crate::discovery_laws::{law_found_files_are_those_of_the_directory, readable};
use crate::pe::{first_named, PeLayout, PeModel};
use crate::ucs2::{law_path_order_is_total, law_sorting_forgets_the_order, path_order};
use vstd::prelude::*;
use vstd::relations::*;
use vstd::seq_lib::*;

verus! {

/// The state of a discovery after the given outcomes.
pub open spec fn collected(start: AddonState, replies: Seq<AddonReplyModel>) -> AddonState
    decreases replies.len(),
{
    if replies.len() == 0 {
        start
    } else {
        collected(start, replies.drop_last()).next(replies.last())
    }
}

/// Whether each outcome is one that the request before it can have.
pub open spec fn answers(start: AddonState, replies: Seq<AddonReplyModel>) -> bool
    decreases replies.len(),
{
    if replies.len() == 0 {
        true
    } else {
        &&& answers(start, replies.drop_last())
        &&& collected(start, replies.drop_last()).awaits(replies.last())
    }
}

/// Under Secure Boot, an addon takes effect only if the firmware loaded it or
/// if the shim verified it.
pub proof fn law_secure_boot_admits_only_verified_addons(
    state: AddonState,
    reply: AddonReplyModel,
)
    requires
        state.secure_boot_enabled,
        state.awaits(reply),
        state.next(reply).addons != state.addons,
    ensures
        (state.stage is SecureLoad && reply matches AddonReplyModel::Image(Some(_))) || (
        state.stage is Verify && reply == AddonReplyModel::Verified(true)),
{
}

/// What takes effect after the shim's verification is what the shim was asked
/// to verify.
pub proof fn law_verified_bytes_are_used(state: AddonState)
    requires
        state.valid(),
        state.stage is Verify,
    ensures
        state.request() == AddonRequestModel::ShimVerify(state.file(), state.unverified),
        state.next(AddonReplyModel::Verified(true)).addons == (match image_cmdline(
            state.unverified,
            PeLayout::Disk,
            state.uki_uname,
        ) {
            Some(cmdline) => state.addons.push(cmdline),
            None => state.addons,
        }),
        state.next(AddonReplyModel::Verified(false)).addons == state.addons,
{
}

/// A unified kernel image is never taken for an addon.
pub proof fn law_kernel_images_are_no_addons(pe: PeModel, uki_uname: Option<Seq<char>>)
    requires
        first_named(pe.sections, ".linux"@) is Some,
    ensures
        addon_cmdline(pe, uki_uname) is None,
{
}

/// An addon for another kernel has no effect.
pub proof fn law_addons_for_other_kernels_have_no_effect(
    pe: PeModel,
    uki_uname: Seq<char>,
    addon_uname: Seq<char>,
)
    requires
        pe.text(".uname"@) == Some(addon_uname),
        addon_uname != uki_uname,
    ensures
        addon_cmdline(pe, Some(uki_uname)) is None,
{
}

/// What an addon contributes is not empty, holds no control character, and
/// has no blank at either end.
pub proof fn law_addon_cmdlines_are_clean(pe: PeModel, uki_uname: Option<Seq<char>>)
    ensures
        addon_cmdline(pe, uki_uname) matches Some(cmdline) ==> {
            &&& cmdline.len() > 0
            &&& !is_blank(cmdline[0])
            &&& !is_blank(cmdline.last())
            &&& forall|i: int|
                0 <= i < cmdline.len() ==> (is_blank(#[trigger] cmdline[i]) ==> cmdline[i] == ' ')
        },
{
    if let Some(text) = pe.text(".cmdline"@) {
        law_mangled_is_clean(text);
    }
}

/// Every state that a discovery reaches is valid, and the files of the current
/// directory are in the order of their names.
pub proof fn law_addons_are_taken_in_file_name_order(
    dropin: Option<Seq<u16>>,
    uki_uname: Option<Seq<char>>,
    secure_boot_enabled: bool,
    replies: Seq<AddonReplyModel>,
)
    requires
        answers(AddonState::initial(dropin, uki_uname, secure_boot_enabled), replies),
    ensures
        ({
            let state = collected(
                AddonState::initial(dropin, uki_uname, secure_boot_enabled),
                replies,
            );
            &&& state.valid()
            &&& sorted_by(state.files, path_order())
        }),
    decreases replies.len(),
{
    let start = AddonState::initial(dropin, uki_uname, secure_boot_enabled);
    if replies.len() > 0 {
        law_addons_are_taken_in_file_name_order(
            dropin,
            uki_uname,
            secure_boot_enabled,
            replies.drop_last(),
        );
        let prior = collected(start, replies.drop_last());
        if let AddonReplyModel::Entries(entries) = replies.last() {
            if let Ok(files) = crate::companions::found_files(
                prior.directory(),
                entries,
                ".addon.efi"@,
                None,
            ) {
                law_path_order_is_total();
                files.lemma_sort_by_ensures(path_order());
            }
        }
    }
}

/// The order in which a directory lists its files has no influence.
pub proof fn law_listing_order_is_irrelevant(
    state: AddonState,
    a: Seq<EntryModel>,
    b: Seq<EntryModel>,
)
    requires
        a.to_multiset() == b.to_multiset(),
    ensures
        state.after_listing(readable(a)) == state.after_listing(readable(b)),
{
    law_found_files_are_those_of_the_directory(state.directory(), a, b, ".addon.efi"@, None);
    law_sorting_forgets_the_order(
        crate::companions::found_files(state.directory(), readable(a), ".addon.efi"@, None)->Ok_0,
        crate::companions::found_files(state.directory(), readable(b), ".addon.efi"@, None)->Ok_0,
    );
}

/// Addons are only ever added at the end, and the image-specific directory
/// comes last: global addons precede image-specific ones.
pub proof fn law_global_addons_come_first(state: AddonState, reply: AddonReplyModel)
    requires
        state.awaits(reply),
    ensures
        state.addons.is_prefix_of(state.next(reply).addons),
        state.next(reply).addons.len() <= state.addons.len() + 1,
        state.local ==> state.next(reply).local,
        state.local && state.next(reply).stage is Probe ==> false,
{
}

/// How far a discovery is from its end: directories that were not read yet
/// first, then the steps for the files of the current one.
pub open spec fn distance(state: AddonState) -> (nat, nat) {
    let directories: nat = if state.stage is Finished {
        0
    } else if state.stage is Probe || state.stage is List {
        if !state.local && state.dropin is Some {
            4
        } else {
            2
        }
    } else if !state.local && state.dropin is Some {
        3
    } else {
        1
    };
    let left = if state.done < state.files.len() {
        3 * (state.files.len() - state.done)
    } else {
        0
    };
    let steps: int = match state.stage {
        AddonStage::Probe => 1,
        AddonStage::List => 0,
        AddonStage::SecureLoad => left,
        AddonStage::Read => left - 1,
        AddonStage::Verify => left - 2,
        AddonStage::Finished => 0,
    };
    (directories, steps as nat)
}

/// Every outcome brings a discovery closer to its end.
pub proof fn law_addon_discovery_terminates(state: AddonState, reply: AddonReplyModel)
    requires
        state.valid(),
        state.awaits(reply),
    ensures
        ({
            let before = distance(state);
            let after = distance(state.next(reply));
            after.0 < before.0 || (after.0 == before.0 && after.1 < before.1)
        }),
{
}

} // verus!

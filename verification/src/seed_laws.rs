//! What holds of every refresh of the random seed, whatever the firmware
//! answers.

use crate::bytes::{le_bytes, le_limit, le_value, lemma_le_bytes_len, lemma_le_round_trip};
use crate::random_seed::{
    chunk, chunks, file_seed, hash_input, hash_key, hash_label, key_is_derived, seed_table,
    table_seed, SeedReplyModel, SeedRequestModel, SeedStage, SeedState, SeedTime,
    DESIRED_SEED_SIZE, INPUT_SIZE_MAX, SEED_SIZE_MAX,
};
use crate::status::Status;
use vstd::prelude::*;

verus! {

/// The state after the first requests had the outcomes `replies`.
pub open spec fn run(start: SeedState, replies: Seq<SeedReplyModel>) -> SeedState
    decreases replies.len(),
{
    if replies.len() == 0 {
        start
    } else {
        run(start, replies.drop_last()).next(replies.last())
    }
}

/// Whether each of `replies` is an outcome that the request before it can
/// have.
pub open spec fn plausible(start: SeedState, replies: Seq<SeedReplyModel>) -> bool
    decreases replies.len(),
{
    replies.len() > 0 ==> plausible(start, replies.drop_last()) && run(
        start,
        replies.drop_last(),
    ).awaits(replies.last())
}

/// A refresh under way: it began with `previous`, and `replies` came in.
pub open spec fn under_way(
    previous: Option<Seq<u8>>,
    secure_boot_enabled: bool,
    replies: Seq<SeedReplyModel>,
) -> bool {
    &&& previous matches Some(seed) ==> seed.len() <= INPUT_SIZE_MAX
    &&& plausible(SeedState::initial(previous, secure_boot_enabled), replies)
}

/// The state of a refresh under way.
pub open spec fn reached(
    previous: Option<Seq<u8>>,
    secure_boot_enabled: bool,
    replies: Seq<SeedReplyModel>,
) -> SeedState {
    run(SeedState::initial(previous, secure_boot_enabled), replies)
}

/// One step keeps a state valid.
pub proof fn lemma_next_valid(state: SeedState, reply: SeedReplyModel)
    requires
        state.valid(),
        state.awaits(reply),
    ensures
        state.next(reply).valid(),
{
    lemma_le_bytes_len(0, 8);
    match reply {
        SeedReplyModel::Count(Ok(count)) => lemma_le_bytes_len(count as nat, 8),
        SeedReplyModel::Time(Some(time)) => {
            lemma_le_bytes_len(time.year as nat, 2);
            lemma_le_bytes_len(time.nanosecond as nat, 4);
            let zone: int = match time.time_zone {
                Some(zone) => zone as int,
                None => 0,
            };
            lemma_le_bytes_len((zone % 0x1_0000) as nat, 2);
        },
        _ => {},
    }
}

/// Every state that a refresh reaches is valid.
pub proof fn law_reached_states_are_valid(
    previous: Option<Seq<u8>>,
    secure_boot_enabled: bool,
    replies: Seq<SeedReplyModel>,
)
    requires
        under_way(previous, secure_boot_enabled, replies),
    ensures
        reached(previous, secure_boot_enabled, replies).valid(),
    decreases replies.len(),
{
    if replies.len() > 0 {
        law_reached_states_are_valid(previous, secure_boot_enabled, replies.drop_last());
        lemma_next_valid(
            reached(previous, secure_boot_enabled, replies.drop_last()),
            replies.last(),
        );
    }
}

/// How many requests a refresh at this stage still makes at most.
pub open spec fn requests_left(stage: SeedStage) -> nat {
    match stage {
        SeedStage::Entropy => 17,
        SeedStage::Token => 16,
        SeedStage::Open => 15,
        SeedStage::Create => 14,
        SeedStage::Size => 13,
        SeedStage::Read => 12,
        SeedStage::Rewind => 11,
        SeedStage::Count => 10,
        SeedStage::Time => 9,
        SeedStage::TailSeek => 8,
        SeedStage::TailWrite => 7,
        SeedStage::TailFlush => 6,
        SeedStage::TailRewind => 5,
        SeedStage::WriteSeed => 4,
        SeedStage::FlushSeed => 3,
        SeedStage::Install => 2,
        SeedStage::Erase => 1,
        SeedStage::Finished(_) => 0,
    }
}

/// A refresh always comes to an end.
pub proof fn law_refresh_terminates(state: SeedState, reply: SeedReplyModel)
    requires
        state.awaits(reply),
    ensures
        requests_left(state.next(reply).stage) < requests_left(state.stage),
{
}

/// Whether a reply reports that a request was carried out.
pub open spec fn succeeded(reply: SeedReplyModel) -> bool {
    reply matches SeedReplyModel::Done(result) && result is Ok
}

/// The seed is refreshed on disk before it is passed on: a table is only
/// installed right after the new file contents, derived from the same inputs,
/// were written and flushed successfully.
pub proof fn law_disk_before_kernel(
    previous: Option<Seq<u8>>,
    secure_boot_enabled: bool,
    replies: Seq<SeedReplyModel>,
)
    requires
        under_way(previous, secure_boot_enabled, replies),
        reached(previous, secure_boot_enabled, replies).request() is InstallSeedTable,
    ensures
        ({
            let n = replies.len() as int;
            let state = reached(previous, secure_boot_enabled, replies);
            &&& n >= 2
            &&& reached(previous, secure_boot_enabled, replies.take(n - 2)).request()
                == SeedRequestModel::WriteSeedFile(file_seed(state.inputs))
            &&& succeeded(replies[n - 2])
            &&& reached(previous, secure_boot_enabled, replies.take(n - 1)).request()
                == SeedRequestModel::FlushSeedFile
            &&& succeeded(replies[n - 1])
            &&& state.request() == SeedRequestModel::InstallSeedTable(
                seed_table(table_seed(state.inputs)),
            )
        }),
{
    reveal_with_fuel(run, 3);
    reveal_with_fuel(plausible, 3);
    let n = replies.len() as int;
    assert(n >= 1);
    assert(replies.drop_last() == replies.take(n - 1));
    let flushing = reached(previous, secure_boot_enabled, replies.take(n - 1));
    assert(flushing.stage is FlushSeed);
    assert(n >= 2);
    assert(replies.take(n - 1).drop_last() == replies.take(n - 2));
    assert(replies.take(n - 1).last() == replies[n - 2]);
}

/// The table of the previous boot stage is only erased once a new one has been
/// installed.
pub proof fn law_old_table_is_erased_last(
    previous: Option<Seq<u8>>,
    secure_boot_enabled: bool,
    replies: Seq<SeedReplyModel>,
)
    requires
        under_way(previous, secure_boot_enabled, replies),
        reached(previous, secure_boot_enabled, replies).request() is ErasePreviousTable,
    ensures
        ({
            let n = replies.len() as int;
            &&& n >= 1
            &&& reached(previous, secure_boot_enabled, replies.take(n - 1)).request()
                is InstallSeedTable
            &&& succeeded(replies[n - 1])
        }),
{
    let n = replies.len() as int;
    assert(n >= 1);
    assert(replies.drop_last() == replies.take(n - 1));
}

proof fn lemma_constants(
    previous: Option<Seq<u8>>,
    secure_boot_enabled: bool,
    replies: Seq<SeedReplyModel>,
)
    requires
        under_way(previous, secure_boot_enabled, replies),
    ensures
        reached(previous, secure_boot_enabled, replies).has_previous == (previous is Some),
        reached(previous, secure_boot_enabled, replies).secure_boot_enabled == secure_boot_enabled,
    decreases replies.len(),
{
    if replies.len() > 0 {
        lemma_constants(previous, secure_boot_enabled, replies.drop_last());
    }
}

/// A refresh that succeeds has installed a new table, and has erased the old
/// one if there was one.
pub proof fn law_success_means_installed(
    previous: Option<Seq<u8>>,
    secure_boot_enabled: bool,
    replies: Seq<SeedReplyModel>,
)
    requires
        under_way(previous, secure_boot_enabled, replies),
        reached(previous, secure_boot_enabled, replies).request()
            matches SeedRequestModel::Finished(result) && result is Ok,
    ensures
        ({
            let n = replies.len() as int;
            let installed = if previous is Some {
                n - 2
            } else {
                n - 1
            };
            &&& installed >= 0
            &&& reached(previous, secure_boot_enabled, replies.take(installed)).request()
                is InstallSeedTable
            &&& succeeded(replies[installed])
            &&& previous is Some ==> reached(
                previous,
                secure_boot_enabled,
                replies.take(n - 1),
            ).request() is ErasePreviousTable
        }),
{
    let n = replies.len() as int;
    lemma_constants(previous, secure_boot_enabled, replies);
    assert(n >= 1);
    assert(replies.drop_last() == replies.take(n - 1));
    let before = replies.take(n - 1);
    let state = reached(previous, secure_boot_enabled, before);
    lemma_constants(previous, secure_boot_enabled, before);
    if state.stage is Erase {
        law_old_table_is_erased_last(previous, secure_boot_enabled, before);
        assert(before.take(n - 2) == replies.take(n - 2));
        assert(before.last() == replies[n - 2]);
        assert(before.drop_last() == replies.take(n - 2));
        assert(plausible(SeedState::initial(previous, secure_boot_enabled), before));
        lemma_constants(previous, secure_boot_enabled, replies.take(n - 2));
    }
}

/// Whether a request concerns the seed file or the seed tables.
pub open spec fn uses_seed(request: SeedRequestModel) -> bool {
    !(request is AcquireEntropy || request is Finished)
}

/// Under Secure Boot a refresh never gets past the firmware's random number
/// generator without entropy from the firmware: it has either got random bytes
/// from it or a long enough seed from a previous boot stage.
pub proof fn law_secure_boot_requires_firmware_entropy(
    previous: Option<Seq<u8>>,
    replies: Seq<SeedReplyModel>,
)
    requires
        under_way(previous, true, replies),
        uses_seed(reached(previous, true, replies).request()),
    ensures
        replies.len() > 0,
        reached(previous, true, replies).seeded_by_efi,
        (previous matches Some(seed) && seed.len() >= DESIRED_SEED_SIZE) || (
        replies[0] matches SeedReplyModel::Entropy(r) && r is Ok),
    decreases replies.len(),
{
    reveal_with_fuel(run, 2);
    reveal_with_fuel(plausible, 2);
    let before = reached(previous, true, replies.drop_last());
    lemma_constants(previous, true, replies.drop_last());
    if before.stage is Entropy {
        lemma_entropy_comes_first(previous, true, replies.drop_last());
        assert(replies.len() == 1);
        assert(replies.last() == replies[0]);
    } else {
        law_secure_boot_requires_firmware_entropy(previous, replies.drop_last());
        assert(replies.drop_last()[0] == replies[0]);
    }
}

proof fn lemma_entropy_comes_first(
    previous: Option<Seq<u8>>,
    secure_boot_enabled: bool,
    replies: Seq<SeedReplyModel>,
)
    requires
        under_way(previous, secure_boot_enabled, replies),
        reached(previous, secure_boot_enabled, replies).stage is Entropy,
    ensures
        replies.len() == 0,
{
    if replies.len() > 0 {
        law_refresh_terminates(
            reached(previous, secure_boot_enabled, replies.drop_last()),
            replies.last(),
        );
        lemma_requests_bounded(previous, secure_boot_enabled, replies.drop_last());
    }
}

proof fn lemma_requests_bounded(
    previous: Option<Seq<u8>>,
    secure_boot_enabled: bool,
    replies: Seq<SeedReplyModel>,
)
    requires
        under_way(previous, secure_boot_enabled, replies),
    ensures
        requests_left(reached(previous, secure_boot_enabled, replies).stage) + replies.len()
            <= 17,
    decreases replies.len(),
{
    if replies.len() > 0 {
        lemma_requests_bounded(previous, secure_boot_enabled, replies.drop_last());
        law_refresh_terminates(
            reached(previous, secure_boot_enabled, replies.drop_last()),
            replies.last(),
        );
    }
}

/// Without entropy from the firmware, a refresh that gets to the seed file has
/// hashed a system token of at least the size of a seed.
pub proof fn law_unseeded_refresh_requires_token(
    previous: Option<Seq<u8>>,
    secure_boot_enabled: bool,
    replies: Seq<SeedReplyModel>,
)
    requires
        under_way(previous, secure_boot_enabled, replies),
        ({
            let state = reached(previous, secure_boot_enabled, replies);
            &&& uses_seed(state.request())
            &&& state.stage !is Token
            &&& !state.seeded_by_efi
        }),
    ensures
        ({
            let state = reached(previous, secure_boot_enabled, replies);
            &&& state.inputs.len() >= 3
            &&& state.inputs[2].len() >= DESIRED_SEED_SIZE
        }),
    decreases replies.len(),
{
    let before = reached(previous, secure_boot_enabled, replies.drop_last());
    law_reached_states_are_valid(previous, secure_boot_enabled, replies.drop_last());
    if before.stage !is Token {
        law_unseeded_refresh_requires_token(previous, secure_boot_enabled, replies.drop_last());
    }
}

/// The bytes that a reply contributes to the hash in place of the data that it
/// may carry.
pub open spec fn reply_data(r: Result<Seq<u8>, Status>) -> Seq<u8> {
    match r {
        Ok(data) => data,
        Err(_) => Seq::empty(),
    }
}

/// The inputs that are hashed first are, in this order, the seed of the
/// previous boot stage, the firmware's random bytes and the system token, each
/// empty where there is none; once the seed is written there are six.
pub proof fn law_inputs_in_order(
    previous: Option<Seq<u8>>,
    secure_boot_enabled: bool,
    replies: Seq<SeedReplyModel>,
)
    requires
        under_way(previous, secure_boot_enabled, replies),
        reached(previous, secure_boot_enabled, replies).stage !is Finished,
    ensures
        ({
            let state = reached(previous, secure_boot_enabled, replies);
            &&& state.inputs.len() >= 1
            &&& state.inputs[0] == (match previous {
                Some(seed) => seed,
                None => Seq::empty(),
            })
            &&& state.inputs.len() >= 2 ==> replies.len() >= 1 && (
            replies[0] matches SeedReplyModel::Entropy(r) && state.inputs[1] == reply_data(r))
            &&& state.inputs.len() >= 3 ==> replies.len() >= 2 && (
            replies[1] matches SeedReplyModel::Token(r) && state.inputs[2] == reply_data(r))
            &&& key_is_derived(state.stage) ==> state.inputs.len() == 6
        }),
    decreases replies.len(),
{
    law_reached_states_are_valid(previous, secure_boot_enabled, replies);
    if replies.len() > 0 {
        let before = reached(previous, secure_boot_enabled, replies.drop_last());
        law_inputs_in_order(previous, secure_boot_enabled, replies.drop_last());
        law_reached_states_are_valid(previous, secure_boot_enabled, replies.drop_last());
        if before.stage is Entropy {
            lemma_entropy_comes_first(previous, secure_boot_enabled, replies.drop_last());
        }
        if before.stage is Token {
            lemma_requests_bounded(previous, secure_boot_enabled, replies.drop_last());
            assert(replies.drop_last().len() == 1);
        }
        if replies.len() >= 2 {
            assert(replies.drop_last()[0] == replies[0]);
        }
        if replies.len() >= 3 {
            assert(replies.drop_last()[1] == replies[1]);
        }
    }
}

/// The counter as it is hashed: zero if the firmware did not tell it.
pub open spec fn counter_data(r: Result<u64, Status>) -> Seq<u8> {
    match r {
        Ok(count) => le_bytes(count as nat, 8),
        Err(_) => le_bytes(0, 8),
    }
}

/// The time as it is hashed: nothing if the clock could not be read.
pub open spec fn time_data(r: Option<SeedTime>) -> Seq<u8> {
    match r {
        Some(time) => time.entropy_bytes(),
        None => Seq::empty(),
    }
}

/// The remaining inputs are, in this order, the contents of the seed file,
/// empty for a file that is new or as good as new, the monotonic counter and
/// the time.
pub proof fn law_later_inputs_in_order(
    previous: Option<Seq<u8>>,
    secure_boot_enabled: bool,
    replies: Seq<SeedReplyModel>,
)
    requires
        under_way(previous, secure_boot_enabled, replies),
        reached(previous, secure_boot_enabled, replies).stage !is Finished,
    ensures
        ({
            let state = reached(previous, secure_boot_enabled, replies);
            &&& state.inputs.len() >= 4 ==> if state.created {
                state.inputs[3] == Seq::<u8>::empty()
            } else {
                exists|k: int|
                    0 <= k < replies.len() && #[trigger] replies[k] == SeedReplyModel::Contents(
                        Ok(state.inputs[3]),
                    )
            }
            &&& state.inputs.len() >= 5 ==> exists|k: int|
                0 <= k < replies.len() && (#[trigger] replies[k] matches SeedReplyModel::Count(r)
                    && state.inputs[4] == counter_data(r))
            &&& state.inputs.len() >= 6 ==> exists|k: int|
                0 <= k < replies.len() && (#[trigger] replies[k] matches SeedReplyModel::Time(r)
                    && state.inputs[5] == time_data(r))
        }),
    decreases replies.len(),
{
    law_reached_states_are_valid(previous, secure_boot_enabled, replies);
    if replies.len() > 0 {
        let earlier = replies.drop_last();
        let before = reached(previous, secure_boot_enabled, earlier);
        let state = reached(previous, secure_boot_enabled, replies);
        law_later_inputs_in_order(previous, secure_boot_enabled, earlier);
        law_reached_states_are_valid(previous, secure_boot_enabled, earlier);
        lemma_not_created_early(previous, secure_boot_enabled, earlier);
        assert(replies.last() == replies[replies.len() - 1]);
        assert(forall|k: int| 0 <= k < earlier.len() ==> #[trigger] earlier[k] == replies[k]);
        if before.inputs.len() >= 4 {
            assert(state.inputs[3] == before.inputs[3]);
        }
        if before.inputs.len() >= 5 {
            assert(state.inputs[4] == before.inputs[4]);
        }
        if before.inputs.len() >= 6 {
            assert(state.inputs[5] == before.inputs[5]);
        }
    }
}

proof fn lemma_not_created_early(
    previous: Option<Seq<u8>>,
    secure_boot_enabled: bool,
    replies: Seq<SeedReplyModel>,
)
    requires
        under_way(previous, secure_boot_enabled, replies),
        reached(previous, secure_boot_enabled, replies).stage !is Finished,
    ensures
        ({
            let state = reached(previous, secure_boot_enabled, replies);
            state.inputs.len() <= 3 ==> !state.created
        }),
    decreases replies.len(),
{
    if replies.len() > 0 {
        lemma_not_created_early(previous, secure_boot_enabled, replies.drop_last());
        law_reached_states_are_valid(previous, secure_boot_enabled, replies.drop_last());
    }
}

proof fn lemma_chunk_injective(x: Seq<u8>, a: Seq<u8>, y: Seq<u8>, b: Seq<u8>)
    requires
        chunk(x) + a == chunk(y) + b,
        x.len() <= INPUT_SIZE_MAX,
        y.len() <= INPUT_SIZE_MAX,
    ensures
        x == y,
        a == b,
{
    let whole = chunk(x) + a;
    lemma_le_bytes_len(x.len(), 8);
    lemma_le_bytes_len(y.len(), 8);
    assert(whole.take(8) == le_bytes(x.len(), 8));
    assert((chunk(y) + b).take(8) == le_bytes(y.len(), 8));
    assert(INPUT_SIZE_MAX < le_limit(8)) by {
        reveal_with_fuel(le_limit, 9);
    }
    lemma_le_round_trip(x.len(), 8);
    lemma_le_round_trip(y.len(), 8);
    assert(whole.subrange(8, 8 + x.len() as int) == x);
    assert((chunk(y) + b).subrange(8, 8 + y.len() as int) == y);
    assert(whole.skip(8 + x.len() as int) == a);
    assert((chunk(y) + b).skip(8 + y.len() as int) == b);
}

proof fn lemma_chunks_first(inputs: Seq<Seq<u8>>)
    requires
        inputs.len() > 0,
    ensures
        chunks(inputs) == chunk(inputs[0]) + chunks(inputs.drop_first()),
    decreases inputs.len(),
{
    if inputs.len() == 1 {
        assert(chunks(inputs.drop_last()) == Seq::<u8>::empty());
        assert(chunks(inputs.drop_first()) == Seq::<u8>::empty());
        assert(chunks(inputs) == chunk(inputs[0]));
        assert(chunk(inputs[0]) + chunks(inputs.drop_first()) == chunk(inputs[0]));
    } else {
        lemma_chunks_first(inputs.drop_last());
        let rest = inputs.drop_first();
        assert(rest.drop_last() == inputs.drop_last().drop_first());
        assert(rest.last() == inputs.last());
        assert(inputs.drop_last()[0] == inputs[0]);
        assert(chunks(inputs) == chunk(inputs[0]) + chunks(rest));
    }
}

/// The length prefixes make the hash input unambiguous: different inputs are
/// never hashed as the same string.
pub proof fn law_hash_input_is_unambiguous(a: Seq<Seq<u8>>, b: Seq<Seq<u8>>)
    requires
        a.len() == b.len(),
        forall|i: int| 0 <= i < a.len() ==> (#[trigger] a[i]).len() <= INPUT_SIZE_MAX,
        forall|i: int| 0 <= i < b.len() ==> (#[trigger] b[i]).len() <= INPUT_SIZE_MAX,
        hash_input(a) == hash_input(b),
    ensures
        a == b,
{
    let n = hash_label().len() as int;
    assert(hash_input(a).skip(n) == chunks(a));
    assert(hash_input(b).skip(n) == chunks(b));
    lemma_chunks_injective(a, b);
}

proof fn lemma_chunks_injective(a: Seq<Seq<u8>>, b: Seq<Seq<u8>>)
    requires
        a.len() == b.len(),
        forall|i: int| 0 <= i < a.len() ==> (#[trigger] a[i]).len() <= INPUT_SIZE_MAX,
        forall|i: int| 0 <= i < b.len() ==> (#[trigger] b[i]).len() <= INPUT_SIZE_MAX,
        chunks(a) == chunks(b),
    ensures
        a == b,
    decreases a.len(),
{
    if a.len() > 0 {
        lemma_chunks_first(a);
        lemma_chunks_first(b);
        lemma_chunk_injective(
            a[0],
            chunks(a.drop_first()),
            b[0],
            chunks(b.drop_first()),
        );
        lemma_chunks_injective(a.drop_first(), b.drop_first());
        assert(a == seq![a[0]] + a.drop_first());
        assert(b == seq![b[0]] + b.drop_first());
    } else {
        assert(a == b);
    }
}

/// The seed on disk and the seed of the kernel are hashes of different
/// strings.
pub proof fn law_seeds_are_separated(inputs: Seq<Seq<u8>>)
    ensures
        file_seed(inputs) == crate::digest::sha256_of(hash_key(inputs).push(0)),
        table_seed(inputs) == crate::digest::sha256_of(hash_key(inputs).push(1)),
        hash_key(inputs).push(0) != hash_key(inputs).push(1),
{
    assert(hash_key(inputs).push(0).last() != hash_key(inputs).push(1).last());
}

/// A reader of a seed table finds the seed that was put into it.
pub proof fn law_seed_table_round_trip(seed: Seq<u8>)
    requires
        seed.len() <= SEED_SIZE_MAX,
    ensures
        seed_table(seed).len() == 4 + seed.len(),
        le_value(seed_table(seed).take(4)) == seed.len(),
        seed_table(seed).skip(4) == seed,
{
    lemma_le_bytes_len(seed.len(), 4);
    assert(SEED_SIZE_MAX < le_limit(4)) by {
        reveal_with_fuel(le_limit, 5);
    }
    lemma_le_round_trip(seed.len(), 4);
    assert(seed_table(seed).take(4) == le_bytes(seed.len(), 4));
    assert(seed_table(seed).skip(4) == seed);
}

} // verus!

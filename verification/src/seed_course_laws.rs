//! What a refresh of the random seed does to the seed file, what goes into the
//! new seed, and when it gives up, told from the outcomes alone.

use crate::bytes::le_bytes;
use crate::digest::sha256_of;
use crate::random_seed::{
    chunks, file_seed, hash_input, hash_key, hash_label, seed_table, table_seed, SeedReplyModel,
    SeedRequestModel, SeedStage, SeedState, SeedTime,
};
use crate::seed_laws::{reached, run, under_way};
use crate::status::Status;
use vstd::prelude::*;
use vstd::utf8::*;

verus! {

/// A file, and the position in it at which the next access happens.
pub struct Disk {
    pub contents: Seq<u8>,
    pub position: int,
}

/// `contents` with `data` written over it from `position` on.
pub open spec fn overwritten(contents: Seq<u8>, position: int, data: Seq<u8>) -> Seq<u8> {
    let end = position + data.len();
    Seq::new(
        if end > contents.len() {
            end as nat
        } else {
            contents.len()
        },
        |i: int|
            if position <= i < end {
                data[i - position]
            } else if i < contents.len() {
                contents[i]
            } else {
                0u8
            },
    )
}

/// What becomes of the seed file when a request has an outcome.
pub open spec fn touched(disk: Disk, request: SeedRequestModel, reply: SeedReplyModel) -> Disk {
    match (request, reply) {
        (SeedRequestModel::OpenSeedFile, SeedReplyModel::Opened(Ok(true))) => Disk {
            position: 0,
            ..disk
        },
        (SeedRequestModel::CreateSeedFile, SeedReplyModel::Opened(Ok(true))) => Disk {
            contents: Seq::empty(),
            position: 0,
        },
        (SeedRequestModel::ReadSeedFile(_), SeedReplyModel::Contents(Ok(data))) => Disk {
            position: disk.position + data.len(),
            ..disk
        },
        (SeedRequestModel::SeekSeedFile(position), SeedReplyModel::Done(Ok(()))) => Disk {
            position: position as int,
            ..disk
        },
        (SeedRequestModel::WriteSeedFile(data), SeedReplyModel::Done(Ok(()))) => Disk {
            contents: overwritten(disk.contents, disk.position, data),
            position: disk.position + data.len(),
        },
        _ => disk,
    }
}

/// The seed file, which held `old` before, after the given outcomes.
pub open spec fn disk_after(start: SeedState, old: Seq<u8>, replies: Seq<SeedReplyModel>) -> Disk
    decreases replies.len(),
{
    if replies.len() == 0 {
        Disk { contents: old, position: 0 }
    } else {
        touched(
            disk_after(start, old, replies.drop_last()),
            run(start, replies.drop_last()).request(),
            replies.last(),
        )
    }
}

/// Whether every size that was reported is that of the file at that time.
pub open spec fn sizes_are_true(
    start: SeedState,
    old: Seq<u8>,
    replies: Seq<SeedReplyModel>,
) -> bool
    decreases replies.len(),
{
    replies.len() > 0 ==> {
        &&& sizes_are_true(start, old, replies.drop_last())
        &&& replies.last() matches SeedReplyModel::FileSize(Ok(size)) ==> size == disk_after(
            start,
            old,
            replies.drop_last(),
        ).contents.len()
    }
}

/// Whether all bytes from position 32 on are zero.
pub open spec fn zero_from_32(contents: Seq<u8>) -> bool {
    forall|i: int| 32 <= i < contents.len() ==> #[trigger] contents[i] == 0
}

spec fn disk_fits(state: SeedState, disk: Disk, old: Seq<u8>) -> bool {
    let contents = disk.contents;
    match state.stage {
        SeedStage::Size => contents == old && disk.position == 0,
        SeedStage::Read => contents == old && disk.position == 0 && state.file_size == old.len()
            && 32 <= old.len() <= 32768,
        SeedStage::Rewind => contents == old && state.file_size == old.len() && 32 <= old.len()
            <= 32768,
        SeedStage::Count => before_writing(state, disk, old),
        SeedStage::Time => before_writing(state, disk, old),
        SeedStage::TailSeek => contents.len() == state.file_size == old.len() && old.len() > 32,
        SeedStage::TailWrite => contents.len() == state.file_size == old.len() && old.len() > 32
            && disk.position == 32,
        SeedStage::TailFlush => contents.len() <= old.len() && zero_from_32(contents),
        SeedStage::TailRewind => contents.len() <= old.len() && zero_from_32(contents),
        SeedStage::WriteSeed => (contents.len() <= 32 || contents.len() <= old.len())
            && zero_from_32(contents) && disk.position == 0,
        SeedStage::FlushSeed => seed_is_written(state, contents, old),
        SeedStage::Install => seed_is_written(state, contents, old),
        SeedStage::Erase => seed_is_written(state, contents, old),
        SeedStage::Finished(_) => true,
        _ => contents == old,
    }
}

spec fn before_writing(state: SeedState, disk: Disk, old: Seq<u8>) -> bool {
    &&& disk.position == 0
    &&& if state.created {
        disk.contents.len() < 32
    } else {
        disk.contents.len() == state.file_size == old.len() && 32 <= old.len() <= 32768
    }
}

spec fn seed_is_written(state: SeedState, contents: Seq<u8>, old: Seq<u8>) -> bool {
    sha256_of(hash_key(state.inputs).push(0)).len() == 32 ==> {
        &&& contents.len() >= 32
        &&& contents.len() <= 32 || contents.len() <= old.len()
        &&& contents.take(32) == sha256_of(hash_key(state.inputs).push(0))
        &&& zero_from_32(contents)
    }
}

proof fn lemma_disk(
    previous: Option<Seq<u8>>,
    secure_boot_enabled: bool,
    old: Seq<u8>,
    replies: Seq<SeedReplyModel>,
)
    requires
        under_way(previous, secure_boot_enabled, replies),
        sizes_are_true(SeedState::initial(previous, secure_boot_enabled), old, replies),
    ensures
        disk_fits(
            reached(previous, secure_boot_enabled, replies),
            disk_after(SeedState::initial(previous, secure_boot_enabled), old, replies),
            old,
        ) || reached(previous, secure_boot_enabled, replies).stage is Finished,
    decreases replies.len(),
{
    let start = SeedState::initial(previous, secure_boot_enabled);
    if replies.len() > 0 {
        let earlier = replies.drop_last();
        lemma_disk(previous, secure_boot_enabled, old, earlier);
        lemma_created(previous, secure_boot_enabled, earlier);
        let before = run(start, earlier);
        let state = run(start, replies);
        let disk = disk_after(start, old, earlier);
        let after = disk_after(start, old, replies);
        if before.stage is TailWrite && state.stage is TailFlush {
            assert(zero_from_32(after.contents));
        }
        if before.stage is WriteSeed && state.stage is FlushSeed {
            let seed = sha256_of(hash_key(state.inputs).push(0));
            if seed.len() == 32 {
                assert(after.contents.take(32) =~= seed);
            }
        }
    }
}

proof fn lemma_created(
    previous: Option<Seq<u8>>,
    secure_boot_enabled: bool,
    replies: Seq<SeedReplyModel>,
)
    requires
        under_way(previous, secure_boot_enabled, replies),
    ensures
        ({
            let state = reached(previous, secure_boot_enabled, replies);
            (state.stage is Entropy || state.stage is Token || state.stage is Open || state.stage
                is Create || state.stage is Size || state.stage is Read || state.stage is Rewind)
                ==> !state.created
        }),
    decreases replies.len(),
{
    if replies.len() > 0 {
        lemma_created(previous, secure_boot_enabled, replies.drop_last());
    }
}

/// When the kernel is handed its seed, the seed file starts with the new seed
/// of 32 bytes and holds nothing but zeros behind it: whatever the file held
/// before is gone, and it has not grown beyond its old size or 32 bytes.
pub proof fn law_old_seed_is_overwritten(
    previous: Option<Seq<u8>>,
    secure_boot_enabled: bool,
    old: Seq<u8>,
    replies: Seq<SeedReplyModel>,
)
    requires
        under_way(previous, secure_boot_enabled, replies),
        sizes_are_true(SeedState::initial(previous, secure_boot_enabled), old, replies),
        reached(previous, secure_boot_enabled, replies).request() is InstallSeedTable,
        sha256_of(
            hash_key(reached(previous, secure_boot_enabled, replies).inputs).push(0),
        ).len() == 32,
    ensures
        ({
            let inputs = reached(previous, secure_boot_enabled, replies).inputs;
            let contents = disk_after(
                SeedState::initial(previous, secure_boot_enabled),
                old,
                replies,
            ).contents;
            &&& contents.len() >= 32
            &&& contents.take(32) == sha256_of(hash_key(inputs).push(0))
            &&& forall|i: int| 32 <= i < contents.len() ==> #[trigger] contents[i] == 0
            &&& contents.len() <= 32 || contents.len() <= old.len()
        }),
{
    lemma_disk(previous, secure_boot_enabled, old, replies);
}

/// The new seed is written to the start of the seed file: whenever data is
/// written there that does not merely zero the tail, the position is 0.
pub proof fn law_seed_is_written_to_the_start(
    previous: Option<Seq<u8>>,
    secure_boot_enabled: bool,
    old: Seq<u8>,
    replies: Seq<SeedReplyModel>,
    data: Seq<u8>,
)
    requires
        under_way(previous, secure_boot_enabled, replies),
        sizes_are_true(SeedState::initial(previous, secure_boot_enabled), old, replies),
        reached(previous, secure_boot_enabled, replies).request()
            == SeedRequestModel::WriteSeedFile(data),
    ensures
        ({
            let position = disk_after(
                SeedState::initial(previous, secure_boot_enabled),
                old,
                replies,
            ).position;
            ||| position == 0 && data == sha256_of(
                hash_key(reached(previous, secure_boot_enabled, replies).inputs).push(0),
            )
            ||| position == 32 && forall|i: int| 0 <= i < data.len() ==> #[trigger] data[i] == 0
        }),
{
    lemma_disk(previous, secure_boot_enabled, old, replies);
}

/// Whether the firmware contributed entropy: as a long enough seed from a
/// previous boot stage, or as random bytes.
pub open spec fn firmware_contributed(
    previous: Option<Seq<u8>>,
    replies: Seq<SeedReplyModel>,
) -> bool {
    ||| previous matches Some(seed) && seed.len() >= 32
    ||| replies.len() > 0 && (replies[0] matches SeedReplyModel::Entropy(r) && r is Ok)
}

/// The outcomes with which a refresh opens the seed file.
spec fn opened_with_size(replies: Seq<SeedReplyModel>, size: u64) -> bool {
    &&& replies.len() >= 4
    &&& replies[2] == SeedReplyModel::Opened(Ok(true))
    &&& replies[3] == SeedReplyModel::FileSize(Ok(size))
}

spec fn file_is_new(state: SeedState, replies: Seq<SeedReplyModel>) -> bool {
    &&& state.created
    &&& replies.len() >= 4
    &&& {
        ||| replies[2] == SeedReplyModel::Opened(Err(Status::NotFound)) && replies[3]
            == SeedReplyModel::Opened(Ok(true))
        ||| replies[2] == SeedReplyModel::Opened(Ok(true)) && (
        replies[3] matches SeedReplyModel::FileSize(Ok(size)) && size < 32)
    }
    &&& state.inputs[3] == Seq::<u8>::empty()
}

spec fn file_was_read(state: SeedState, replies: Seq<SeedReplyModel>) -> bool {
    &&& !state.created
    &&& replies.len() >= 5
    &&& replies[2] == SeedReplyModel::Opened(Ok(true))
    &&& replies[3] == SeedReplyModel::FileSize(Ok(state.file_size))
    &&& 32 <= state.file_size <= 32768
    &&& state.inputs.len() >= 4
    &&& replies[4] == SeedReplyModel::Contents(Ok(state.inputs[3]))
    &&& state.inputs[3].len() == state.file_size
}

spec fn file_is_known(state: SeedState, replies: Seq<SeedReplyModel>) -> bool {
    ||| file_is_new(state, replies)
    ||| file_was_read(state, replies) && replies.len() >= 6 && (
    replies[5] matches SeedReplyModel::Done(r) && r is Ok)
}

/// How many outcomes are known once the seed file was looked at.
spec fn known_at(state: SeedState) -> int {
    if state.created {
        4
    } else {
        6
    }
}

spec fn count_is_known(state: SeedState, replies: Seq<SeedReplyModel>) -> bool {
    let at = known_at(state);
    &&& file_is_known(state, replies)
    &&& replies.len() > at
    &&& replies[at] matches SeedReplyModel::Count(r) && state.inputs[4] == hashed_count(r)
}

spec fn all_is_known(state: SeedState, replies: Seq<SeedReplyModel>) -> bool {
    let at = known_at(state) + 1;
    &&& count_is_known(state, replies)
    &&& state.inputs.len() == 6
    &&& replies.len() > at
    &&& replies[at] matches SeedReplyModel::Time(r) && state.inputs[5] == hashed_time(r)
}

/// The counter as it is hashed: eight bytes, zero if it is not known.
pub open spec fn hashed_count(r: Result<u64, Status>) -> Seq<u8> {
    match r {
        Ok(count) => le_bytes(count as nat, 8),
        Err(_) => le_bytes(0, 8),
    }
}

/// The time as it is hashed: nothing if it is not known.
pub open spec fn hashed_time(r: Option<SeedTime>) -> Seq<u8> {
    match r {
        Some(time) => time.entropy_bytes(),
        None => Seq::empty(),
    }
}

spec fn course_fits(
    previous: Option<Seq<u8>>,
    state: SeedState,
    replies: Seq<SeedReplyModel>,
) -> bool {
    let n = replies.len();
    &&& replies.len() > 0 || previous is Some ==> state.seeded_by_efi == firmware_contributed(
        previous,
        replies,
    )
    &&& state.inputs.len() >= 1 && state.inputs[0] == (match previous {
        Some(seed) => seed,
        None => Seq::empty(),
    })
    &&& n >= 1 ==> state.inputs.len() >= 2 && (replies[0] matches SeedReplyModel::Entropy(r)
        && state.inputs[1] == hashed_bytes(r))
    &&& n >= 2 ==> state.inputs.len() >= 3 && (replies[1] matches SeedReplyModel::Token(r)
        && state.inputs[2] == hashed_bytes(r))
    &&& match state.stage {
        SeedStage::Entropy => n == 0 && state.inputs.len() == 1,
        SeedStage::Token => n == 1 && state.inputs.len() == 2,
        SeedStage::Open => n == 2 && state.inputs.len() == 3,
        SeedStage::Create => n == 3 && state.inputs.len() == 3 && replies[2]
            == SeedReplyModel::Opened(Err(Status::NotFound)),
        SeedStage::Size => n == 3 && state.inputs.len() == 3 && replies[2]
            == SeedReplyModel::Opened(Ok(true)),
        SeedStage::Read => n == 4 && state.inputs.len() == 3 && opened_with_size(
            replies,
            state.file_size,
        ) && 32 <= state.file_size <= 32768,
        SeedStage::Rewind => n == 5 && state.inputs.len() == 4 && file_was_read(state, replies),
        SeedStage::Count => n == known_at(state) && state.inputs.len() == 4 && file_is_known(
            state,
            replies,
        ),
        SeedStage::Time => n == known_at(state) + 1 && state.inputs.len() == 5 && count_is_known(
            state,
            replies,
        ),
        SeedStage::Finished(_) => true,
        _ => all_is_known(state, replies),
    }
}

/// The bytes of a reply as they are hashed: none if there are none.
pub open spec fn hashed_bytes(r: Result<Seq<u8>, Status>) -> Seq<u8> {
    match r {
        Ok(data) => data,
        Err(_) => Seq::empty(),
    }
}

#[verifier::rlimit(40)]
proof fn lemma_course(
    previous: Option<Seq<u8>>,
    secure_boot_enabled: bool,
    replies: Seq<SeedReplyModel>,
)
    requires
        under_way(previous, secure_boot_enabled, replies),
    ensures
        reached(previous, secure_boot_enabled, replies).stage is Finished || course_fits(
            previous,
            reached(previous, secure_boot_enabled, replies),
            replies,
        ),
        reached(previous, secure_boot_enabled, replies).secure_boot_enabled
            == secure_boot_enabled,
    decreases replies.len(),
{
    if replies.len() > 0 {
        let earlier = replies.drop_last();
        lemma_course(previous, secure_boot_enabled, earlier);
        lemma_created(previous, secure_boot_enabled, earlier);
        assert(forall|k: int| 0 <= k < earlier.len() ==> #[trigger] earlier[k] == replies[k]);
        assert(replies.last() == replies[replies.len() - 1]);
        let before = reached(previous, secure_boot_enabled, earlier);
        let state = reached(previous, secure_boot_enabled, replies);
        assert(state == before.next(replies.last()));
        if state.stage !is Finished {
            assert(state.seeded_by_efi == firmware_contributed(previous, replies));
            match before.stage {
                SeedStage::Entropy => {
                    assert(course_fits(previous, state, replies));
                },
                SeedStage::Token => {
                    assert(course_fits(previous, state, replies));
                },
                SeedStage::Open => {
                    assert(course_fits(previous, state, replies));
                },
                SeedStage::Create => {
                    assert(course_fits(previous, state, replies));
                },
                SeedStage::Size => {
                    assert(course_fits(previous, state, replies));
                },
                SeedStage::Read => {
                    assert(file_was_read(state, replies));
                    assert(course_fits(previous, state, replies));
                },
                SeedStage::Rewind => {
                    assert(course_fits(previous, state, replies));
                },
                SeedStage::Count => {
                    assert(state.inputs[3] == before.inputs[3]);
                    assert(file_is_known(state, replies));
                    assert(count_is_known(state, replies));
                    assert(course_fits(previous, state, replies));
                },
                SeedStage::Time => {
                    assert(state.inputs[3] == before.inputs[3]);
                    assert(state.inputs[4] == before.inputs[4]);
                    assert(file_is_known(state, replies));
                    assert(count_is_known(state, replies));
                    assert(all_is_known(state, replies));
                    assert(course_fits(previous, state, replies));
                },
                _ => {
                    assert(course_fits(previous, state, replies));
                },
            }
        }
    }
}

/// What goes into the seeds, told from the outcomes: the seed of the previous
/// boot stage, the random bytes, the system token, the contents of the seed
/// file if it has 32 bytes or more, the counter and the time. A file that has
/// to be created, or that is shorter, contributes nothing.
pub proof fn law_every_source_goes_into_the_seed(
    previous: Option<Seq<u8>>,
    secure_boot_enabled: bool,
    replies: Seq<SeedReplyModel>,
)
    requires
        under_way(previous, secure_boot_enabled, replies),
        reached(previous, secure_boot_enabled, replies).request() is InstallSeedTable,
    ensures
        ({
            let inputs = reached(previous, secure_boot_enabled, replies).inputs;
            &&& inputs.len() == 6
            &&& inputs[0] == (match previous {
                Some(seed) => seed,
                None => Seq::empty(),
            })
            &&& replies[0] matches SeedReplyModel::Entropy(r) && inputs[1] == hashed_bytes(r)
            &&& replies[1] matches SeedReplyModel::Token(r) && inputs[2] == hashed_bytes(r)
            &&& {
                let read = replies[3] matches SeedReplyModel::FileSize(Ok(size)) && size >= 32;
                let at: int = if read {
                    6
                } else {
                    4
                };
                &&& read ==> replies[4] == SeedReplyModel::Contents(Ok(inputs[3]))
                    && SeedReplyModel::FileSize(Ok(inputs[3].len() as u64)) == replies[3]
                &&& !read ==> inputs[3] == Seq::<u8>::empty()
                &&& replies[at] matches SeedReplyModel::Count(r) && inputs[4] == hashed_count(r)
                &&& replies[at + 1] matches SeedReplyModel::Time(r) && inputs[5] == hashed_time(r)
            }
        }),
{
    lemma_course(previous, secure_boot_enabled, replies);
}

/// The error with which an outcome ends a refresh, if it does.
///
/// Errors of the random number generator, of the system token and of the
/// counter matter only where the firmware contributed no entropy, and that of
/// the random number generator only under Secure Boot.
pub open spec fn fatal(
    previous: Option<Seq<u8>>,
    secure_boot_enabled: bool,
    request: SeedRequestModel,
    earlier: Seq<SeedReplyModel>,
    reply: SeedReplyModel,
) -> Option<Status> {
    let seeded = firmware_contributed(previous, earlier.push(reply));
    match reply {
        SeedReplyModel::Entropy(Err(_)) => if secure_boot_enabled && !seeded {
            Some(Status::NotFound)
        } else {
            None
        },
        SeedReplyModel::Token(Ok(token)) => if token.len() < 32 && !seeded {
            Some(Status::NotFound)
        } else {
            None
        },
        SeedReplyModel::Token(Err(status)) => if seeded {
            None
        } else {
            Some(status)
        },
        SeedReplyModel::Opened(Ok(false)) => Some(Status::InvalidParameter),
        SeedReplyModel::Opened(Err(status)) => if status == Status::NotFound && seeded && request
            == SeedRequestModel::OpenSeedFile {
            None
        } else {
            Some(status)
        },
        SeedReplyModel::FileSize(Ok(size)) => if size > 32768 {
            Some(Status::InvalidParameter)
        } else {
            None
        },
        SeedReplyModel::FileSize(Err(status)) => Some(status),
        SeedReplyModel::Contents(Ok(data)) => if earlier.last() == SeedReplyModel::FileSize(
            Ok(data.len() as u64),
        ) && data.len() <= 32768 {
            None
        } else {
            Some(Status::ProtocolError)
        },
        SeedReplyModel::Contents(Err(status)) => Some(status),
        SeedReplyModel::Count(Err(status)) => if seeded {
            None
        } else {
            Some(status)
        },
        SeedReplyModel::Done(Err(status)) => if request == SeedRequestModel::ErasePreviousTable {
            None
        } else {
            Some(status)
        },
        _ => None,
    }
}

/// A refresh gives up exactly on the outcomes that call for it, with the error
/// that they call for.
pub proof fn law_refresh_gives_up_only_for_cause(
    previous: Option<Seq<u8>>,
    secure_boot_enabled: bool,
    earlier: Seq<SeedReplyModel>,
    reply: SeedReplyModel,
    status: Status,
)
    requires
        under_way(previous, secure_boot_enabled, earlier.push(reply)),
    ensures
        reached(previous, secure_boot_enabled, earlier.push(reply)).request()
            == SeedRequestModel::Finished(Err(status)) <==> fatal(
            previous,
            secure_boot_enabled,
            reached(previous, secure_boot_enabled, earlier).request(),
            earlier,
            reply,
        ) == Some(status),
{
    let replies = earlier.push(reply);
    assert(replies.drop_last() == earlier);
    lemma_course(previous, secure_boot_enabled, earlier);
    assert(forall|k: int| 0 <= k < earlier.len() ==> #[trigger] earlier[k] == replies[k]);
    assert(replies[earlier.len() as int] == reply);
    let before = reached(previous, secure_boot_enabled, earlier);
    if before.stage is Read {
        assert(earlier.last() == earlier[3]);
    }
}

/// What follows an outcome that is not fatal: each source is asked for once,
/// in this order, and the seed is passed on only after it was written.
pub proof fn law_refresh_takes_its_course(
    previous: Option<Seq<u8>>,
    secure_boot_enabled: bool,
    earlier: Seq<SeedReplyModel>,
    reply: SeedReplyModel,
)
    requires
        under_way(previous, secure_boot_enabled, earlier.push(reply)),
        !(reached(previous, secure_boot_enabled, earlier.push(reply)).request()
            matches SeedRequestModel::Finished(Err(_))),
    ensures
        ({
            let request = reached(previous, secure_boot_enabled, earlier).request();
            let next = reached(previous, secure_boot_enabled, earlier.push(reply)).request();
            match (request, reply) {
                (SeedRequestModel::AcquireEntropy(size), _) => size == 32 && next
                    == SeedRequestModel::ReadSystemToken,
                (SeedRequestModel::ReadSystemToken, _) => next == SeedRequestModel::OpenSeedFile,
                (SeedRequestModel::OpenSeedFile, SeedReplyModel::Opened(Ok(_))) => next
                    == SeedRequestModel::QueryFileSize,
                (SeedRequestModel::OpenSeedFile, _) => next == SeedRequestModel::CreateSeedFile,
                (SeedRequestModel::CreateSeedFile, _) => next
                    == SeedRequestModel::QueryMonotonicCount,
                (SeedRequestModel::QueryFileSize, SeedReplyModel::FileSize(Ok(size))) => next
                    == if size < 32 {
                    SeedRequestModel::QueryMonotonicCount
                } else {
                    SeedRequestModel::ReadSeedFile(size as nat)
                },
                (SeedRequestModel::ReadSeedFile(_), _) => next == SeedRequestModel::SeekSeedFile(0),
                (SeedRequestModel::QueryMonotonicCount, _) => next == SeedRequestModel::QueryTime,
                (SeedRequestModel::InstallSeedTable(_), _) => next == if previous is Some {
                    SeedRequestModel::ErasePreviousTable
                } else {
                    SeedRequestModel::Finished(Ok(()))
                },
                (SeedRequestModel::ErasePreviousTable, _) => next == SeedRequestModel::Finished(
                    Ok(()),
                ),
                _ => true,
            }
        }),
{
    assert(earlier.push(reply).drop_last() == earlier);
    lemma_previous(previous, secure_boot_enabled, earlier);
    lemma_course(previous, secure_boot_enabled, earlier);
}

proof fn lemma_previous(
    previous: Option<Seq<u8>>,
    secure_boot_enabled: bool,
    replies: Seq<SeedReplyModel>,
)
    requires
        under_way(previous, secure_boot_enabled, replies),
    ensures
        reached(previous, secure_boot_enabled, replies).has_previous == (previous is Some),
    decreases replies.len(),
{
    if replies.len() > 0 {
        lemma_previous(previous, secure_boot_enabled, replies.drop_last());
    }
}

/// A number of eight bytes in front of data.
pub open spec fn prefixed(data: Seq<u8>) -> Seq<u8> {
    le_bytes(data.len(), 8) + data
}

/// Both seeds come from one key, which is the hash of a label and of the six
/// inputs, each with its length in front. The seed on disk is the hash of the
/// key and a zero, that of the kernel the hash of the key and a one.
pub proof fn law_seeds_are_derived_from_all_inputs(
    a: Seq<u8>,
    b: Seq<u8>,
    c: Seq<u8>,
    d: Seq<u8>,
    e: Seq<u8>,
    f: Seq<u8>,
)
    ensures
        ({
            let inputs = seq![a, b, c, d, e, f];
            let key = sha256_of(
                encode_utf8("systemd-boot random seed label v1"@) + prefixed(a) + prefixed(b)
                    + prefixed(c) + prefixed(d) + prefixed(e) + prefixed(f),
            );
            &&& hash_key(inputs) == key
            &&& file_seed(inputs) == sha256_of(key + seq![0u8])
            &&& table_seed(inputs) == sha256_of(key + seq![1u8])
            &&& seed_table(table_seed(inputs)).skip(4) == table_seed(inputs)
        }),
{
    let inputs = seq![a, b, c, d, e, f];
    let label = "systemd-boot random seed label v1"@;
    reveal_strlit("systemd-boot random seed label v1");
    is_ascii_chars_encode_utf8(label);
    assert(encode_utf8(label) =~= hash_label());
    reveal_with_fuel(chunks, 7);
    let i5 = seq![a, b, c, d, e];
    let i4 = seq![a, b, c, d];
    let i3 = seq![a, b, c];
    let i2 = seq![a, b];
    let i1 = seq![a];
    assert(inputs.drop_last() =~= i5);
    assert(i5.drop_last() =~= i4);
    assert(i4.drop_last() =~= i3);
    assert(i3.drop_last() =~= i2);
    assert(i2.drop_last() =~= i1);
    assert(i1.drop_last() =~= Seq::<Seq<u8>>::empty());
    assert(chunks(i1) =~= prefixed(a));
    assert(chunks(inputs) =~= prefixed(a) + prefixed(b) + prefixed(c) + prefixed(d) + prefixed(e)
        + prefixed(f));
    assert(hash_input(inputs) =~= encode_utf8(label) + prefixed(a) + prefixed(b) + prefixed(c)
        + prefixed(d) + prefixed(e) + prefixed(f));
    let key = hash_key(inputs);
    assert(key.push(0) =~= key + seq![0u8]);
    assert(key.push(1) =~= key + seq![1u8]);
    crate::bytes::lemma_le_bytes_len(table_seed(inputs).len(), 4);
    assert(seed_table(table_seed(inputs)).skip(4) =~= table_seed(inputs));
}

} // verus!

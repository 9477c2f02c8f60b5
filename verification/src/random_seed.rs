//! Random seed handling.
//!
//! Mixes the random seed file of the boot partition with entropy from the
//! firmware and hands a fresh seed to the kernel. The seed file is refreshed
//! on disk before the seed is passed on, so that the same seed is never given
//! to the kernel twice.
//!
//! [`SeedRefresh`] decides what has to be done next; its caller performs each
//! [`SeedRequest`] against the firmware and reports the outcome as a
//! [`SeedReply`].

use crate::bytes::{le_bytes, le_value, lemma_le_bytes_len, push_all, push_le, read_le, zeros};
use crate::digest::{absorb, absorbed, finish, new_hasher, sha256_capacity, sha256_of};
use crate::status::Status;
use sha2::Sha256;
use vstd::prelude::*;

verus! {

/// Seed files shorter than this are treated like freshly created, empty ones.
pub const RANDOM_MAX_SIZE_MIN: u64 = 32;

/// Seed files larger than this are rejected.
pub const RANDOM_MAX_SIZE_MAX: u64 = 32768;

/// The Linux RNG is 256 bits, so provide this much.
pub const DESIRED_SEED_SIZE: usize = 32;

/// The longest seed that a seed table can carry: its size field has 32 bits.
pub const SEED_SIZE_MAX: usize = 0xffff_ffff;

/// The longest input that is hashed, in bytes. Six inputs are hashed, and six
/// of this size are within what the hash function can take in.
pub const INPUT_SIZE_MAX: u64 = 0x0400_0000_0000_0000;

/// Basic domain separation in case somebody uses this data elsewhere.
pub open spec fn hash_label() -> Seq<u8> {
    seq![
        0x73u8, 0x79, 0x73, 0x74, 0x65, 0x6d, 0x64, 0x2d, 0x62, 0x6f, 0x6f, 0x74, 0x20, 0x72, 0x61,
        0x6e, 0x64, 0x6f, 0x6d, 0x20, 0x73, 0x65, 0x65, 0x64, 0x20, 0x6c, 0x61, 0x62, 0x65, 0x6c,
        0x20, 0x76, 0x31,
    ]
}

/// A chunk of hash input: the size of the data, then the data.
pub open spec fn chunk(data: Seq<u8>) -> Seq<u8> {
    le_bytes(data.len(), 8) + data
}

/// The chunks of several inputs, one after the other.
pub open spec fn chunks(inputs: Seq<Seq<u8>>) -> Seq<u8>
    decreases inputs.len(),
{
    if inputs.len() == 0 {
        Seq::empty()
    } else {
        chunks(inputs.drop_last()) + chunk(inputs.last())
    }
}

/// Everything that is hashed: `LABEL || size(input1) || input1 || ...`.
pub open spec fn hash_input(inputs: Seq<Seq<u8>>) -> Seq<u8> {
    hash_label() + chunks(inputs)
}

/// The key that both new seeds are derived from.
pub open spec fn hash_key(inputs: Seq<Seq<u8>>) -> Seq<u8> {
    sha256_of(hash_input(inputs))
}

/// The seed that is written back to the seed file.
pub open spec fn file_seed(inputs: Seq<Seq<u8>>) -> Seq<u8> {
    sha256_of(hash_key(inputs).push(0))
}

/// The seed that is handed to the kernel.
pub open spec fn table_seed(inputs: Seq<Seq<u8>>) -> Seq<u8> {
    sha256_of(hash_key(inputs).push(1))
}

/// A seed table: the size of the seed as a 32-bit number, then the seed.
pub open spec fn seed_table(seed: Seq<u8>) -> Seq<u8> {
    le_bytes(seed.len(), 4) + seed
}

/// The firmware's wall clock.
#[derive(Debug, Clone, Copy, PartialEq, Eq, Structural)]
pub struct SeedTime {
    pub year: u16,
    pub month: u8,
    pub day: u8,
    pub hour: u8,
    pub minute: u8,
    pub second: u8,
    pub nanosecond: u32,
    /// Offset from UTC in minutes, if it is known.
    pub time_zone: Option<i16>,
    /// The daylight saving flags.
    pub daylight: u8,
}

impl SeedTime {
    /// The 16 bytes that stand for a time, in the layout of the firmware's
    /// time structure.
    pub open spec fn entropy_bytes(self) -> Seq<u8> {
        let zone: int = match self.time_zone {
            Some(zone) => zone as int,
            None => 0,
        };
        le_bytes(self.year as nat, 2) + seq![
            self.month,
            self.day,
            self.hour,
            self.minute,
            self.second,
            0u8,
        ] + le_bytes(self.nanosecond as nat, 4) + le_bytes((zone % 0x1_0000) as nat, 2) + seq![
            self.daylight,
            0u8,
        ]
    }
}

/// What a [`SeedRefresh`] is waiting for.
#[derive(Debug, Clone, Copy)]
pub enum SeedStage {
    Entropy,
    Token,
    Open,
    Create,
    Size,
    Read,
    Rewind,
    Count,
    Time,
    TailSeek,
    TailWrite,
    TailFlush,
    TailRewind,
    WriteSeed,
    FlushSeed,
    Install,
    Erase,
    Finished(Result<(), Status>),
}

/// What has to be done next.
#[derive(Debug)]
pub enum SeedRequest {
    /// Get this many bytes from the firmware's random number generator.
    AcquireEntropy(usize),
    /// Read the `LoaderSystemToken` variable.
    ReadSystemToken,
    /// Open the seed file for reading and writing.
    OpenSeedFile,
    /// Create the seed file and open it for reading and writing.
    CreateSeedFile,
    /// Find out how long the seed file is.
    QueryFileSize,
    /// Read this many bytes from the seed file.
    ReadSeedFile(usize),
    /// Move to this position of the seed file.
    SeekSeedFile(u64),
    /// Query the firmware's monotonic counter.
    QueryMonotonicCount,
    /// Query the wall clock.
    QueryTime,
    /// Write these bytes to the seed file.
    WriteSeedFile(Vec<u8>),
    /// Flush the seed file.
    FlushSeedFile,
    /// Install these bytes as the new seed table.
    InstallSeedTable(Vec<u8>),
    /// Erase the seed table of the previous boot stage.
    ErasePreviousTable,
    /// Nothing is left to do.
    Finished(Result<(), Status>),
}

/// A request with its bytes as a sequence.
pub enum SeedRequestModel {
    AcquireEntropy(nat),
    ReadSystemToken,
    OpenSeedFile,
    CreateSeedFile,
    QueryFileSize,
    ReadSeedFile(nat),
    SeekSeedFile(nat),
    QueryMonotonicCount,
    QueryTime,
    WriteSeedFile(Seq<u8>),
    FlushSeedFile,
    InstallSeedTable(Seq<u8>),
    ErasePreviousTable,
    Finished(Result<(), Status>),
}

impl View for SeedRequest {
    type V = SeedRequestModel;

    open spec fn view(&self) -> SeedRequestModel {
        match *self {
            SeedRequest::AcquireEntropy(n) => SeedRequestModel::AcquireEntropy(n as nat),
            SeedRequest::ReadSystemToken => SeedRequestModel::ReadSystemToken,
            SeedRequest::OpenSeedFile => SeedRequestModel::OpenSeedFile,
            SeedRequest::CreateSeedFile => SeedRequestModel::CreateSeedFile,
            SeedRequest::QueryFileSize => SeedRequestModel::QueryFileSize,
            SeedRequest::ReadSeedFile(n) => SeedRequestModel::ReadSeedFile(n as nat),
            SeedRequest::SeekSeedFile(n) => SeedRequestModel::SeekSeedFile(n as nat),
            SeedRequest::QueryMonotonicCount => SeedRequestModel::QueryMonotonicCount,
            SeedRequest::QueryTime => SeedRequestModel::QueryTime,
            SeedRequest::WriteSeedFile(data) => SeedRequestModel::WriteSeedFile(data@),
            SeedRequest::FlushSeedFile => SeedRequestModel::FlushSeedFile,
            SeedRequest::InstallSeedTable(data) => SeedRequestModel::InstallSeedTable(data@),
            SeedRequest::ErasePreviousTable => SeedRequestModel::ErasePreviousTable,
            SeedRequest::Finished(result) => SeedRequestModel::Finished(result),
        }
    }
}

/// The outcome of a request.
#[derive(Debug, Clone, Copy)]
pub enum SeedReply<'a> {
    /// Of `AcquireEntropy`: the random bytes.
    Entropy(Result<&'a [u8], Status>),
    /// Of `ReadSystemToken`: the value of the variable.
    Token(Result<&'a [u8], Status>),
    /// Of `OpenSeedFile` and `CreateSeedFile`: whether it is a regular file.
    Opened(Result<bool, Status>),
    /// Of `QueryFileSize`: the length in bytes.
    FileSize(Result<u64, Status>),
    /// Of `ReadSeedFile`: the bytes that were read.
    Contents(Result<&'a [u8], Status>),
    /// Of `QueryMonotonicCount`: the counter.
    Count(Result<u64, Status>),
    /// Of `QueryTime`: the time, if the clock could be read.
    Time(Option<SeedTime>),
    /// Of the remaining requests: whether they succeeded.
    Done(Result<(), Status>),
}

/// A reply with its bytes as a sequence.
pub enum SeedReplyModel {
    Entropy(Result<Seq<u8>, Status>),
    Token(Result<Seq<u8>, Status>),
    Opened(Result<bool, Status>),
    FileSize(Result<u64, Status>),
    Contents(Result<Seq<u8>, Status>),
    Count(Result<u64, Status>),
    Time(Option<SeedTime>),
    Done(Result<(), Status>),
}

/// The bytes of a successful reply as a sequence.
pub open spec fn bytes_result(r: Result<&[u8], Status>) -> Result<Seq<u8>, Status> {
    match r {
        Ok(data) => Ok(data@),
        Err(status) => Err(status),
    }
}

impl<'a> View for SeedReply<'a> {
    type V = SeedReplyModel;

    open spec fn view(&self) -> SeedReplyModel {
        match *self {
            SeedReply::Entropy(r) => SeedReplyModel::Entropy(bytes_result(r)),
            SeedReply::Token(r) => SeedReplyModel::Token(bytes_result(r)),
            SeedReply::Opened(r) => SeedReplyModel::Opened(r),
            SeedReply::FileSize(r) => SeedReplyModel::FileSize(r),
            SeedReply::Contents(r) => SeedReplyModel::Contents(bytes_result(r)),
            SeedReply::Count(r) => SeedReplyModel::Count(r),
            SeedReply::Time(r) => SeedReplyModel::Time(r),
            SeedReply::Done(r) => SeedReplyModel::Done(r),
        }
    }
}

/// The state of a seed refresh.
pub struct SeedState {
    /// The inputs that were hashed so far.
    pub inputs: Seq<Seq<u8>>,
    pub secure_boot_enabled: bool,
    /// Whether the firmware or a previous boot stage contributed enough
    /// entropy.
    pub seeded_by_efi: bool,
    /// Whether a previous boot stage installed a seed table.
    pub has_previous: bool,
    /// Whether the seed file is new, or as good as new.
    pub created: bool,
    pub file_size: u64,
    pub stage: SeedStage,
}

impl SeedState {
    /// The state in which a refresh begins.
    pub open spec fn initial(previous: Option<Seq<u8>>, secure_boot_enabled: bool) -> SeedState {
        SeedState {
            inputs: seq![
                match previous {
                    Some(seed) => seed,
                    None => Seq::empty(),
                },
            ],
            secure_boot_enabled,
            seeded_by_efi: previous matches Some(seed) && seed.len() >= DESIRED_SEED_SIZE,
            has_previous: previous is Some,
            created: false,
            file_size: 0,
            stage: SeedStage::Entropy,
        }
    }

    /// The same state after one more input was hashed.
    pub open spec fn hashed(self, data: Seq<u8>) -> SeedState {
        SeedState { inputs: self.inputs.push(data), ..self }
    }

    /// The same state at another stage.
    pub open spec fn at(self, stage: SeedStage) -> SeedState {
        SeedState { stage, ..self }
    }

    /// The same state, given up with an error.
    pub open spec fn failed(self, status: Status) -> SeedState {
        self.at(SeedStage::Finished(Err(status)))
    }

    /// The same state at the next stage if the last request succeeded.
    pub open spec fn proceed(self, done: Result<(), Status>, stage: SeedStage) -> SeedState {
        match done {
            Ok(()) => self.at(stage),
            Err(status) => self.failed(status),
        }
    }

    /// What has to be done next in this state.
    pub open spec fn request(self) -> SeedRequestModel {
        match self.stage {
            SeedStage::Entropy => SeedRequestModel::AcquireEntropy(DESIRED_SEED_SIZE as nat),
            SeedStage::Token => SeedRequestModel::ReadSystemToken,
            SeedStage::Open => SeedRequestModel::OpenSeedFile,
            SeedStage::Create => SeedRequestModel::CreateSeedFile,
            SeedStage::Size => SeedRequestModel::QueryFileSize,
            SeedStage::Read => SeedRequestModel::ReadSeedFile(self.file_size as nat),
            SeedStage::Rewind => SeedRequestModel::SeekSeedFile(0),
            SeedStage::Count => SeedRequestModel::QueryMonotonicCount,
            SeedStage::Time => SeedRequestModel::QueryTime,
            SeedStage::TailSeek => SeedRequestModel::SeekSeedFile(DESIRED_SEED_SIZE as nat),
            SeedStage::TailWrite => SeedRequestModel::WriteSeedFile(
                zeros((self.file_size - DESIRED_SEED_SIZE) as nat),
            ),
            SeedStage::TailFlush => SeedRequestModel::FlushSeedFile,
            SeedStage::TailRewind => SeedRequestModel::SeekSeedFile(0),
            SeedStage::WriteSeed => SeedRequestModel::WriteSeedFile(file_seed(self.inputs)),
            SeedStage::FlushSeed => SeedRequestModel::FlushSeedFile,
            SeedStage::Install => SeedRequestModel::InstallSeedTable(
                seed_table(table_seed(self.inputs)),
            ),
            SeedStage::Erase => SeedRequestModel::ErasePreviousTable,
            SeedStage::Finished(result) => SeedRequestModel::Finished(result),
        }
    }

    /// Whether `reply` is an outcome that the current request can have.
    pub open spec fn awaits(self, reply: SeedReplyModel) -> bool {
        match self.stage {
            SeedStage::Entropy => reply matches SeedReplyModel::Entropy(r) && (r matches Ok(data)
                ==> data.len() == DESIRED_SEED_SIZE),
            SeedStage::Token => reply matches SeedReplyModel::Token(r) && (r matches Ok(data)
                ==> data.len() <= INPUT_SIZE_MAX),
            SeedStage::Open => reply is Opened,
            SeedStage::Create => reply is Opened,
            SeedStage::Size => reply is FileSize,
            SeedStage::Read => reply is Contents,
            SeedStage::Count => reply is Count,
            SeedStage::Time => reply is Time,
            SeedStage::Finished(_) => false,
            _ => reply is Done,
        }
    }

    /// The state after the current request had the outcome `reply`.
    pub open spec fn next(self, reply: SeedReplyModel) -> SeedState {
        match (self.stage, reply) {
            (SeedStage::Entropy, SeedReplyModel::Entropy(r)) => self.after_entropy(r),
            (SeedStage::Token, SeedReplyModel::Token(r)) => self.after_token(r),
            (SeedStage::Open, SeedReplyModel::Opened(r)) => self.after_open(r),
            (SeedStage::Create, SeedReplyModel::Opened(r)) => self.after_create(r),
            (SeedStage::Size, SeedReplyModel::FileSize(r)) => self.after_size(r),
            (SeedStage::Read, SeedReplyModel::Contents(r)) => self.after_read(r),
            (SeedStage::Rewind, SeedReplyModel::Done(r)) => self.proceed(r, SeedStage::Count),
            (SeedStage::Count, SeedReplyModel::Count(r)) => self.after_count(r),
            (SeedStage::Time, SeedReplyModel::Time(r)) => self.after_time(r),
            (SeedStage::TailSeek, SeedReplyModel::Done(r)) => self.proceed(r, SeedStage::TailWrite),
            (SeedStage::TailWrite, SeedReplyModel::Done(r)) => self.proceed(
                r,
                SeedStage::TailFlush,
            ),
            (SeedStage::TailFlush, SeedReplyModel::Done(r)) => self.proceed(
                r,
                SeedStage::TailRewind,
            ),
            (SeedStage::TailRewind, SeedReplyModel::Done(r)) => self.proceed(
                r,
                SeedStage::WriteSeed,
            ),
            (SeedStage::WriteSeed, SeedReplyModel::Done(r)) => self.proceed(
                r,
                SeedStage::FlushSeed,
            ),
            (SeedStage::FlushSeed, SeedReplyModel::Done(r)) => self.proceed(r, SeedStage::Install),
            (SeedStage::Install, SeedReplyModel::Done(r)) => self.proceed(
                r,
                if self.has_previous {
                    SeedStage::Erase
                } else {
                    SeedStage::Finished(Ok(()))
                },
            ),
            (SeedStage::Erase, SeedReplyModel::Done(_)) => self.at(SeedStage::Finished(Ok(()))),
            _ => self,
        }
    }

    /// Without firmware entropy the only input is the mutable boot partition,
    /// which must not be trusted alone under Secure Boot.
    pub open spec fn after_entropy(self, r: Result<Seq<u8>, Status>) -> SeedState {
        match r {
            Ok(data) => SeedState { seeded_by_efi: true, ..self }.hashed(data).at(SeedStage::Token),
            Err(_) => if !self.seeded_by_efi && self.secure_boot_enabled {
                self.failed(Status::NotFound)
            } else {
                self.hashed(Seq::empty()).at(SeedStage::Token)
            },
        }
    }

    /// Without firmware entropy a system token of sufficient length is needed.
    pub open spec fn after_token(self, r: Result<Seq<u8>, Status>) -> SeedState {
        match r {
            Ok(token) => if token.len() < DESIRED_SEED_SIZE && !self.seeded_by_efi {
                self.failed(Status::NotFound)
            } else {
                self.hashed(token).at(SeedStage::Open)
            },
            Err(status) => if !self.seeded_by_efi {
                self.failed(status)
            } else {
                self.hashed(Seq::empty()).at(SeedStage::Open)
            },
        }
    }

    /// A missing seed file is created if there is enough entropy without it.
    pub open spec fn after_open(self, r: Result<bool, Status>) -> SeedState {
        match r {
            Ok(true) => self.at(SeedStage::Size),
            Ok(false) => self.failed(Status::InvalidParameter),
            Err(status) => if status == Status::NotFound && self.seeded_by_efi {
                self.at(SeedStage::Create)
            } else {
                self.failed(status)
            },
        }
    }

    pub open spec fn after_create(self, r: Result<bool, Status>) -> SeedState {
        match r {
            Ok(true) => SeedState { created: true, ..self }.hashed(Seq::empty()).at(
                SeedStage::Count,
            ),
            Ok(false) => self.failed(Status::InvalidParameter),
            Err(status) => self.failed(status),
        }
    }

    /// A short file counts as freshly created, a large one is rejected.
    pub open spec fn after_size(self, r: Result<u64, Status>) -> SeedState {
        match r {
            Ok(size) => {
                let sized = SeedState { file_size: size, ..self };
                if size < RANDOM_MAX_SIZE_MIN {
                    SeedState { created: true, ..sized }.hashed(Seq::empty()).at(SeedStage::Count)
                } else if size > RANDOM_MAX_SIZE_MAX {
                    sized.failed(Status::InvalidParameter)
                } else {
                    sized.at(SeedStage::Read)
                }
            },
            Err(status) => self.failed(status),
        }
    }

    pub open spec fn after_read(self, r: Result<Seq<u8>, Status>) -> SeedState {
        match r {
            Ok(seed) => if seed.len() != self.file_size {
                self.failed(Status::ProtocolError)
            } else {
                self.hashed(seed).at(SeedStage::Rewind)
            },
            Err(status) => self.failed(status),
        }
    }

    pub open spec fn after_count(self, r: Result<u64, Status>) -> SeedState {
        match r {
            Ok(count) => self.hashed(le_bytes(count as nat, 8)).at(SeedStage::Time),
            Err(status) => if !self.seeded_by_efi {
                self.failed(status)
            } else {
                self.hashed(le_bytes(0, 8)).at(SeedStage::Time)
            },
        }
    }

    /// A file that is longer than the new seed has its tail zeroed first.
    pub open spec fn after_time(self, r: Option<SeedTime>) -> SeedState {
        let timed = self.hashed(
            match r {
                Some(time) => time.entropy_bytes(),
                None => Seq::empty(),
            },
        );
        if !self.created && DESIRED_SEED_SIZE < self.file_size {
            timed.at(SeedStage::TailSeek)
        } else {
            timed.at(SeedStage::WriteSeed)
        }
    }
}

/// The label that starts the hash input.
fn label() -> (label: Vec<u8>)
    ensures
        label@ == hash_label(),
{
    let label: Vec<u8> = vec![
        0x73u8, 0x79, 0x73, 0x74, 0x65, 0x6d, 0x64, 0x2d, 0x62, 0x6f, 0x6f, 0x74, 0x20, 0x72, 0x61,
        0x6e, 0x64, 0x6f, 0x6d, 0x20, 0x73, 0x65, 0x65, 0x64, 0x20, 0x6c, 0x61, 0x62, 0x65, 0x6c,
        0x20, 0x76, 0x31,
    ];
    assert(label@ == hash_label());
    label
}

/// Hash a length-prefixed chunk of input data:
/// `hash <- hash || size(data) || data`.
fn hash_chunk(hash: &mut Sha256, data: &[u8])
    requires
        absorbed(*old(hash)).len() + 8 + data@.len() <= sha256_capacity(),
    ensures
        absorbed(*final(hash)) == absorbed(*old(hash)) + chunk(data@),
{
    let mut size: Vec<u8> = Vec::new();
    push_le(&mut size, data.len() as u64, 8);
    assert(size@ == le_bytes(data@.len(), 8));
    proof {
        lemma_le_bytes_len(data@.len(), 8);
    }
    let ghost before = absorbed(*hash);
    absorb(hash, &size);
    absorb(hash, data);
    assert(absorbed(*hash) == before + chunk(data@));
}

/// Serialize the current time for use as (weak) entropy input.
pub fn time_entropy_bytes(time: &SeedTime) -> (out: Vec<u8>)
    ensures
        out@ == time.entropy_bytes(),
        out@.len() == 16,
{
    let mut out: Vec<u8> = Vec::new();
    push_le(&mut out, time.year as u64, 2);
    out.push(time.month);
    out.push(time.day);
    out.push(time.hour);
    out.push(time.minute);
    out.push(time.second);
    out.push(0);
    push_le(&mut out, time.nanosecond as u64, 4);
    let zone: i16 = match time.time_zone {
        Some(zone) => zone,
        None => 0,
    };
    let zone_code: u64 = if zone < 0 {
        (0x1_0000 + zone as i32) as u64
    } else {
        zone as u64
    };
    assert(zone_code == zone as int % 0x1_0000);
    push_le(&mut out, zone_code, 2);
    out.push(time.daylight);
    out.push(0);
    proof {
        lemma_le_bytes_len(time.year as nat, 2);
        lemma_le_bytes_len(time.nanosecond as nat, 4);
        lemma_le_bytes_len(zone_code as nat, 2);
        assert(out@ == time.entropy_bytes());
    }
    out
}

/// The contents of a seed table that carries `seed`.
pub fn seed_table_bytes(seed: &[u8]) -> (table: Vec<u8>)
    requires
        seed@.len() <= SEED_SIZE_MAX,
    ensures
        table@ == seed_table(seed@),
{
    let mut table: Vec<u8> = Vec::new();
    push_le(&mut table, seed.len() as u64, 4);
    push_all(&mut table, seed);
    assert(table@ == seed_table(seed@));
    table
}

/// The size of the seed that a seed table carries, from the size field at its
/// start.
pub fn seed_table_size(header: &[u8; 4]) -> (size: usize)
    ensures
        size as nat == le_value(header@),
{
    let bytes: &[u8] = header;
    let size: u64 = read_le(bytes);
    size as usize
}

fn derive(key: &Vec<u8>, purpose: u8) -> (seed: [u8; 32])
    requires
        key@.len() == 32,
    ensures
        seed@ == sha256_of(key@.push(purpose)),
{
    let mut input: Vec<u8> = Vec::new();
    push_all(&mut input, key);
    input.push(purpose);
    assert(input@ == key@.push(purpose));
    crate::digest::sha256(&input)
}

/// A seed refresh in progress.
pub struct SeedRefresh {
    hash: Sha256,
    /// The hash of all inputs, once there are no more.
    key: Vec<u8>,
    inputs: Ghost<Seq<Seq<u8>>>,
    secure_boot_enabled: bool,
    seeded_by_efi: bool,
    has_previous: bool,
    created: bool,
    file_size: u64,
    stage: SeedStage,
}

/// How many inputs have been hashed at most when a stage is reached.
pub open spec fn input_count(stage: SeedStage) -> nat {
    match stage {
        SeedStage::Entropy => 1,
        SeedStage::Token => 2,
        SeedStage::Open => 3,
        SeedStage::Create => 3,
        SeedStage::Size => 3,
        SeedStage::Read => 3,
        SeedStage::Rewind => 4,
        SeedStage::Count => 4,
        SeedStage::Time => 5,
        _ => 6,
    }
}

/// Whether all inputs have been hashed at a stage.
pub open spec fn key_is_derived(stage: SeedStage) -> bool {
    match stage {
        SeedStage::TailSeek => true,
        SeedStage::TailWrite => true,
        SeedStage::TailFlush => true,
        SeedStage::TailRewind => true,
        SeedStage::WriteSeed => true,
        SeedStage::FlushSeed => true,
        SeedStage::Install => true,
        SeedStage::Erase => true,
        _ => false,
    }
}

/// Whether a stage is part of zeroing the tail of the seed file.
pub open spec fn zeroes_tail(stage: SeedStage) -> bool {
    match stage {
        SeedStage::TailSeek => true,
        SeedStage::TailWrite => true,
        SeedStage::TailFlush => true,
        SeedStage::TailRewind => true,
        _ => false,
    }
}

impl SeedState {
    /// What holds in every state that a refresh can reach.
    pub open spec fn valid(self) -> bool {
        &&& self.stage !is Finished ==> self.inputs.len() == input_count(self.stage)
        &&& forall|i: int|
            0 <= i < self.inputs.len() ==> (#[trigger] self.inputs[i]).len() <= INPUT_SIZE_MAX
        &&& self.stage is Read ==> RANDOM_MAX_SIZE_MIN <= self.file_size <= RANDOM_MAX_SIZE_MAX
        &&& (self.stage is Count || self.stage is Time || self.stage is Rewind) && !self.created
            ==> self.file_size <= RANDOM_MAX_SIZE_MAX
        &&& zeroes_tail(self.stage) ==> DESIRED_SEED_SIZE < self.file_size <= RANDOM_MAX_SIZE_MAX
    }
}

proof fn lemma_chunks_len(inputs: Seq<Seq<u8>>)
    requires
        forall|i: int| 0 <= i < inputs.len() ==> (#[trigger] inputs[i]).len() <= INPUT_SIZE_MAX,
    ensures
        chunks(inputs).len() <= inputs.len() * 0x0400_0000_0000_0008,
    decreases inputs.len(),
{
    if inputs.len() > 0 {
        lemma_chunks_len(inputs.drop_last());
        lemma_le_bytes_len(inputs.last().len(), 8);
        assert(inputs.last() == inputs[inputs.len() - 1]);
    }
}

proof fn lemma_hash_input_push(inputs: Seq<Seq<u8>>, data: Seq<u8>)
    ensures
        hash_input(inputs.push(data)) == hash_input(inputs) + chunk(data),
{
    assert(inputs.push(data).drop_last() == inputs);
    assert(hash_input(inputs.push(data)) == hash_input(inputs) + chunk(data));
}

impl View for SeedRefresh {
    type V = SeedState;

    closed spec fn view(&self) -> SeedState {
        SeedState {
            inputs: self.inputs@,
            secure_boot_enabled: self.secure_boot_enabled,
            seeded_by_efi: self.seeded_by_efi,
            has_previous: self.has_previous,
            created: self.created,
            file_size: self.file_size,
            stage: self.stage,
        }
    }
}

impl SeedRefresh {
    /// The hasher and the key hold what the hashed inputs call for.
    pub closed spec fn wf(&self) -> bool {
        &&& self@.valid()
        &&& self.stage !is Finished && !key_is_derived(self.stage) ==> absorbed(self.hash)
            == hash_input(self.inputs@)
        &&& key_is_derived(self.stage) ==> self.key@ == hash_key(self.inputs@) && self.key@.len()
            == 32
    }

    /// A well-formed refresh is in a valid state.
    pub proof fn lemma_valid(self)
        requires
            self.wf(),
        ensures
            self@.valid(),
    {
    }

    /// Begin a refresh. `previous` is the seed that a previous boot stage may
    /// already have passed along.
    pub fn start(previous: Option<&[u8]>, secure_boot_enabled: bool) -> (refresh: SeedRefresh)
        requires
            previous matches Some(seed) ==> seed@.len() <= INPUT_SIZE_MAX,
        ensures
            refresh.wf(),
            refresh@ == SeedState::initial(
                match previous {
                    Some(seed) => Some(seed@),
                    None => None,
                },
                secure_boot_enabled,
            ),
    {
        let mut hash = new_hasher();
        absorb(&mut hash, &label());
        assert(absorbed(hash) == hash_label());
        let ghost first: Seq<u8> = match previous {
            Some(seed) => seed@,
            None => Seq::empty(),
        };
        let ghost started: Seq<Seq<u8>> = seq![first];
        let mut seeded_by_efi = false;
        match previous {
            None => hash_chunk(&mut hash, &[]),
            Some(seed) => {
                seeded_by_efi = seed.len() >= DESIRED_SEED_SIZE;
                hash_chunk(&mut hash, seed);
            },
        }
        proof {
            let none: Seq<Seq<u8>> = Seq::empty();
            assert(none.push(first) == started);
            lemma_hash_input_push(none, first);
            assert(hash_input(none) == hash_label());
        }
        SeedRefresh {
            hash,
            key: Vec::new(),
            inputs: Ghost(started),
            secure_boot_enabled,
            seeded_by_efi,
            has_previous: previous.is_some(),
            created: false,
            file_size: 0,
            stage: SeedStage::Entropy,
        }
    }

    /// What has to be done next.
    pub fn request(&self) -> (request: SeedRequest)
        requires
            self.wf(),
        ensures
            request@ == self@.request(),
            self@.stage is WriteSeed ==> (request matches SeedRequest::WriteSeedFile(data)
                && data@.len() == DESIRED_SEED_SIZE),
            self@.stage is Install ==> (request matches SeedRequest::InstallSeedTable(table)
                && table@.len() == 4 + DESIRED_SEED_SIZE && table@.take(4) == le_bytes(
                DESIRED_SEED_SIZE as nat,
                4,
            )),
    {
        match self.stage {
            SeedStage::Entropy => SeedRequest::AcquireEntropy(DESIRED_SEED_SIZE),
            SeedStage::Token => SeedRequest::ReadSystemToken,
            SeedStage::Open => SeedRequest::OpenSeedFile,
            SeedStage::Create => SeedRequest::CreateSeedFile,
            SeedStage::Size => SeedRequest::QueryFileSize,
            SeedStage::Read => SeedRequest::ReadSeedFile(self.file_size as usize),
            SeedStage::Rewind => SeedRequest::SeekSeedFile(0),
            SeedStage::Count => SeedRequest::QueryMonotonicCount,
            SeedStage::Time => SeedRequest::QueryTime,
            SeedStage::TailSeek => SeedRequest::SeekSeedFile(DESIRED_SEED_SIZE as u64),
            SeedStage::TailWrite => {
                let tail: usize = self.file_size as usize - DESIRED_SEED_SIZE;
                let zeroed: Vec<u8> = vec![0u8; tail];
                assert(zeroed@ == zeros(tail as nat));
                SeedRequest::WriteSeedFile(zeroed)
            },
            SeedStage::TailFlush => SeedRequest::FlushSeedFile,
            SeedStage::TailRewind => SeedRequest::SeekSeedFile(0),
            SeedStage::WriteSeed => {
                let seed = derive(&self.key, 0);
                let mut data: Vec<u8> = Vec::new();
                push_all(&mut data, &seed);
                assert(data@ == file_seed(self.inputs@));
                SeedRequest::WriteSeedFile(data)
            },
            SeedStage::FlushSeed => SeedRequest::FlushSeedFile,
            SeedStage::Install => {
                let seed = derive(&self.key, 1);
                let table = seed_table_bytes(&seed);
                proof {
                    lemma_le_bytes_len(DESIRED_SEED_SIZE as nat, 4);
                    assert(table@.take(4) == le_bytes(DESIRED_SEED_SIZE as nat, 4));
                }
                SeedRequest::InstallSeedTable(table)
            },
            SeedStage::Erase => SeedRequest::ErasePreviousTable,
            SeedStage::Finished(result) => SeedRequest::Finished(result),
        }
    }

    fn hashed(self, data: &[u8]) -> (next: SeedRefresh)
        requires
            self@.inputs.len() <= 5,
            forall|i: int|
                0 <= i < self@.inputs.len() ==> (#[trigger] self@.inputs[i]).len()
                    <= INPUT_SIZE_MAX,
            absorbed(self.hash) == hash_input(self.inputs@),
            data@.len() <= INPUT_SIZE_MAX,
        ensures
            next@ == self@.hashed(data@),
            absorbed(next.hash) == hash_input(next.inputs@),
            next.key == self.key,
    {
        proof {
            lemma_chunks_len(self.inputs@);
            lemma_hash_input_push(self.inputs@, data@);
        }
        let mut next = self;
        hash_chunk(&mut next.hash, data);
        next.inputs = Ghost(self.inputs@.push(data@));
        next
    }

    fn at(self, stage: SeedStage) -> (next: SeedRefresh)
        ensures
            next@ == self@.at(stage),
            next.hash == self.hash,
            next.key == self.key,
    {
        let mut next = self;
        next.stage = stage;
        next
    }

    fn proceed(self, done: Result<(), Status>, stage: SeedStage) -> (next: SeedRefresh)
        ensures
            next@ == self@.proceed(done, stage),
            next.hash == self.hash,
            next.key == self.key,
    {
        match done {
            Ok(()) => self.at(stage),
            Err(status) => self.at(SeedStage::Finished(Err(status))),
        }
    }

    /// Take in the outcome of the current request.
    pub fn advance(self, reply: SeedReply) -> (next: SeedRefresh)
        requires
            self.wf(),
            self@.awaits(reply@),
        ensures
            next.wf(),
            next@ == self@.next(reply@),
    {
        match (self.stage, reply) {
            (SeedStage::Entropy, SeedReply::Entropy(r)) => self.take_entropy(r),
            (SeedStage::Token, SeedReply::Token(r)) => self.take_token(r),
            (SeedStage::Open, SeedReply::Opened(r)) => self.take_open(r),
            (SeedStage::Create, SeedReply::Opened(r)) => self.take_create(r),
            (SeedStage::Size, SeedReply::FileSize(r)) => self.take_size(r),
            (SeedStage::Read, SeedReply::Contents(r)) => self.take_contents(r),
            (SeedStage::Rewind, SeedReply::Done(r)) => self.proceed(r, SeedStage::Count),
            (SeedStage::Count, SeedReply::Count(r)) => self.take_count(r),
            (SeedStage::Time, SeedReply::Time(r)) => self.take_time(r),
            (SeedStage::TailSeek, SeedReply::Done(r)) => self.proceed(r, SeedStage::TailWrite),
            (SeedStage::TailWrite, SeedReply::Done(r)) => self.proceed(r, SeedStage::TailFlush),
            (SeedStage::TailFlush, SeedReply::Done(r)) => self.proceed(r, SeedStage::TailRewind),
            (SeedStage::TailRewind, SeedReply::Done(r)) => self.proceed(r, SeedStage::WriteSeed),
            (SeedStage::WriteSeed, SeedReply::Done(r)) => self.proceed(r, SeedStage::FlushSeed),
            (SeedStage::FlushSeed, SeedReply::Done(r)) => self.proceed(r, SeedStage::Install),
            (SeedStage::Install, SeedReply::Done(r)) => {
                let stage = if self.has_previous {
                    SeedStage::Erase
                } else {
                    SeedStage::Finished(Ok(()))
                };
                self.proceed(r, stage)
            },
            (SeedStage::Erase, SeedReply::Done(_)) => self.at(SeedStage::Finished(Ok(()))),
            _ => self,
        }
    }

    fn take_entropy(self, r: Result<&[u8], Status>) -> (next: SeedRefresh)
        requires
            self.wf(),
            self@.stage is Entropy,
            r matches Ok(data) ==> data@.len() <= INPUT_SIZE_MAX,
        ensures
            next.wf(),
            next@ == self@.after_entropy(bytes_result(r)),
    {
        match r {
            Ok(data) => {
                let mut seeded = self;
                seeded.seeded_by_efi = true;
                seeded.hashed(data).at(SeedStage::Token)
            },
            Err(_) => {
                if !self.seeded_by_efi && self.secure_boot_enabled {
                    self.at(SeedStage::Finished(Err(Status::NotFound)))
                } else {
                    self.hashed_empty().at(SeedStage::Token)
                }
            },
        }
    }

    fn hashed_empty(self) -> (next: SeedRefresh)
        requires
            self@.inputs.len() <= 5,
            forall|i: int|
                0 <= i < self@.inputs.len() ==> (#[trigger] self@.inputs[i]).len()
                    <= INPUT_SIZE_MAX,
            absorbed(self.hash) == hash_input(self.inputs@),
        ensures
            next@ == self@.hashed(Seq::empty()),
            absorbed(next.hash) == hash_input(next.inputs@),
            next.key == self.key,
    {
        let empty: [u8; 0] = [];
        assert(empty@ == Seq::<u8>::empty());
        self.hashed(&empty)
    }

    fn take_token(self, r: Result<&[u8], Status>) -> (next: SeedRefresh)
        requires
            self.wf(),
            self@.stage is Token,
            r matches Ok(data) ==> data@.len() <= INPUT_SIZE_MAX,
        ensures
            next.wf(),
            next@ == self@.after_token(bytes_result(r)),
    {
        match r {
            Ok(token) => {
                if token.len() < DESIRED_SEED_SIZE && !self.seeded_by_efi {
                    self.at(SeedStage::Finished(Err(Status::NotFound)))
                } else {
                    self.hashed(token).at(SeedStage::Open)
                }
            },
            Err(status) => {
                if !self.seeded_by_efi {
                    self.at(SeedStage::Finished(Err(status)))
                } else {
                    self.hashed_empty().at(SeedStage::Open)
                }
            },
        }
    }

    fn take_open(self, r: Result<bool, Status>) -> (next: SeedRefresh)
        requires
            self.wf(),
            self@.stage is Open,
        ensures
            next.wf(),
            next@ == self@.after_open(r),
    {
        match r {
            Ok(regular) => {
                if regular {
                    self.at(SeedStage::Size)
                } else {
                    self.at(SeedStage::Finished(Err(Status::InvalidParameter)))
                }
            },
            Err(status) => {
                if status == Status::NotFound && self.seeded_by_efi {
                    self.at(SeedStage::Create)
                } else {
                    self.at(SeedStage::Finished(Err(status)))
                }
            },
        }
    }

    fn take_create(self, r: Result<bool, Status>) -> (next: SeedRefresh)
        requires
            self.wf(),
            self@.stage is Create,
        ensures
            next.wf(),
            next@ == self@.after_create(r),
    {
        match r {
            Ok(regular) => {
                if regular {
                    let mut created = self;
                    created.created = true;
                    created.hashed_empty().at(SeedStage::Count)
                } else {
                    self.at(SeedStage::Finished(Err(Status::InvalidParameter)))
                }
            },
            Err(status) => self.at(SeedStage::Finished(Err(status))),
        }
    }

    fn take_size(self, r: Result<u64, Status>) -> (next: SeedRefresh)
        requires
            self.wf(),
            self@.stage is Size,
        ensures
            next.wf(),
            next@ == self@.after_size(r),
    {
        match r {
            Ok(size) => {
                let mut sized = self;
                sized.file_size = size;
                if size < RANDOM_MAX_SIZE_MIN {
                    sized.created = true;
                    sized.hashed_empty().at(SeedStage::Count)
                } else if size > RANDOM_MAX_SIZE_MAX {
                    sized.at(SeedStage::Finished(Err(Status::InvalidParameter)))
                } else {
                    sized.at(SeedStage::Read)
                }
            },
            Err(status) => self.at(SeedStage::Finished(Err(status))),
        }
    }

    fn take_contents(self, r: Result<&[u8], Status>) -> (next: SeedRefresh)
        requires
            self.wf(),
            self@.stage is Read,
        ensures
            next.wf(),
            next@ == self@.after_read(bytes_result(r)),
    {
        match r {
            Ok(seed) => {
                if seed.len() as u64 != self.file_size {
                    self.at(SeedStage::Finished(Err(Status::ProtocolError)))
                } else {
                    self.hashed(seed).at(SeedStage::Rewind)
                }
            },
            Err(status) => self.at(SeedStage::Finished(Err(status))),
        }
    }

    fn take_count(self, r: Result<u64, Status>) -> (next: SeedRefresh)
        requires
            self.wf(),
            self@.stage is Count,
        ensures
            next.wf(),
            next@ == self@.after_count(r),
    {
        let count: u64 = match r {
            Ok(count) => count,
            Err(status) => {
                if !self.seeded_by_efi {
                    return self.at(SeedStage::Finished(Err(status)));
                }
                0
            },
        };
        let mut data: Vec<u8> = Vec::new();
        push_le(&mut data, count, 8);
        assert(data@ == le_bytes(count as nat, 8));
        proof {
            lemma_le_bytes_len(count as nat, 8);
        }
        self.hashed(&data).at(SeedStage::Time)
    }

    fn take_time(self, r: Option<SeedTime>) -> (next: SeedRefresh)
        requires
            self.wf(),
            self@.stage is Time,
        ensures
            next.wf(),
            next@ == self@.after_time(r),
    {
        let timed = match r {
            Some(time) => {
                let data = time_entropy_bytes(&time);
                self.hashed(&data)
            },
            None => self.hashed_empty(),
        };
        proof {
            lemma_chunks_len(timed.inputs@);
        }
        let digest = finish(timed.hash);
        let mut key: Vec<u8> = Vec::new();
        push_all(&mut key, &digest);
        assert(key@ == hash_key(timed.inputs@));
        let stage = if !timed.created && (DESIRED_SEED_SIZE as u64) < timed.file_size {
            SeedStage::TailSeek
        } else {
            SeedStage::WriteSeed
        };
        SeedRefresh {
            hash: new_hasher(),
            key,
            inputs: timed.inputs,
            secure_boot_enabled: timed.secure_boot_enabled,
            seeded_by_efi: timed.seeded_by_efi,
            has_previous: timed.has_previous,
            created: timed.created,
            file_size: timed.file_size,
            stage,
        }
    }
}

} // verus!

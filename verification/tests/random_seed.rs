use lanzaboote::digest::sha256;
use lanzaboote::random_seed::{
    seed_table_bytes, seed_table_size, time_entropy_bytes, SeedRefresh, SeedReply, SeedRequest,
    SeedTime,
};
use lanzaboote::status::Status;

const TIME: SeedTime = SeedTime {
    year: 0x07e9,
    month: 2,
    day: 3,
    hour: 4,
    minute: 5,
    second: 6,
    nanosecond: 0x0102_0304,
    time_zone: Some(-60),
    daylight: 3,
};

fn chunk(data: &[u8]) -> Vec<u8> {
    let mut out = (data.len() as u64).to_le_bytes().to_vec();
    out.extend_from_slice(data);
    out
}

/// The seed for the file and the seed for the kernel, from the hashed inputs.
fn seeds(inputs: &[&[u8]]) -> ([u8; 32], [u8; 32]) {
    let mut hash = b"systemd-boot random seed label v1".to_vec();
    for input in inputs {
        hash.extend_from_slice(&chunk(input));
    }
    let key = sha256(&hash);
    let derive = |purpose: u8| {
        let mut input = key.to_vec();
        input.push(purpose);
        sha256(&input)
    };
    (derive(0), derive(1))
}

#[test]
fn time_is_laid_out_like_the_firmware_does() {
    assert_eq!(
        time_entropy_bytes(&TIME),
        vec![0xe9, 0x07, 2, 3, 4, 5, 6, 0, 4, 3, 2, 1, 0xc4, 0xff, 3, 0]
    );
    let mut unspecified = TIME;
    unspecified.time_zone = None;
    assert_eq!(time_entropy_bytes(&unspecified)[12..14], [0, 0]);
}

#[test]
fn seed_tables_carry_their_size() {
    assert_eq!(seed_table_bytes(b"abc"), b"\x03\0\0\0abc".to_vec());
    assert_eq!(seed_table_size(&[3, 0, 0, 0]), 3);
    assert_eq!(seed_table_size(&[0x20, 1, 0, 0]), 0x120);
}

#[test]
fn refreshes_an_existing_seed_file() {
    let contents = [7u8; 40];
    let previous = [1u8; 16];
    let random = [2u8; 32];
    let mut refresh = SeedRefresh::start(Some(&previous), true);
    assert!(matches!(
        refresh.request(),
        SeedRequest::AcquireEntropy(32)
    ));
    refresh = refresh.advance(SeedReply::Entropy(Ok(&random)));
    assert!(matches!(refresh.request(), SeedRequest::ReadSystemToken));
    refresh = refresh.advance(SeedReply::Token(Ok(b"token")));
    assert!(matches!(refresh.request(), SeedRequest::OpenSeedFile));
    refresh = refresh.advance(SeedReply::Opened(Ok(true)));
    assert!(matches!(refresh.request(), SeedRequest::QueryFileSize));
    refresh = refresh.advance(SeedReply::FileSize(Ok(40)));
    assert!(matches!(refresh.request(), SeedRequest::ReadSeedFile(40)));
    refresh = refresh.advance(SeedReply::Contents(Ok(&contents)));
    assert!(matches!(refresh.request(), SeedRequest::SeekSeedFile(0)));
    refresh = refresh.advance(SeedReply::Done(Ok(())));
    assert!(matches!(
        refresh.request(),
        SeedRequest::QueryMonotonicCount
    ));
    refresh = refresh.advance(SeedReply::Count(Ok(5)));
    assert!(matches!(refresh.request(), SeedRequest::QueryTime));
    refresh = refresh.advance(SeedReply::Time(Some(TIME)));
    assert!(matches!(refresh.request(), SeedRequest::SeekSeedFile(32)));
    refresh = refresh.advance(SeedReply::Done(Ok(())));
    assert!(matches!(
        refresh.request(),
        SeedRequest::WriteSeedFile(data) if data == vec![0u8; 8]
    ));
    refresh = refresh.advance(SeedReply::Done(Ok(())));
    assert!(matches!(refresh.request(), SeedRequest::FlushSeedFile));
    refresh = refresh.advance(SeedReply::Done(Ok(())));
    assert!(matches!(refresh.request(), SeedRequest::SeekSeedFile(0)));
    refresh = refresh.advance(SeedReply::Done(Ok(())));
    let time = time_entropy_bytes(&TIME);
    let (file_seed, table_seed) = seeds(&[
        &previous,
        &random,
        b"token",
        &contents,
        &5u64.to_le_bytes(),
        &time,
    ]);
    assert!(matches!(
        refresh.request(),
        SeedRequest::WriteSeedFile(data) if data == file_seed.to_vec()
    ));
    refresh = refresh.advance(SeedReply::Done(Ok(())));
    assert!(matches!(refresh.request(), SeedRequest::FlushSeedFile));
    refresh = refresh.advance(SeedReply::Done(Ok(())));
    assert!(matches!(
        refresh.request(),
        SeedRequest::InstallSeedTable(data) if data == seed_table_bytes(&table_seed)
    ));
    assert!(matches!(
        refresh.request(),
        SeedRequest::InstallSeedTable(data) if data.len() == 36 && data[..4] == [32, 0, 0, 0]
    ));
    refresh = refresh.advance(SeedReply::Done(Ok(())));
    assert!(matches!(refresh.request(), SeedRequest::ErasePreviousTable));
    refresh = refresh.advance(SeedReply::Done(Ok(())));
    assert!(matches!(refresh.request(), SeedRequest::Finished(Ok(()))));
    assert_ne!(file_seed, table_seed);
}

#[test]
fn creates_a_missing_seed_file() {
    let random = [2u8; 32];
    let refresh = SeedRefresh::start(None, true)
        .advance(SeedReply::Entropy(Ok(&random)))
        .advance(SeedReply::Token(Err(Status::NotFound)))
        .advance(SeedReply::Opened(Err(Status::NotFound)));
    assert!(matches!(refresh.request(), SeedRequest::CreateSeedFile));
    let refresh = refresh
        .advance(SeedReply::Opened(Ok(true)))
        .advance(SeedReply::Count(Err(Status::Unsupported)))
        .advance(SeedReply::Time(None));
    let (file_seed, table_seed) = seeds(&[b"", &random, b"", b"", &[0; 8], b""]);
    assert!(matches!(
        refresh.request(),
        SeedRequest::WriteSeedFile(data) if data == file_seed.to_vec()
    ));
    let refresh = refresh
        .advance(SeedReply::Done(Ok(())))
        .advance(SeedReply::Done(Ok(())));
    assert!(matches!(
        refresh.request(),
        SeedRequest::InstallSeedTable(data) if data == seed_table_bytes(&table_seed)
    ));
    let refresh = refresh.advance(SeedReply::Done(Ok(())));
    assert!(matches!(refresh.request(), SeedRequest::Finished(Ok(()))));
}

fn outcome(refresh: &SeedRefresh) -> Option<Result<(), Status>> {
    match refresh.request() {
        SeedRequest::Finished(result) => Some(result),
        _ => None,
    }
}

#[test]
fn secure_boot_refuses_a_seed_file_alone() {
    let refresh = SeedRefresh::start(None, true).advance(SeedReply::Entropy(Err(Status::NotReady)));
    assert_eq!(outcome(&refresh), Some(Err(Status::NotFound)));
    let previous = [1u8; 32];
    let refresh =
        SeedRefresh::start(Some(&previous), true).advance(SeedReply::Entropy(Err(Status::NotReady)));
    assert_eq!(outcome(&refresh), None);
}

#[test]
fn unseeded_refresh_needs_a_token() {
    let unseeded = || {
        SeedRefresh::start(None, false).advance(SeedReply::Entropy(Err(Status::Unsupported)))
    };
    let short = unseeded().advance(SeedReply::Token(Ok(b"short")));
    assert_eq!(outcome(&short), Some(Err(Status::NotFound)));
    let missing = unseeded().advance(SeedReply::Token(Err(Status::Other(9))));
    assert_eq!(outcome(&missing), Some(Err(Status::Other(9))));
    let token = [3u8; 32];
    let opened = unseeded().advance(SeedReply::Token(Ok(&token)));
    let missing_file = opened.advance(SeedReply::Opened(Err(Status::NotFound)));
    assert_eq!(outcome(&missing_file), Some(Err(Status::NotFound)));
    let counted = unseeded()
        .advance(SeedReply::Token(Ok(&token)))
        .advance(SeedReply::Opened(Ok(true)))
        .advance(SeedReply::FileSize(Ok(31)))
        .advance(SeedReply::Count(Err(Status::Unsupported)));
    assert_eq!(outcome(&counted), Some(Err(Status::Unsupported)));
}

#[test]
fn unusual_seed_files_are_handled() {
    let random = [2u8; 32];
    let opened = || {
        SeedRefresh::start(None, true)
            .advance(SeedReply::Entropy(Ok(&random)))
            .advance(SeedReply::Token(Err(Status::NotFound)))
    };
    assert_eq!(
        outcome(&opened().advance(SeedReply::Opened(Ok(false)))),
        Some(Err(Status::InvalidParameter))
    );
    assert_eq!(
        outcome(&opened().advance(SeedReply::Opened(Err(Status::WriteProtected)))),
        Some(Err(Status::WriteProtected))
    );
    let sized = |size: u64| {
        opened()
            .advance(SeedReply::Opened(Ok(true)))
            .advance(SeedReply::FileSize(Ok(size)))
    };
    assert_eq!(
        outcome(&sized(32769)),
        Some(Err(Status::InvalidParameter))
    );
    assert!(matches!(
        sized(32768).request(),
        SeedRequest::ReadSeedFile(32768)
    ));
    assert!(matches!(
        sized(31).request(),
        SeedRequest::QueryMonotonicCount
    ));
    let short = sized(32).advance(SeedReply::Contents(Ok(&[0; 31])));
    assert_eq!(outcome(&short), Some(Err(Status::ProtocolError)));
    let exact = sized(32)
        .advance(SeedReply::Contents(Ok(&[0; 32])))
        .advance(SeedReply::Done(Ok(())))
        .advance(SeedReply::Count(Ok(0)))
        .advance(SeedReply::Time(None));
    assert!(matches!(
        exact.request(),
        SeedRequest::WriteSeedFile(data) if data.len() == 32
    ));
    let failed = exact.advance(SeedReply::Done(Err(Status::VolumeCorrupted)));
    assert_eq!(outcome(&failed), Some(Err(Status::VolumeCorrupted)));
}

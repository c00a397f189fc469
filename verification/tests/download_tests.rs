use carbide_rvs::digest::Content;
use carbide_rvs::download::{
    compare_checksum, expected_checksum, status_error, ArtifactDownload, DownloadAction,
    DownloadEvent, DownloadState, CHECKSUM_HEADER,
};
use carbide_rvs::error::RvsError;
use carbide_rvs::text::to_hex;

const ABC: &str = "ba7816bf8f01cfea414140de5dae2223b00361a396177a9cb410ff61f20015ad";

fn artifact() -> ArtifactDownload {
    ArtifactDownload { output_path: "cache/fw.bin".to_string(), url: "http://h/fw".to_string() }
}

fn run(events: Vec<DownloadEvent>) -> (Vec<u8>, DownloadAction) {
    let artifact = artifact();
    let (mut state, mut action) = DownloadState::start();
    assert!(matches!(action, DownloadAction::CheckCache));
    let mut file = vec![];
    for event in events {
        let step = state.next(&artifact, event);
        state = step.0;
        action = step.1;
        if let DownloadAction::WriteChunk(c) = &action {
            file.extend_from_slice(c);
        }
    }
    (file, action)
}

fn up_to_response(status: u16, checksum: Option<&str>) -> Vec<DownloadEvent> {
    vec![
        DownloadEvent::CacheChecked { exists: false },
        DownloadEvent::DirReady,
        DownloadEvent::ResponseReceived {
            status,
            checksum: checksum.map(|c| c.as_bytes().to_vec()),
        },
    ]
}

fn full(checksum: Option<&str>) -> Vec<DownloadEvent> {
    let mut events = up_to_response(200, checksum);
    events.push(DownloadEvent::FileCreated);
    events.push(DownloadEvent::ChunkReceived(b"a".to_vec()));
    events.push(DownloadEvent::ChunkWritten);
    events.push(DownloadEvent::ChunkReceived(b"bc".to_vec()));
    events.push(DownloadEvent::ChunkWritten);
    events.push(DownloadEvent::StreamEnded);
    events
}

fn message(action: DownloadAction) -> String {
    match action {
        DownloadAction::Finish(Err(RvsError::InvalidArg(m))) => m,
        other => panic!("expected an invalid argument, got {:?}", other),
    }
}

#[test]
fn a_cached_artifact_is_skipped() {
    let (file, action) = run(vec![DownloadEvent::CacheChecked { exists: true }]);
    assert!(file.is_empty());
    assert!(matches!(action, DownloadAction::Finish(Ok(()))));
}

#[test]
fn actions_come_in_order() {
    let artifact = artifact();
    let (state, _) = DownloadState::start();
    let (state, action) = state.next(&artifact, DownloadEvent::CacheChecked { exists: false });
    assert!(matches!(action, DownloadAction::CreateDir));
    let (state, action) = state.next(&artifact, DownloadEvent::DirReady);
    assert!(matches!(action, DownloadAction::SendRequest));
    let (state, action) = state
        .next(&artifact, DownloadEvent::ResponseReceived { status: 299, checksum: None });
    assert!(matches!(action, DownloadAction::CreateFile));
    assert!(!state.accepts_chunk(1));
    let (state, action) = state.next(&artifact, DownloadEvent::FileCreated);
    assert!(matches!(action, DownloadAction::ReadChunk));
    assert!(state.accepts_chunk(1));
}

#[test]
fn the_body_is_written_and_checked() {
    let (file, action) = run(full(Some(ABC)));
    assert_eq!(file, b"abc".to_vec());
    assert!(matches!(action, DownloadAction::Finish(Ok(()))));
    let (_, action) = run(full(Some(&ABC.to_uppercase())));
    assert!(matches!(action, DownloadAction::Finish(Ok(()))));
    let (_, action) = run(full(None));
    assert!(matches!(action, DownloadAction::Finish(Ok(()))));
}

#[test]
fn a_wrong_checksum_is_reported() {
    let (file, action) = run(full(Some("FF")));
    assert_eq!(file, b"abc".to_vec());
    match action {
        DownloadAction::Finish(Err(RvsError::ChecksumMismatch { path, expected, actual })) => {
            assert_eq!(path, "cache/fw.bin");
            assert_eq!(expected, "ff");
            assert_eq!(actual, ABC);
        }
        other => panic!("expected a mismatch, got {:?}", other),
    }
}

#[test]
fn a_failed_status_is_reported() {
    let (file, action) = run(up_to_response(404, None));
    assert!(file.is_empty());
    assert_eq!(message(action), "download http://h/fw: HTTP 404 Not Found");
    let (_, action) = run(up_to_response(199, None));
    assert_eq!(message(action), "download http://h/fw: HTTP 199 <unknown status code>");
    let (_, action) = run(up_to_response(300, None));
    assert_eq!(message(action), "download http://h/fw: HTTP 300 Multiple Choices");
    match status_error("u", "s") {
        RvsError::InvalidArg(m) => assert_eq!(m, "download u: HTTP s"),
        _ => panic!("expected an invalid argument"),
    }
}

#[test]
fn a_failed_request_is_reported() {
    let (_, action) = run(vec![
        DownloadEvent::CacheChecked { exists: false },
        DownloadEvent::DirReady,
        DownloadEvent::RequestFailed("refused".to_string()),
    ]);
    assert_eq!(message(action), "download failed for http://h/fw: refused");
}

#[test]
fn a_broken_stream_is_reported() {
    let mut events = up_to_response(200, None);
    events.push(DownloadEvent::FileCreated);
    events.push(DownloadEvent::StreamFailed("reset".to_string()));
    let (_, action) = run(events);
    assert_eq!(message(action), "stream error for http://h/fw: reset");
}

#[test]
fn a_failed_file_operation_is_reported() {
    let (_, action) = run(vec![
        DownloadEvent::CacheChecked { exists: false },
        DownloadEvent::IoFailed("denied".to_string()),
    ]);
    match action {
        DownloadAction::Finish(Err(RvsError::Io(m))) => assert_eq!(m, "denied"),
        other => panic!("expected an I/O error, got {:?}", other),
    }
}

#[test]
fn the_announced_checksum_is_header_text_in_lower_case() {
    assert_eq!(CHECKSUM_HEADER, "x-checksum-sha256");
    let read = |v: &[u8]| expected_checksum(&Some(v.to_vec()));
    assert_eq!(read(b"AbC09 z\t"), Some("abc09 z\t".to_string()));
    assert_eq!(read(b""), Some(String::new()));
    assert_eq!(read(b"a\n"), None);
    assert_eq!(read(&[0x7f]), None);
    assert_eq!(read(&[0xc3, 0xa9]), None);
    assert_eq!(expected_checksum(&None), None);
}

#[test]
fn checksums_are_compared_with_the_digest_in_hex() {
    assert!(compare_checksum("p", Some("00ff10".to_string()), &vec![0, 255, 16]).is_ok());
    assert!(compare_checksum("p", Some("00FF10".to_string()), &vec![0, 255, 16]).is_err());
    assert!(compare_checksum("p", None, &vec![1]).is_ok());
}

#[test]
fn the_digest_does_not_depend_on_the_pieces() {
    let whole = Content::new().with(&b"abc".to_vec());
    let pieces = Content::new().with(&b"ab".to_vec()).with(&vec![]).with(&b"c".to_vec());
    assert!(whole.fits(1));
    assert!(!whole.fits(usize::MAX));
    assert_eq!(to_hex(&whole.digest()), ABC);
    assert_eq!(to_hex(&pieces.digest()), ABC);
    assert_eq!(
        to_hex(&Content::new().digest()),
        "e3b0c44298fc1c149afbf4c8996fb92427ae41e4649b934ca495991b7852b855"
    );
}

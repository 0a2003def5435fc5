use sship::error::SessionError;
use sship::service::cli::{log_level, Cli, Command, DiscoverArgs, LogLevel, ReceiveArgs, RunError, SendArgs};
use sship::service::send::EntryKind;
use sship::service::{discover, receive, send};
use sship::code::validate;
use sship::discovery::{poll, PollAction, Registry};
use sship::keyagree::{Derived, KaState, KeyAgreement, SessionKey};
use sship::lease::CodeLease;
use sship::transfer::{next_chunk, ChunkPlan, Sender, ProgressLocks, target_path, Manifest, ManifestEntry, ManifestError, Progress, Receiver, TransferState};

fn entry(path: &str, size: u64, checksum: u64) -> ManifestEntry {
    ManifestEntry { path: path.as_bytes().to_vec(), size, checksum }
}

fn docs() -> Manifest {
    Manifest::new(b"docs".to_vec(), true, vec![entry("a.txt", 12, 0xa), entry("b.txt", 34, 0xb)], 99).unwrap()
}

#[test]
fn directory_scenario_completes() {
    let code = validate("4821-9073").unwrap();
    let sender_lease = CodeLease::new(code, 0, 600);
    let receiver_lease = CodeLease::new(code, 1, 600);
    let mut registry = Registry::new();
    registry.advertise(4242, "192.168.1.5:2222".to_string(), 600, 0);
    match poll(&receiver_lease, &registry, 4242, 2, 30) {
        PollAction::Connect { address } => assert_eq!(address, "192.168.1.5:2222"),
        _ => panic!("expected the sender's address"),
    }
    let key = SessionKey { bytes: vec![1, 2, 3] };
    let mut s = KeyAgreement::new(sender_lease);
    let mut r = KeyAgreement::new(receiver_lease);
    s.start(3);
    r.start(3);
    s.on_exchange(4, Derived { key: key.clone(), own: 10, expected: 20 });
    r.on_exchange(4, Derived { key: key.clone(), own: 20, expected: 10 });
    s.on_confirmation(20);
    r.on_confirmation(10);
    assert!(matches!(s.state, KaState::Confirmed { .. }) && matches!(r.state, KaState::Confirmed { .. }));

    let m = docs();
    assert_eq!(m.total, 46);
    assert_eq!(m.entries[0].path, b"a.txt".to_vec());
    let mut r = Receiver::start(m, 7, None);
    assert_eq!(r.resume_offsets(), vec![0, 0]);
    assert_eq!(r.accept_chunk(0, 0, 12, 0, true), Ok(()));
    assert_eq!(r.finish_file(0, 0xa), Ok(()));
    assert_eq!(r.state, TransferState::Streaming);
    assert_eq!(r.accept_chunk(1, 0, 20, 1, true), Ok(()));
    assert_eq!(r.accept_chunk(1, 20, 14, 2, true), Ok(()));
    assert_eq!(r.finish_file(1, 0xb), Ok(()));
    assert_eq!(r.state, TransferState::Completed);
    assert_eq!(r.offsets.iter().sum::<u64>(), 46);
    assert!(r.progress().is_none());
}

#[test]
fn chunks_cover_the_rest_of_a_file() {
    assert_eq!(next_chunk(34, 0, 16), Some((0, 16)));
    assert_eq!(next_chunk(34, 16, 16), Some((16, 16)));
    assert_eq!(next_chunk(34, 32, 16), Some((32, 2)));
    assert_eq!(next_chunk(34, 34, 16), None);
    assert_eq!(next_chunk(0, 0, 16), None);
}

#[test]
fn sender_and_receiver_resume_after_drop() {
    let mut rx = Receiver::start(docs(), 7, None);
    let mut tx = Sender::start(docs(), rx.resume_offsets()).unwrap();
    let first = tx.next(8).unwrap();
    assert_eq!(first, ChunkPlan { file: 0, offset: 0, len: 8, seq: 0 });
    assert_eq!(rx.accept_chunk(first.file, first.offset, first.len, first.seq, true), Ok(()));
    rx.fail(SessionError::TransportError);

    let saved = rx.progress().unwrap();
    let mut rx = Receiver::start(docs(), 7, Some(saved));
    let mut tx = Sender::start(docs(), rx.resume_offsets()).unwrap();
    let mut sent = Vec::new();
    while let Some(c) = tx.next(16) {
        assert!(!(c.file == 0 && c.offset < 8));
        assert_eq!(rx.accept_chunk(c.file, c.offset, c.len, c.seq, true), Ok(()));
        if c.offset + c.len == rx.manifest.entries[c.file].size {
            let sum = rx.manifest.entries[c.file].checksum;
            assert_eq!(rx.finish_file(c.file, sum), Ok(()));
        }
        sent.push(c);
    }
    assert_eq!(sent, vec![
        ChunkPlan { file: 0, offset: 8, len: 4, seq: 0 },
        ChunkPlan { file: 1, offset: 0, len: 16, seq: 1 },
        ChunkPlan { file: 1, offset: 16, len: 16, seq: 2 },
        ChunkPlan { file: 1, offset: 32, len: 2, seq: 3 },
    ]);
    assert_eq!(rx.state, TransferState::Completed);
    assert_eq!(rx.offsets.iter().sum::<u64>(), rx.manifest.total);
    assert!(rx.progress().is_none());
}

#[test]
fn sender_refuses_offsets_that_do_not_fit() {
    assert_eq!(Sender::start(docs(), vec![0]).unwrap_err(), SessionError::TransportError);
    assert_eq!(Sender::start(docs(), vec![13, 0]).unwrap_err(), SessionError::TransportError);
    let mut done = Sender::start(docs(), vec![12, 34]).unwrap();
    assert_eq!(done.next(16), None);
}

#[test]
fn one_writer_per_progress_key() {
    let mut locks = ProgressLocks::new();
    assert!(locks.acquire((7, 99)));
    assert!(!locks.acquire((7, 99)));
    assert!(locks.acquire((7, 100)));
    assert!(locks.release((7, 99)));
    assert!(!locks.release((7, 99)));
    assert!(locks.acquire((7, 99)));
    assert_eq!(locks.held.len(), 2);
}

#[test]
fn manifest_needs_ascending_paths() {
    let e = Manifest::new(b"d".to_vec(), true, vec![entry("b", 1, 0), entry("a", 1, 0)], 0);
    assert_eq!(e.unwrap_err(), ManifestError::Unordered { index: 1 });
    let dup = Manifest::new(b"d".to_vec(), true, vec![entry("a", 1, 0), entry("a", 1, 0)], 0);
    assert_eq!(dup.unwrap_err(), ManifestError::Unordered { index: 1 });
    let prefix = Manifest::new(b"d".to_vec(), true, vec![entry("a", 1, 0), entry("a/b", 2, 0), entry("ab", 3, 0)], 0);
    assert_eq!(prefix.unwrap().total, 6);
}

#[test]
fn manifest_total_must_fit() {
    let e = Manifest::new(b"d".to_vec(), true, vec![entry("a", u64::MAX, 0), entry("b", 1, 0)], 0);
    assert_eq!(e.unwrap_err(), ManifestError::TooLarge);
}

#[test]
fn empty_directory_completes_at_once() {
    let m = Manifest::new(b"d".to_vec(), true, vec![], 0).unwrap();
    let r = Receiver::start(m, 1, None);
    assert_eq!(r.state, TransferState::Completed);
}

#[test]
fn resume_after_drop_skips_confirmed_bytes() {
    let mut r = Receiver::start(docs(), 7, None);
    assert_eq!(r.accept_chunk(0, 0, 5, 0, true), Ok(()));
    r.fail(SessionError::TransportError);
    assert_eq!(r.state, TransferState::Failed { error: SessionError::TransportError });
    let saved = r.progress().unwrap();
    assert_eq!(saved.offsets, vec![5, 0]);
    let mut again = Receiver::start(docs(), 7, Some(saved));
    assert_eq!(again.resume_offsets(), vec![5, 0]);
    assert_eq!(again.accept_chunk(0, 0, 5, 0, true), Err(SessionError::IntegrityFailure { file: 0, offset: 0 }));
    assert_eq!(again.accept_chunk(0, 3, 9, 0, true), Err(SessionError::IntegrityFailure { file: 0, offset: 3 }));
    assert_eq!(again.accept_chunk(0, 5, 7, 0, true), Ok(()));
    assert_eq!(again.finish_file(0, 0xa), Ok(()));
}

#[test]
fn saved_progress_of_another_item_is_ignored() {
    let other = Progress { fingerprint: 7, manifest_checksum: 100, offsets: vec![5, 0] };
    assert_eq!(Receiver::start(docs(), 7, Some(other)).resume_offsets(), vec![0, 0]);
    let wrong_fp = Progress { fingerprint: 8, manifest_checksum: 99, offsets: vec![5, 0] };
    assert_eq!(Receiver::start(docs(), 7, Some(wrong_fp)).resume_offsets(), vec![0, 0]);
    let too_far = Progress { fingerprint: 7, manifest_checksum: 99, offsets: vec![13, 0] };
    assert_eq!(Receiver::start(docs(), 7, Some(too_far)).resume_offsets(), vec![0, 0]);
}

#[test]
fn bad_chunks_are_refused() {
    let mut r = Receiver::start(docs(), 7, None);
    assert_eq!(r.accept_chunk(0, 0, 4, 0, false), Err(SessionError::IntegrityFailure { file: 0, offset: 0 }));
    assert_eq!(r.accept_chunk(0, 0, 4, 1, true), Err(SessionError::IntegrityFailure { file: 0, offset: 0 }));
    assert_eq!(r.accept_chunk(0, 0, 13, 0, true), Err(SessionError::IntegrityFailure { file: 0, offset: 0 }));
    assert_eq!(r.accept_chunk(2, 0, 1, 0, true), Err(SessionError::IntegrityFailure { file: 2, offset: 0 }));
    assert_eq!(r.accept_chunk(0, 0, 4, 0, true), Ok(()));
    assert_eq!(r.accept_chunk(0, 4, 4, 0, true), Err(SessionError::IntegrityFailure { file: 0, offset: 4 }));
    assert_eq!(r.next_seq, 1);
}

#[test]
fn checksum_mismatch_discards_file() {
    let mut r = Receiver::start(docs(), 7, None);
    assert_eq!(r.finish_file(0, 0xa), Err(SessionError::IntegrityFailure { file: 0, offset: 0 }));
    assert_eq!(r.accept_chunk(0, 0, 12, 0, true), Ok(()));
    assert_eq!(r.finish_file(0, 0xbad), Err(SessionError::IntegrityFailure { file: 0, offset: 0 }));
    assert_eq!(r.resume_offsets(), vec![0, 0]);
    assert_eq!(r.state, TransferState::Streaming);
    r.fail(SessionError::TransportError);
    assert_eq!(r.accept_chunk(0, 0, 12, 1, true), Err(SessionError::TransportError));
    assert_eq!(r.finish_file(0, 0xa), Err(SessionError::TransportError));
}

#[test]
fn rename_applies_to_root_only() {
    assert_eq!(target_path(&b"docs".to_vec(), &None, &b"sub/a.txt".to_vec()), b"docs/sub/a.txt".to_vec());
    assert_eq!(target_path(&b"docs".to_vec(), &Some(b"papers".to_vec()), &b"sub/a.txt".to_vec()), b"papers/sub/a.txt".to_vec());
}

fn cli(cmd: Command) -> Cli {
    Cli { cmd, verbose: false }
}

#[test]
fn send_decides_by_entry_kind() {
    let args = || cli(Command::Send(SendArgs { path: "docs".to_string(), verbose: false }));
    let p = send::run(args(), EntryKind::Directory).unwrap();
    assert!(p.is_dir && p.path == "docs" && p.code.high <= 9999 && p.code.low <= 9999);
    assert!(!send::run(args(), EntryKind::File).unwrap().is_dir);
    assert_eq!(send::run(args(), EntryKind::Other).unwrap_err(), RunError::UnsupportedFileType);
    assert_eq!(send::run(args(), EntryKind::Missing).unwrap_err(), RunError::Inaccessible);
    assert_eq!(send::run(cli(Command::Discover(DiscoverArgs { verbose: false })), EntryKind::File).unwrap_err(), RunError::WrongCommand);
}

#[test]
fn receive_parses_code_and_rename() {
    let a = ReceiveArgs { code: "4821-9073".to_string(), rename: Some("x".to_string()), verbose: false };
    let p = receive::run(cli(Command::Receive(a))).unwrap();
    assert_eq!((p.code.high, p.code.low), (4821, 9073));
    assert_eq!(p.rename, Some("x".to_string()));
    let bad = ReceiveArgs { code: "48-21".to_string(), rename: None, verbose: false };
    assert_eq!(receive::run(cli(Command::Receive(bad))).unwrap_err(), RunError::MalformedCode);
    let d = cli(Command::Discover(DiscoverArgs { verbose: true }));
    assert_eq!(receive::run(d).unwrap_err(), RunError::WrongCommand);
}

#[test]
fn discover_takes_only_discover() {
    assert!(discover::run(cli(Command::Discover(DiscoverArgs { verbose: true }))).unwrap().verbose);
    let s = cli(Command::Send(SendArgs { path: "p".to_string(), verbose: false }));
    assert_eq!(discover::run(s).unwrap_err(), RunError::WrongCommand);
}

#[test]
fn verbose_raises_log_level() {
    assert_eq!(log_level(&Cli { cmd: Command::Discover(DiscoverArgs { verbose: false }), verbose: true }), LogLevel::Debug);
    assert_eq!(log_level(&cli(Command::Discover(DiscoverArgs { verbose: false }))), LogLevel::Warn);
}

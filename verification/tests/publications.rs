use mko_core::atomic::{
    capability_filename, cleanup_capability_entry, cleanup_quarantine,
    ensure_no_publication_quarantine, finish_reap, publication_lock_filename,
    publication_locked_error, publication_record_is_stale, publication_target,
    reap_publication_quarantine, resolve_publication_quarantine, scan_publication_quarantines,
    secure_cleanup_token, temporary_filename, validate_capability_destination, write_new,
    AtomicWriteResult, Destination, Moved, PublicationEntry, PublicationEvent,
    PublicationLockRecord, PublicationLockStep, PublicationQuarantine, PublicationReading,
    PublishStep, PutAway,
};
use mko_core::error::MkoError;
use mko_core::lock::{cleanup_name, EntryFate, FileIdentity, LockWitness, OwnerSight};
use mko_core::model::Timestamp;
use mko_core::path_policy::PathPart;

const TOKEN: &str = "00112233445566778899aabbccddeeff";
const LOCK: &str = ".a.md.publish.lock";

fn lock_record() -> PublicationLockRecord {
    PublicationLockRecord {
        pid: 3,
        hostname: "host".into(),
        started_at: Timestamp { seconds: 0, nanos: 0 },
        owner_token: TOKEN.into(),
    }
}

fn owner(now: i64, live: bool) -> OwnerSight {
    OwnerSight::Seen(LockWitness {
        hostname: "host".into(),
        now: Timestamp { seconds: now, nanos: 0 },
        owner_is_live: live,
    })
}

fn file(inode: u64) -> FileIdentity {
    FileIdentity { device: 1, inode }
}

fn read(record: Option<PublicationLockRecord>, inode: u64) -> PublicationReading {
    PublicationReading::Read { record, identity: file(inode) }
}

fn named(name: String, reading: PublicationReading) -> PublicationEntry {
    PublicationEntry::Named { name, reading, second_look: Some(file(8)), late: false }
}

fn valid() -> PublicationQuarantine {
    PublicationQuarantine {
        filename: cleanup_name(LOCK, TOKEN),
        record: Some(lock_record()),
        authenticated: true,
        identity: Some(file(1)),
    }
}

fn failure() -> MkoError {
    MkoError::new("registry_write_failed", "disk")
}

#[test]
fn destinations_are_regular_files() {
    assert_eq!(write_new(&Destination::Absent).unwrap(), AtomicWriteResult::Created);
    assert_eq!(write_new(&Destination::Regular).unwrap(), AtomicWriteResult::Existing);
    assert_eq!(
        write_new(&Destination::Other).unwrap_err().code(),
        "registry_destination_invalid"
    );
    assert_eq!(
        write_new(&Destination::Unknown("io".into())).unwrap_err().message(),
        "io"
    );
    assert!(validate_capability_destination(&Destination::Regular).is_ok());
    assert_eq!(
        validate_capability_destination(&Destination::Absent).unwrap_err().code(),
        "registry_not_found"
    );
    assert_eq!(
        validate_capability_destination(&Destination::Other).unwrap_err().code(),
        "registry_destination_invalid"
    );
}

#[test]
fn publications_name_one_file() {
    assert_eq!(capability_filename(&vec![PathPart::Name("a.md".into())]).unwrap(), "a.md");
    for parts in [
        vec![],
        vec![PathPart::Traversal],
        vec![PathPart::Name("a".into()), PathPart::Name("b".into())],
    ] {
        assert_eq!(
            capability_filename(&parts).unwrap_err().message(),
            "registry filename must be a single relative component"
        );
    }
    assert_eq!(
        capability_filename(&vec![PathPart::NotUtf8]).unwrap_err().message(),
        "registry filename must be valid UTF-8"
    );
    assert_eq!(publication_target(true, Some("a.md".into())).unwrap(), "a.md");
    assert!(publication_target(false, Some("a.md".into())).is_err());
    assert!(publication_target(true, None).is_err());
    assert_eq!(publication_lock_filename("a.md"), LOCK);
    assert_eq!(temporary_filename("a.md", TOKEN), format!(".a.md.{TOKEN}.tmp"));
    let token = secure_cleanup_token().unwrap();
    assert_eq!(token.len(), 32);
    assert!(token.bytes().all(|byte| byte.is_ascii_digit() || (b'a'..=b'f').contains(&byte)));
}

#[test]
fn publication_quarantines_are_scanned() {
    let entries = vec![
        named(cleanup_name(LOCK, TOKEN), read(Some(lock_record()), 1)),
        named("a.md".into(), read(None, 2)),
        named(
            cleanup_name(LOCK, "ffffffffffffffffffffffffffffffff"),
            PublicationReading::Failed(failure()),
        ),
    ];
    let found = scan_publication_quarantines(LOCK, &entries).unwrap();
    assert_eq!(found.len(), 2);
    assert!(found[0].authenticated);
    assert!(!found[1].authenticated);
    assert_eq!(found[1].identity, Some(file(8)));
    assert_eq!(
        scan_publication_quarantines(LOCK, &vec![PublicationEntry::Late]).unwrap_err().code(),
        "registry_scan_limit"
    );
    assert!(ensure_no_publication_quarantine(&vec![]).is_ok());
    assert_eq!(
        ensure_no_publication_quarantine(&found).unwrap_err().code(),
        "registry_locked"
    );
}

#[test]
fn noise_does_not_count_against_the_scan() {
    let mut entries: Vec<PublicationEntry> =
        (0..200).map(|index| named(format!("noise-{index}"), read(None, index))).collect();
    for _ in 0..64 {
        entries.push(named(cleanup_name(LOCK, TOKEN), read(Some(lock_record()), 1)));
    }
    assert_eq!(scan_publication_quarantines(LOCK, &entries).unwrap().len(), 64);
    entries.push(named(cleanup_name(LOCK, TOKEN), read(Some(lock_record()), 1)));
    assert_eq!(
        scan_publication_quarantines(LOCK, &entries).unwrap_err().code(),
        "registry_scan_limit"
    );
}

#[test]
fn working_publications_are_waited_for() {
    assert_eq!(
        resolve_publication_quarantine(&valid(), &owner(10, false)).unwrap_err().code(),
        "registry_locked"
    );
    assert!(resolve_publication_quarantine(&valid(), &owner(901, false)).is_ok());
    assert!(publication_record_is_stale(&lock_record(), &owner(901, false)).unwrap());
    assert!(!publication_record_is_stale(&lock_record(), &owner(901, true)).unwrap());
    let mut broken = valid();
    broken.authenticated = false;
    assert!(resolve_publication_quarantine(&broken, &owner(10, false)).is_ok());
    assert_eq!(
        finish_reap(&broken).unwrap_err().code(),
        "registry_quarantine_invalid"
    );
    assert!(finish_reap(&valid()).is_ok());
}

#[test]
fn reaping_checks_what_was_moved() {
    let same = read(Some(lock_record()), 1);
    assert!(reap_publication_quarantine(&valid(), &Moved::Done, Some(file(1)), &same).is_ok());
    assert_eq!(
        reap_publication_quarantine(&valid(), &Moved::Gone, Some(file(1)), &same)
            .unwrap_err()
            .code(),
        "registry_locked"
    );
    assert_eq!(
        reap_publication_quarantine(&valid(), &Moved::Failed(failure()), None, &same)
            .unwrap_err()
            .message(),
        "disk"
    );
    assert_eq!(
        reap_publication_quarantine(&valid(), &Moved::Done, Some(file(2)), &same)
            .unwrap_err()
            .message(),
        "publication quarantine changed during recovery"
    );
    let mut other = lock_record();
    other.pid = 4;
    assert_eq!(
        reap_publication_quarantine(
            &valid(),
            &Moved::Done,
            Some(file(1)),
            &read(Some(other), 1)
        )
        .unwrap_err()
        .message(),
        "publication quarantine owner changed during recovery"
    );
    assert_eq!(
        reap_publication_quarantine(&valid(), &Moved::Done, None, &same).unwrap_err().code(),
        "registry_quarantine_invalid"
    );
}

#[test]
fn only_own_files_are_deleted() {
    let contents = b"lock".to_vec();
    let own = Some(PutAway { identity: file(1), contents: Some(contents.clone()) });
    assert_eq!(
        cleanup_capability_entry(file(1), Some(&contents), &own),
        EntryFate::Remove
    );
    assert_eq!(
        cleanup_capability_entry(file(1), Some(&b"other".to_vec()), &own),
        EntryFate::Restore
    );
    assert_eq!(cleanup_capability_entry(file(2), None, &own), EntryFate::Restore);
    assert_eq!(cleanup_capability_entry(file(1), None, &own), EntryFate::Remove);
    assert_eq!(cleanup_capability_entry(file(1), None, &None), EntryFate::Restore);
    assert_eq!(cleanup_quarantine("a", Some(TOKEN), "f"), cleanup_name("a", TOKEN));
    assert_eq!(cleanup_quarantine("a", None, "f"), ".a.cleanup-f");
}

#[test]
fn publication_locks_are_waited_for_until_the_deadline() {
    let mut step = PublicationLockStep::Begin;
    for expected in [
        PublicationLockStep::Resolve,
        PublicationLockStep::Open,
        PublicationLockStep::Fill,
        PublicationLockStep::CheckAgain,
        PublicationLockStep::Acquired,
    ] {
        step = step.after(PublicationEvent::Done, false);
        assert_eq!(step, expected);
    }
    assert_eq!(
        PublicationLockStep::Open.after(PublicationEvent::AlreadyThere, false),
        PublicationLockStep::Wait
    );
    assert_eq!(
        PublicationLockStep::Wait.after(PublicationEvent::Done, true),
        PublicationLockStep::Begin
    );
    assert_eq!(
        PublicationLockStep::Begin.after(PublicationEvent::Done, true),
        PublicationLockStep::Refused(publication_locked_error())
    );
    assert_eq!(
        PublicationLockStep::Open.after(PublicationEvent::AlreadyThere, true),
        PublicationLockStep::Refused(publication_locked_error())
    );
    let locked = PublicationEvent::Failed(publication_locked_error());
    assert_eq!(
        PublicationLockStep::Resolve.after(locked.clone(), false),
        PublicationLockStep::Wait
    );
    let back = PublicationLockStep::CheckAgain.after(locked, false);
    assert_eq!(back, PublicationLockStep::TakeBack(publication_locked_error()));
    assert_eq!(back.after(PublicationEvent::Done, false), PublicationLockStep::Wait);
    assert_eq!(
        PublicationLockStep::Resolve.after(PublicationEvent::Failed(failure()), false),
        PublicationLockStep::Refused(failure())
    );
}

#[test]
fn destinations_are_looked_at_right_before_the_rename() {
    let mut step = PublishStep::OpenTemporary;
    for expected in [
        PublishStep::Identify,
        PublishStep::Write,
        PublishStep::Prepare,
        PublishStep::Validate,
        PublishStep::Rename,
        PublishStep::Sync,
        PublishStep::Published,
    ] {
        step = step.after(true, Ok(()));
        assert_eq!(step, expected);
    }
    assert_eq!(PublishStep::Write.after(false, Ok(())), PublishStep::Rename);
    let back = PublishStep::Validate.after(true, Err(failure()));
    assert_eq!(back, PublishStep::TakeBack(failure()));
    assert_eq!(back.after(true, Ok(())), PublishStep::Refused(failure()));
    assert_eq!(
        PublishStep::OpenTemporary.after(true, Err(failure())),
        PublishStep::Refused(failure())
    );
}

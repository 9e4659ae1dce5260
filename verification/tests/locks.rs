use mko_core::error::MkoError;
use mko_core::local_path::{LocalPath, PathStep};
use mko_core::lock::{
    asks_for_owner, authoritative_quarantine_target, begin_stale_removal, check_lock_file,
    cleanup_lock_entry, cleanup_name, cleanup_quarantine, clear_stale_takeover_if_requested,
    ensure_no_authoritative_quarantine, finish_stale_removal, inspect_locks, is_lock_name,
    lock_held_error, lock_record, map_repository_lock_error, next_owner_token, owner_token_is_valid,
    owner_token_secret, read_lock_record, reap_authoritative_quarantine, reap_name,
    record_fits, record_is_stale, resolve_authoritative_quarantines,
    scan_authoritative_quarantines, secret_from, secure_token, takeover_filename,
    validate_asset_id, AcquireStep, AssetLock, AssetQuarantine, CreateEvent, CreateStep, EntryFate,
    FileIdentity, LockEntry, LockKind, LockReading, LockRecord, LockState, LockWitness, OwnerSight,
    Presence, RepositoryMutationLock, StaleRepositoryLockPolicy,
};
use mko_core::model::Timestamp;

const SECRET: &str = "0123456789abcdef0123456789abcdef";
const HOUR: i64 = 3_600;

fn asset_id() -> String {
    format!("personal-asset-{}", "a".repeat(64))
}

fn filename() -> String {
    format!("{}.lock", asset_id())
}

fn at(seconds: i64) -> Timestamp {
    Timestamp { seconds, nanos: 0 }
}

fn record(started_at: i64) -> LockRecord {
    lock_record(
        7,
        "host",
        at(started_at),
        "prepare",
        &asset_id(),
        &next_owner_token(7, 1, SECRET),
    )
}

fn witness(now: i64, live: bool) -> LockWitness {
    LockWitness { hostname: "host".into(), now: at(now), owner_is_live: live }
}

fn seen(now: i64, live: bool) -> OwnerSight {
    OwnerSight::Seen(witness(now, live))
}

fn identity(inode: u64) -> FileIdentity {
    FileIdentity { device: 1, inode }
}

fn reading(record: Option<LockRecord>, inode: u64) -> LockReading {
    LockReading::Read { record, identity: identity(inode) }
}

fn entry(name: &str, reading: LockReading, owner: OwnerSight) -> LockEntry {
    LockEntry::Named {
        name: name.into(),
        is_text: true,
        reading,
        owner,
        second_look: Ok(Some(identity(9))),
    }
}

fn quarantine(record: Option<LockRecord>, authenticated: bool, owner: OwnerSight) -> AssetQuarantine {
    AssetQuarantine {
        filename: cleanup_name(&filename(), SECRET),
        record,
        authenticated,
        identity: Some(identity(3)),
        owner,
    }
}

fn posix(text: &str) -> LocalPath {
    let mut steps: Vec<PathStep> = Vec::new();
    if text.starts_with('/') {
        steps.push(PathStep::Root);
    }
    for (index, name) in text.split('/').enumerate() {
        match name {
            "" => {}
            "." if index > 0 => {}
            "." => steps.push(PathStep::Current),
            ".." => steps.push(PathStep::Parent),
            _ => steps.push(PathStep::Name(name.into())),
        }
    }
    LocalPath {
        text: text.into(),
        drive: String::new(),
        separator: '/',
        is_verbatim: false,
        is_absolute: text.starts_with('/'),
        steps,
    }
}

#[test]
fn owner_tokens_hold_their_secret() {
    let token = next_owner_token(42, 7, SECRET);
    assert_eq!(token, format!("42-7-{SECRET}"));
    assert!(owner_token_is_valid(&token));
    assert_eq!(owner_token_secret(&token), Some(SECRET));
    assert!(!owner_token_is_valid(&format!("42-{SECRET}")));
    assert_eq!(owner_token_secret(&format!("42-{SECRET}")), Some(SECRET));
    assert_eq!(owner_token_secret(SECRET), None);
    assert_eq!(owner_token_secret("42-7-0123"), None);
    assert!(!owner_token_is_valid("42-7-0123456789ABCDEF0123456789ABCDEF"));
}

#[test]
fn secrets_are_printed_bytes() {
    let bytes = [0x01, 0x23, 0x45, 0x67, 0x89, 0xab, 0xcd, 0xef, 0, 1, 2, 3, 4, 5, 6, 0xff];
    assert_eq!(secret_from(&bytes), "0123456789abcdef00010203040506ff");
    let first = secure_token().unwrap();
    let second = secure_token().unwrap();
    assert_eq!(first.len(), 32);
    assert!(owner_token_is_valid(&next_owner_token(1, 2, &first)));
    assert_ne!(first, second);
}

#[test]
fn quarantine_names_tell_file_and_secret() {
    let name = cleanup_name("x.lock", SECRET);
    assert_eq!(name, format!(".x.lock.cleanup-{SECRET}"));
    assert_eq!(authoritative_quarantine_target(&name), Some(("x.lock", SECRET)));
    let nested = cleanup_name(&name, SECRET);
    assert_eq!(authoritative_quarantine_target(&nested), Some((name.as_str(), SECRET)));
    for other in [
        "x.lock".to_string(),
        format!("x.lock.cleanup-{SECRET}"),
        ".x.lock.cleanup-1".to_string(),
        format!(".x.lock.cleanup-{SECRET}.reap-{SECRET}"),
    ] {
        assert_eq!(authoritative_quarantine_target(&other), None, "{other}");
    }
    assert_eq!(reap_name(&name, SECRET), format!("{name}.reap-{SECRET}"));
    assert_eq!(takeover_filename("x.lock"), "x.lock.takeover");
}

#[test]
fn locks_are_stale_after_a_quarter_of_an_hour() {
    let held = record(0);
    assert!(!record_is_stale(&held, &witness(900, false)));
    assert!(record_is_stale(&held, &witness(901, false)));
    assert!(!record_is_stale(&held, &witness(901, true)));
    let mut elsewhere = witness(HOUR, false);
    elsewhere.hostname = "other".into();
    assert!(!record_is_stale(&held, &elsewhere));
    let mut barely = witness(900, false);
    barely.now.nanos = 1;
    assert!(record_is_stale(&held, &barely));
    assert!(asks_for_owner("host", at(0), "host", at(901)));
    assert!(!asks_for_owner("host", at(0), "host", at(900)));
    assert!(!asks_for_owner("host", at(0), "other", at(HOUR)));
}

#[test]
fn leap_seconds_count_once() {
    // The last second of a day that has a leap second.
    let leap = Timestamp { seconds: 86_399, nanos: 1_500_000_000 };
    let mut held = record(0);
    held.started_at = leap;
    // 899.5 seconds after the leap second, on the next day.
    let next_day = LockWitness {
        hostname: "host".into(),
        now: Timestamp { seconds: 86_400 + 900, nanos: 500_000_000 },
        owner_is_live: false,
    };
    assert!(!record_is_stale(&held, &next_day));
    let later = LockWitness { now: at(86_400 + 902), ..next_day };
    assert!(record_is_stale(&held, &later));
}

#[test]
fn lock_names_are_told_apart() {
    assert!(is_lock_name("a.lock"));
    assert!(is_lock_name("a.lock.takeover"));
    assert!(is_lock_name(&cleanup_name("a.lock", SECRET)));
    assert!(!is_lock_name("a.lock.tmp"));
    assert!(!is_lock_name("notes.md"));
}

#[test]
fn inspections_are_ordered_by_path() {
    let entries = vec![
        entry("b.lock", reading(Some(record(0)), 1), seen(HOUR, false)),
        entry("notes.md", reading(None, 1), seen(0, false)),
        entry("a.lock", reading(Some(record(0)), 2), seen(HOUR, true)),
        entry("c.lock.takeover", reading(None, 3), seen(HOUR, false)),
        entry(
            "d.lock",
            LockReading::Failed(MkoError::new("lock_quarantine_invalid", "link")),
            seen(HOUR, false),
        ),
    ];
    let found = inspect_locks(&posix("/repo"), &entries).unwrap();
    let told: Vec<(String, LockState)> =
        found.into_iter().map(|lock| (lock.path.text, lock.state)).collect();
    assert_eq!(
        told,
        vec![
            ("/repo/.knowledge-os/runtime/locks/a.lock".to_string(), LockState::Active),
            ("/repo/.knowledge-os/runtime/locks/b.lock".to_string(), LockState::Stale),
            (
                "/repo/.knowledge-os/runtime/locks/c.lock.takeover".to_string(),
                LockState::Unreadable
            ),
            ("/repo/.knowledge-os/runtime/locks/d.lock".to_string(), LockState::Unreadable),
        ]
    );
}

#[test]
fn inspections_are_bounded() {
    let many: Vec<LockEntry> = (0..65)
        .map(|index| {
            entry(&format!("noise-{index}"), reading(None, index), seen(0, false))
        })
        .collect();
    assert_eq!(inspect_locks(&posix("/repo"), &many).unwrap_err().code(), "lock_scan_limit");
    assert_eq!(
        inspect_locks(&posix("/repo"), &vec![LockEntry::Late]).unwrap_err().code(),
        "lock_scan_limit"
    );
    assert_eq!(
        inspect_locks(&posix("/repo"), &vec![LockEntry::Failed("gone".into())]).unwrap_err().message(),
        "gone"
    );
    let limited = entry(
        "a.lock",
        LockReading::Failed(MkoError::new("lock_scan_limit", "slow")),
        seen(0, false),
    );
    assert_eq!(inspect_locks(&posix("/repo"), &vec![limited]).unwrap_err().message(), "slow");
    let unknown = entry(
        "a.lock",
        reading(Some(record(0)), 1),
        OwnerSight::Unknown(MkoError::new("lock_hostname_failed", "none")),
    );
    assert_eq!(
        inspect_locks(&posix("/repo"), &vec![unknown]).unwrap_err().code(),
        "lock_hostname_failed"
    );
}

#[test]
fn quarantines_under_a_foreign_name_are_unreadable() {
    let name = cleanup_name(&filename(), "ffffffffffffffffffffffffffffffff");
    let entries = vec![entry(&name, reading(Some(record(0)), 1), seen(HOUR, false))];
    let found = inspect_locks(&posix("/repo"), &entries).unwrap();
    assert_eq!(found[0].state, LockState::Unreadable);
    let own = cleanup_name(&filename(), SECRET);
    let entries = vec![entry(&own, reading(Some(record(0)), 1), seen(HOUR, false))];
    assert_eq!(inspect_locks(&posix("/repo"), &entries).unwrap()[0].state, LockState::Stale);
}

#[test]
fn scans_find_the_quarantines_of_one_file() {
    let own = cleanup_name(&filename(), SECRET);
    let entries = vec![
        entry(&own, reading(Some(record(0)), 3), seen(HOUR, false)),
        entry(&cleanup_name("other.lock", SECRET), reading(None, 4), seen(0, false)),
        entry(
            &own,
            LockReading::Failed(MkoError::new("lock_quarantine_invalid", "link")),
            seen(0, false),
        ),
    ];
    let found = scan_authoritative_quarantines(&filename(), &entries).unwrap();
    assert_eq!(found.len(), 2);
    assert!(found[0].authenticated);
    assert_eq!(found[0].identity, Some(identity(3)));
    assert_eq!(found[1].record, None);
    assert_eq!(found[1].identity, Some(identity(9)));
    assert_eq!(
        scan_authoritative_quarantines("x", &vec![LockEntry::Late]).unwrap_err().code(),
        "lock_scan_limit"
    );
}

#[test]
fn quarantines_stand_in_the_way_of_new_locks() {
    let id = asset_id();
    assert!(ensure_no_authoritative_quarantine(&vec![], &id).is_ok());
    let held = vec![quarantine(Some(record(0)), true, seen(HOUR, false))];
    assert_eq!(
        ensure_no_authoritative_quarantine(&held, &id).unwrap_err().code(),
        "lock_held"
    );
    for broken in [
        quarantine(None, false, seen(HOUR, false)),
        quarantine(Some(record(0)), false, seen(HOUR, false)),
    ] {
        assert_eq!(
            ensure_no_authoritative_quarantine(&vec![broken], &id).unwrap_err().code(),
            "lock_quarantine_invalid"
        );
    }
    let foreign = vec![quarantine(Some(record(0)), true, seen(HOUR, false))];
    assert_eq!(
        ensure_no_authoritative_quarantine(&foreign, "other").unwrap_err().code(),
        "lock_quarantine_invalid"
    );
}

#[test]
fn active_quarantines_block_even_an_explicit_clear() {
    let id = asset_id();
    let active = vec![quarantine(Some(record(0)), true, seen(10, false))];
    assert_eq!(
        resolve_authoritative_quarantines(&active, &id, true).unwrap_err().code(),
        "lock_held"
    );
    let stale = vec![quarantine(Some(record(0)), true, seen(HOUR, false))];
    assert!(resolve_authoritative_quarantines(&stale, &id, true).is_ok());
    assert_eq!(
        resolve_authoritative_quarantines(&stale, &id, false).unwrap_err().code(),
        "lock_held"
    );
    let broken = vec![quarantine(None, false, seen(HOUR, false))];
    assert!(resolve_authoritative_quarantines(&broken, &id, true).is_ok());
    assert_eq!(
        resolve_authoritative_quarantines(&broken, &id, false).unwrap_err().code(),
        "lock_quarantine_invalid"
    );
}

#[test]
fn reaped_quarantines_are_the_ones_that_were_found() {
    let found = quarantine(Some(record(0)), true, seen(HOUR, false));
    assert!(reap_authoritative_quarantine(&found, &reading(Some(record(0)), 3)).unwrap());
    let moved = reap_authoritative_quarantine(&found, &reading(Some(record(0)), 4)).unwrap_err();
    assert_eq!(moved.message(), "quarantined lock changed during recovery");
    let changed = reap_authoritative_quarantine(&found, &reading(Some(record(1)), 3)).unwrap_err();
    assert_eq!(changed.message(), "quarantined lock owner changed during recovery");
    let failed = LockReading::Failed(MkoError::new("x", "y"));
    assert_eq!(
        reap_authoritative_quarantine(&found, &failed).unwrap_err().code(),
        "lock_clear_failed"
    );
    let mut unknown = quarantine(None, false, seen(HOUR, false));
    unknown.identity = None;
    assert!(!reap_authoritative_quarantine(&unknown, &failed).unwrap());
}

#[test]
fn stale_locks_are_put_away_under_the_secret_of_their_owner() {
    let held = reading(Some(record(0)), 1);
    let name = begin_stale_removal(
        &filename(),
        &held,
        "told",
        &asset_id(),
        &seen(HOUR, false),
        "ffffffffffffffffffffffffffffffff",
    )
    .unwrap();
    assert_eq!(name, cleanup_name(&filename(), SECRET));
    for owner in [seen(10, false), seen(HOUR, true)] {
        assert_eq!(
            begin_stale_removal(&filename(), &held, "told", &asset_id(), &owner, SECRET)
                .unwrap_err()
                .code(),
            "lock_held"
        );
    }
    assert_eq!(
        begin_stale_removal(&filename(), &held, "told", "other", &seen(HOUR, false), SECRET)
            .unwrap_err()
            .code(),
        "lock_held"
    );
    let mut tokenless = record(0);
    tokenless.owner_token = "none".into();
    assert_eq!(
        begin_stale_removal(
            "x.lock",
            &reading(Some(tokenless), 1),
            "told",
            &asset_id(),
            &seen(HOUR, false),
            SECRET,
        )
        .unwrap(),
        cleanup_name("x.lock", SECRET)
    );
}

#[test]
fn unreadable_locks_are_inspected_by_hand() {
    let empty = reading(None, 1);
    let failure = read_lock_record(&empty, "told").unwrap_err();
    assert_eq!(failure.code(), "lock_held");
    assert_eq!(failure.message(), "asset operation lock is unreadable; inspect it manually");
    let failed = LockReading::Failed(MkoError::new("x", "y"));
    let failure = read_lock_record(&failed, "told").unwrap_err();
    assert_eq!((failure.code(), failure.message()), ("lock_read_failed", "told"));
}

#[test]
fn only_the_captured_stale_lock_is_removed() {
    let captured = reading(Some(record(0)), 1);
    let finish = |current: LockReading, owner: OwnerSight| {
        finish_stale_removal(&captured, &current, "told", &asset_id(), &owner)
    };
    assert_eq!(
        finish(reading(Some(record(0)), 1), seen(HOUR, false)).unwrap(),
        EntryFate::Remove
    );
    assert_eq!(
        finish(reading(Some(record(0)), 1), seen(HOUR, true)).unwrap(),
        EntryFate::Restore
    );
    assert_eq!(
        finish(reading(Some(record(0)), 2), seen(HOUR, false)).unwrap_err().code(),
        "lock_clear_failed"
    );
    assert_eq!(
        finish(reading(Some(record(5)), 1), seen(HOUR, false)).unwrap_err().message(),
        "lock changed during stale recovery"
    );
}

#[test]
fn replacements_get_their_name_back() {
    let token = next_owner_token(7, 1, SECRET);
    let own = reading(Some(record(0)), 1);
    assert_eq!(cleanup_lock_entry(identity(1), Some(&token), &own), EntryFate::Remove);
    assert_eq!(cleanup_lock_entry(identity(2), Some(&token), &own), EntryFate::Restore);
    assert_eq!(cleanup_lock_entry(identity(1), Some("other"), &own), EntryFate::Restore);
    assert_eq!(cleanup_lock_entry(identity(1), None, &reading(None, 1)), EntryFate::Remove);
    let failed = LockReading::Failed(MkoError::new("x", "y"));
    assert_eq!(cleanup_lock_entry(identity(1), None, &failed), EntryFate::Restore);
    assert_eq!(
        cleanup_quarantine("x.lock", Some(&token), "f"),
        cleanup_name("x.lock", SECRET)
    );
    assert_eq!(cleanup_quarantine("x.lock", None, "f"), ".x.lock.cleanup-f");
}

#[test]
fn held_locks_authorize_their_asset() {
    let token = next_owner_token(7, 1, SECRET);
    let lock = AssetLock::made("/real/repo", &asset_id(), &token, identity(1));
    assert_eq!(lock.filename(), filename());
    assert_eq!(lock.owner_token(), token);
    let own = reading(Some(record(0)), 1);
    assert!(lock.assert_owned_for(Some("/real/repo"), &asset_id(), &own).is_ok());
    for (root, id, found) in [
        (Some("/other"), asset_id(), reading(Some(record(0)), 1)),
        (None, asset_id(), reading(Some(record(0)), 1)),
        (Some("/real/repo"), "other".to_string(), reading(Some(record(0)), 1)),
        (Some("/real/repo"), asset_id(), reading(Some(record(0)), 2)),
        (Some("/real/repo"), asset_id(), reading(None, 1)),
    ] {
        assert_eq!(
            lock.assert_owned_for(root, &id, &found).unwrap_err().code(),
            "asset_lock_mismatch"
        );
    }
    assert_eq!(lock.release(&own), EntryFate::Remove);
    assert_eq!(lock.release(&reading(None, 1)), EntryFate::Restore);
    let repository = RepositoryMutationLock::made("/real/repo", &token, identity(1));
    assert_eq!(repository.release(&own), EntryFate::Remove);
}

#[test]
fn repository_locks_have_codes_of_their_own() {
    assert_eq!(
        map_repository_lock_error(lock_held_error()).code(),
        "repository_lock_held"
    );
    let mapped = map_repository_lock_error(MkoError::new("lock_scan_limit", "slow"));
    assert_eq!((mapped.code(), mapped.message()), ("repository_lock_scan_limit", "slow"));
    let other = map_repository_lock_error(MkoError::new("config_invalid", "m"));
    assert_eq!(other.code(), "config_invalid");
    assert!(StaleRepositoryLockPolicy::Clear.clears());
    assert!(!StaleRepositoryLockPolicy::Preserve.clears());
}

#[test]
fn locks_name_assets_by_content() {
    assert!(validate_asset_id(&asset_id()).is_ok());
    for id in ["asset", "personal-asset-", "personal-asset-ABC"] {
        assert_eq!(validate_asset_id(id).unwrap_err().code(), "asset_id_invalid");
    }
    assert!(check_lock_file(true).is_ok());
    assert_eq!(check_lock_file(false).unwrap_err().code(), "lock_quarantine_invalid");
    assert!(record_fits(4096));
    assert!(!record_fits(4097));
}

#[test]
fn guards_are_cleared_on_request_only() {
    assert!(!clear_stale_takeover_if_requested(&Presence::Absent, true).unwrap());
    assert!(clear_stale_takeover_if_requested(&Presence::Present, true).unwrap());
    assert_eq!(
        clear_stale_takeover_if_requested(&Presence::Present, false).unwrap_err().code(),
        "lock_held"
    );
    assert_eq!(
        clear_stale_takeover_if_requested(&Presence::Unknown("io".into()), false)
            .unwrap_err()
            .message(),
        "io"
    );
}

fn taken() -> Result<(), MkoError> {
    Err(MkoError::new("lock_exists", "asset operation lock already exists"))
}

#[test]
fn taking_a_lock_goes_its_steps() {
    let mut step = AcquireStep::first();
    for expected in [
        AcquireStep::ClearTakeover,
        AcquireStep::ResolveLock,
        AcquireStep::Create,
        AcquireStep::Acquired,
    ] {
        step = step.after(false, Ok(()));
        assert_eq!(step, expected);
    }
    assert_eq!(
        AcquireStep::Create.after(false, taken()),
        AcquireStep::Refused(lock_held_error())
    );
    let mut step = AcquireStep::first();
    for expected in [
        AcquireStep::ClearTakeover,
        AcquireStep::TakeOver,
        AcquireStep::ResolveLock,
        AcquireStep::Create,
    ] {
        step = step.after(true, Ok(()));
        assert_eq!(step, expected);
    }
    step = step.after(true, taken());
    assert_eq!(step, AcquireStep::RemoveStale);
    step = step.after(true, Ok(()));
    assert_eq!(step, AcquireStep::CreateAgain);
    assert_eq!(
        step.after(true, taken()),
        AcquireStep::Refused(lock_held_error())
    );
    let failure = MkoError::new("lock_write_failed", "disk");
    assert_eq!(
        AcquireStep::Create.after(true, Err(failure.clone())),
        AcquireStep::Refused(failure)
    );
}

#[test]
fn making_a_lock_takes_back_what_failed() {
    let mut step = CreateStep::first();
    for expected in [
        CreateStep::Open,
        CreateStep::Identify,
        CreateStep::Write,
        CreateStep::Sync,
        CreateStep::CheckAgain,
        CreateStep::Created,
    ] {
        step = step.after(LockKind::Asset, false, CreateEvent::Done);
        assert_eq!(step, expected);
    }
    let failure = MkoError::new("lock_write_failed", "disk");
    let taken_back =
        CreateStep::Write.after(LockKind::Asset, false, CreateEvent::Failed(failure.clone()));
    assert_eq!(taken_back, CreateStep::TakeBackFile(failure.clone()));
    assert_eq!(
        taken_back.after(LockKind::Asset, false, CreateEvent::Done),
        CreateStep::Refused(failure.clone())
    );
    assert_eq!(
        CreateStep::CheckAgain.after(LockKind::Asset, false, CreateEvent::Failed(failure.clone())),
        CreateStep::TakeBackLock(failure)
    );
    let there = || CreateEvent::AlreadyThere("exists".into());
    assert_eq!(
        CreateStep::Open.after(LockKind::Repository, true, there()),
        CreateStep::Refused(MkoError::new(
            "lock_exists",
            "repository mutation lock already exists"
        ))
    );
    assert_eq!(
        CreateStep::Open.after(LockKind::Takeover, false, there()),
        CreateStep::Refused(lock_held_error())
    );
    assert_eq!(
        CreateStep::Open.after(LockKind::Takeover, true, there()),
        CreateStep::RemoveStale
    );
    assert_eq!(
        CreateStep::OpenAgain.after(LockKind::Takeover, true, there()),
        CreateStep::Refused(MkoError::new("lock_write_failed", "exists"))
    );
}

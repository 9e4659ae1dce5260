//! What locking and writing promise: when a lock counts as left behind, what is told of the
//! locks that stand, who may remove one, how a file is published, and which files a check
//! reads.

use crate::atomic::{
    new_destination, publishing, replaced_destination, single_name, AtomicWriteResult,
    DestinationView, PublicationQuarantineView, PublishStepView,
};
use crate::check::is_repository_path;
use crate::error::ErrorView;
use crate::local_path::{joined_path, named_path, relative_path, LocalPathView};
use crate::lock::{
    acquiring, authorizes, cleanup_secret, creating, inspections, is_authentic, is_owned,
    is_rightful, is_stale, leap_seconds, lock_held, lock_inspections, lock_state, names_a_lock,
    owner_token, quarantine_name, quarantine_target, quarantines_absent, quarantines_resolvable,
    reaping, repository_error, secret_of, stale_fate, stale_removal, staleness, AcquireStepView,
    AssetLockView, AssetQuarantineView, CreateEventView, CreateStepView, EntryFate, FileIdentity,
    LockEntryView, LockInspection, LockInspectionView, LockKind, LockReadingView, LockRecordView,
    LockState, LockWitnessView, OwnerSightView,
};
use crate::order::{sorting_keeps_items, stable_sort};
use crate::path_policy::PathPartView;
use crate::repository_files::{
    index_entry, is_ignored, staged_entry, IndexEntryView, StagedCollectorView,
};
use crate::text::decimal_digits;
use vstd::prelude::*;
use vstd::utf8::{decode_utf8, valid_utf8};

verus! {

/// A lock counts as left behind exactly where it was made on this machine, more than fifteen
/// minutes ago, by a process that is gone.
pub proof fn locks_are_left_behind(record: LockRecordView, witness: LockWitnessView)
    requires
        record.started_at.nanos < 1_000_000_000,
        witness.now.nanos < 1_000_000_000,
    ensures
        is_stale(record, witness) <==> {
            &&& record.hostname == witness.hostname
            &&& !witness.owner_is_live
            &&& witness.now.seconds - record.started_at.seconds > 900 || (witness.now.seconds
                - record.started_at.seconds == 900 && witness.now.nanos > record.started_at.nanos)
        },
        staleness(record, OwnerSightView::Seen(witness)) == Ok::<bool, ErrorView>(
            is_stale(record, witness),
        ),
{
    assert(leap_seconds(witness.now, record.started_at) == 0);
}

/// A lock that can be read is active or left behind; a file that was put away under a name
/// that does not fit its record, and one that cannot be read, is unreadable.
pub proof fn locks_are_told_by_their_record(
    name: Seq<char>,
    record: LockRecordView,
    identity: FileIdentity,
    witness: LockWitnessView,
    failure: ErrorView,
)
    ensures
        ({
            let state = lock_state(
                name,
                LockReadingView::Read { record: Some(record), identity },
                OwnerSightView::Seen(witness),
            );
            let fits = quarantine_target(name) is None || is_authentic(name, record);
            &&& fits && is_stale(record, witness) ==> state == Ok::<LockState, ErrorView>(
                LockState::Stale,
            )
            &&& fits && !is_stale(record, witness) ==> state == Ok::<LockState, ErrorView>(
                LockState::Active,
            )
            &&& !fits ==> state == Ok::<LockState, ErrorView>(LockState::Unreadable)
        }),
        lock_state(
            name,
            LockReadingView::Read { record: None, identity },
            OwnerSightView::Seen(witness),
        ) == Ok::<LockState, ErrorView>(LockState::Unreadable),
        failure.code != "lock_scan_limit"@ ==> lock_state(
            name,
            LockReadingView::Failed(failure),
            OwnerSightView::Seen(witness),
        ) == Ok::<LockState, ErrorView>(LockState::Unreadable),
{
}

proof fn every_lock_is_inspected(
    directory: LocalPathView,
    entries: Seq<LockEntryView>,
    n: int,
    k: int,
)
    requires
        0 <= k < n <= entries.len(),
        inspections(directory, entries, n) is Ok,
        entries[k] matches LockEntryView::Named { name, is_text, reading, owner, .. } && is_text
            && names_a_lock(name),
    ensures
        lock_state(entries[k]->name, entries[k]->reading, entries[k]->owner) is Ok,
        inspections(directory, entries, n)->Ok_0.contains(
            LockInspectionView {
                path: joined_path(directory, named_path(entries[k]->name)),
                state: lock_state(
                    entries[k]->name,
                    entries[k]->reading,
                    entries[k]->owner,
                )->Ok_0,
            },
        ),
    decreases n,
{
    let before = inspections(directory, entries, n - 1)->Ok_0;
    let all = inspections(directory, entries, n)->Ok_0;
    if k < n - 1 {
        every_lock_is_inspected(directory, entries, n - 1, k);
        let wanted = LockInspectionView {
            path: joined_path(directory, named_path(entries[k]->name)),
            state: lock_state(entries[k]->name, entries[k]->reading, entries[k]->owner)->Ok_0,
        };
        let i = choose|i: int| 0 <= i < before.len() && before[i] == wanted;
        assert(all[i] == wanted);
    } else {
        assert(all[all.len() - 1] == all.last());
    }
}

/// Every lock that lies among the locks of a repository is told, with its state and under its
/// path.
pub proof fn every_standing_lock_is_told(
    root: LocalPathView,
    entries: Seq<LockEntryView>,
    k: int,
)
    requires
        0 <= k < entries.len(),
        lock_inspections(root, entries) is Ok,
        entries[k] matches LockEntryView::Named { name, is_text, reading, owner, .. } && is_text
            && (".lock"@.is_suffix_of(name) || ".lock.takeover"@.is_suffix_of(name)),
    ensures
        lock_inspections(root, entries)->Ok_0.contains(
            LockInspectionView {
                path: joined_path(
                    joined_path(root, relative_path(".knowledge-os/runtime/locks"@)),
                    named_path(entries[k]->name),
                ),
                state: lock_state(
                    entries[k]->name,
                    entries[k]->reading,
                    entries[k]->owner,
                )->Ok_0,
            },
        ),
{
    let directory = joined_path(root, relative_path(".knowledge-os/runtime/locks"@));
    every_lock_is_inspected(directory, entries, entries.len() as int, k);
    let found = inspections(directory, entries, entries.len() as int)->Ok_0;
    let sorted = stable_sort::<LockInspection>(found);
    let wanted = LockInspectionView {
        path: joined_path(directory, named_path(entries[k]->name)),
        state: lock_state(entries[k]->name, entries[k]->reading, entries[k]->owner)->Ok_0,
    };
    sorting_keeps_items::<LockInspection>(found);
    found.to_multiset_ensures();
    sorted.to_multiset_ensures();
    assert(found.to_multiset().count(wanted) > 0);
    assert(sorted.to_multiset().count(wanted) > 0);
}

/// A lock is removed as left behind only where it is the one of this Asset and counts as left
/// behind; it is put away under a name that tells its secret, where it has one.
pub proof fn only_left_locks_are_removed(
    filename: Seq<char>,
    record: LockRecordView,
    identity: FileIdentity,
    told: Seq<char>,
    asset_id: Seq<char>,
    witness: LockWitnessView,
    fresh: Seq<char>,
)
    ensures
        ({
            let removal = stale_removal(
                filename,
                LockReadingView::Read { record: Some(record), identity },
                told,
                asset_id,
                OwnerSightView::Seen(witness),
                fresh,
            );
            &&& removal is Ok <==> record.asset_id == asset_id && is_stale(record, witness)
            &&& removal is Ok && secret_of(record.owner_token) is Some ==> removal->Ok_0 == "."@
                + filename + ".cleanup-"@ + secret_of(record.owner_token)->0
            &&& removal is Ok && secret_of(record.owner_token) is None ==> removal->Ok_0 == "."@
                + filename + ".cleanup-"@ + fresh
            &&& removal is Err ==> removal->Err_0.code == "lock_held"@
        }),
        stale_removal(
            filename,
            LockReadingView::Read { record: None, identity },
            told,
            asset_id,
            OwnerSightView::Seen(witness),
            fresh,
        ) is Err,
{
}

/// A lock that was put away is removed only where it did not change meanwhile, is the one of
/// this Asset and still counts as left behind; a lock of another, or one that is at work
/// again, gets its name back.
pub proof fn put_away_locks_are_looked_at_again(
    captured: LockReadingView,
    record: LockRecordView,
    identity: FileIdentity,
    told: Seq<char>,
    asset_id: Seq<char>,
    witness: LockWitnessView,
)
    ensures
        ({
            let current = LockReadingView::Read { record: Some(record), identity };
            let fate = stale_fate(
                captured,
                current,
                told,
                asset_id,
                OwnerSightView::Seen(witness),
            );
            &&& fate == Ok::<EntryFate, ErrorView>(EntryFate::Remove) <==> captured == current
                && record.asset_id == asset_id && is_stale(record, witness)
            &&& fate == Ok::<EntryFate, ErrorView>(EntryFate::Restore) <==> captured == current && (
            record.asset_id != asset_id || !is_stale(record, witness))
            &&& captured != current ==> fate is Err
        }),
{
}

/// A lock is its owner's exactly where the file is the very one that was made and its record
/// has the token of the owner.
pub proof fn owners_know_their_lock(
    identity: FileIdentity,
    owner: Seq<char>,
    record: Option<LockRecordView>,
    current: FileIdentity,
    failure: ErrorView,
)
    ensures
        is_owned(identity, Some(owner), LockReadingView::Read { record, identity: current })
            <==> current == identity && record is Some && record->0.owner_token == owner,
        is_owned(identity, None, LockReadingView::Read { record, identity: current })
            <==> current == identity,
        !is_owned(identity, Some(owner), LockReadingView::Failed(failure)),
{
}

/// A lock authorizes work on its own Asset, in its own repository, and only while the very
/// file with its token stands.
pub proof fn locks_authorize_their_own_work(
    lock: AssetLockView,
    root: Option<Seq<char>>,
    asset_id: Seq<char>,
    reading: LockReadingView,
)
    ensures
        authorizes(lock, root, asset_id, reading) <==> {
            &&& lock.asset_id == asset_id
            &&& root == Some(lock.repository_root)
            &&& reading matches LockReadingView::Read { record: Some(record), identity } && identity
                == lock.identity && record.asset_id == asset_id && record.owner_token
                == lock.owner_token
        },
{
}

/// A token tells the process, a count and a secret; a name for what is put away tells the file
/// and the secret.
pub proof fn tokens_and_names_tell_their_parts(
    pid: u32,
    count: u64,
    secret: Seq<char>,
    filename: Seq<char>,
    fresh: Seq<char>,
)
    ensures
        owner_token(pid, count, secret) == decimal_digits(pid as nat) + "-"@ + decimal_digits(
            count as nat,
        ) + "-"@ + secret,
        quarantine_name(filename, secret) == "."@ + filename + ".cleanup-"@ + secret,
        cleanup_secret(None, fresh) == fresh,
{
}

/// A failure with the lock of a repository is told as one of the repository.
pub proof fn repository_failures_are_named(message: Seq<char>, other: ErrorView)
    ensures
        repository_error(ErrorView { code: "lock_held"@, message, ..other }).code
            == "repository_lock_held"@,
        !"lock_"@.is_prefix_of(other.code) && other.code != "lock_held"@ ==> repository_error(
            other,
        ) == other,
{
}

proof fn absent_only_where_none(found: Seq<AssetQuarantineView>, asset_id: Seq<char>, n: int)
    requires
        0 <= n <= found.len(),
        found.len() > 0,
    ensures
        quarantines_absent(found, asset_id, n) is Err,
    decreases found.len() - n,
{
    if n < found.len() {
        absent_only_where_none(found, asset_id, n + 1);
    }
}

proof fn resolvable_only_where_left(
    found: Seq<AssetQuarantineView>,
    asset_id: Seq<char>,
    clear_stale: bool,
    n: int,
    k: int,
)
    requires
        0 <= n <= k < found.len(),
        quarantines_resolvable(found, asset_id, clear_stale, n) is Ok,
    ensures
        clear_stale,
        is_rightful(found[k], asset_id) ==> staleness(found[k].record->0, found[k].owner) == Ok::<
            bool,
            ErrorView,
        >(true),
    decreases found.len() - n,
{
    if n < k {
        resolvable_only_where_left(found, asset_id, clear_stale, n + 1, k);
    }
}

/// A lock is made only where nothing of it is put away. What is put away is cleared only where
/// that was asked for, and never while its rightful owner is at work.
pub proof fn put_away_locks_are_cleared_on_request(
    found: Seq<AssetQuarantineView>,
    asset_id: Seq<char>,
    clear_stale: bool,
    k: int,
)
    ensures
        quarantines_absent(found, asset_id, 0) is Ok <==> found.len() == 0,
        quarantines_resolvable(Seq::empty(), asset_id, clear_stale, 0) is Ok,
        0 <= k < found.len() && quarantines_resolvable(found, asset_id, clear_stale, 0) is Ok
            ==> clear_stale && (is_rightful(found[k], asset_id) ==> staleness(
            found[k].record->0,
            found[k].owner,
        ) == Ok::<bool, ErrorView>(true)),
{
    if found.len() > 0 {
        absent_only_where_none(found, asset_id, 0);
    }
    if 0 <= k < found.len() && quarantines_resolvable(found, asset_id, clear_stale, 0) is Ok {
        resolvable_only_where_left(found, asset_id, clear_stale, 0, k);
    }
}

/// What is put away is removed only where it is still the same file, with the same record.
pub proof fn what_is_reaped_did_not_change(
    quarantine: AssetQuarantineView,
    record: Option<LockRecordView>,
    identity: FileIdentity,
    failure: ErrorView,
)
    requires
        quarantine.identity is Some,
    ensures
        reaping(quarantine, LockReadingView::Read { record, identity }) is Ok
            <==> quarantine.identity == Some(identity) && (quarantine.record is Some ==> record
            == quarantine.record),
        reaping(quarantine, LockReadingView::Failed(failure)) is Err,
{
}

/// Where every step succeeds a lock is acquired: the guard is resolved and cleared, taken over
/// where left locks may be cleared, and then the lock is resolved and made.
pub proof fn acquiring_goes_step_by_step(clear_stale: bool, outcomes: Seq<Result<(), ErrorView>>)
    requires
        outcomes.len() >= 5,
        forall|i: int| 0 <= i < outcomes.len() ==> (#[trigger] outcomes[i]) is Ok,
    ensures
        acquiring(clear_stale, outcomes, 0) is ResolveTakeover,
        acquiring(clear_stale, outcomes, 1) is ClearTakeover,
        !clear_stale ==> acquiring(clear_stale, outcomes, 2) is ResolveLock,
        !clear_stale ==> acquiring(clear_stale, outcomes, 3) is Create,
        !clear_stale ==> acquiring(clear_stale, outcomes, 4) is Acquired,
        clear_stale ==> acquiring(clear_stale, outcomes, 2) is TakeOver,
        clear_stale ==> acquiring(clear_stale, outcomes, 3) is ResolveLock,
        clear_stale ==> acquiring(clear_stale, outcomes, 4) is Create,
        clear_stale ==> acquiring(clear_stale, outcomes, 5) is Acquired,
{
    reveal_with_fuel(acquiring, 6);
    assert(outcomes[0] is Ok && outcomes[1] is Ok && outcomes[2] is Ok);
    assert(outcomes[3] is Ok && outcomes[4] is Ok);
}

/// A lock that stands already is left behind where its removal was not asked for, and is
/// removed and made again where it was.
pub proof fn standing_locks_decide(
    clear_stale: bool,
    outcomes: Seq<Result<(), ErrorView>>,
    n: int,
    failure: ErrorView,
)
    requires
        n >= 0,
        acquiring(clear_stale, outcomes, n) is Create,
        outcomes[n] == Err::<(), ErrorView>(failure),
    ensures
        failure.code == "lock_exists"@ && !clear_stale ==> acquiring(clear_stale, outcomes, n + 1)
            == AcquireStepView::Refused(lock_held()),
        failure.code == "lock_exists"@ && clear_stale ==> acquiring(clear_stale, outcomes, n + 1)
            is RemoveStale,
        failure.code != "lock_exists"@ ==> acquiring(clear_stale, outcomes, n + 1)
            == AcquireStepView::Refused(failure),
{
}

/// Where every step succeeds the file of a lock is made: opened new, identified, written,
/// flushed, and looked around for once more.
pub proof fn creating_goes_step_by_step(
    kind: LockKind,
    clear_stale: bool,
    events: Seq<CreateEventView>,
)
    requires
        events.len() >= 6,
        forall|i: int| 0 <= i < events.len() ==> (#[trigger] events[i]) is Done,
    ensures
        creating(kind, clear_stale, events, 0) is CheckQuarantines,
        creating(kind, clear_stale, events, 1) is Open,
        creating(kind, clear_stale, events, 2) is Identify,
        creating(kind, clear_stale, events, 3) is Write,
        creating(kind, clear_stale, events, 4) is Sync,
        creating(kind, clear_stale, events, 5) is CheckAgain,
        creating(kind, clear_stale, events, 6) is Created,
{
    reveal_with_fuel(creating, 7);
    assert(events[0] is Done && events[1] is Done && events[2] is Done);
    assert(events[3] is Done && events[4] is Done && events[5] is Done);
}

/// A file of a lock that could not be filled is put away again, and the failure is told; one
/// that stands already is never opened.
pub proof fn failed_locks_are_taken_back(
    kind: LockKind,
    clear_stale: bool,
    events: Seq<CreateEventView>,
    n: int,
    failure: ErrorView,
)
    requires
        n >= 0,
        events[n] == CreateEventView::Failed(failure),
    ensures
        creating(kind, clear_stale, events, n) is Write ==> creating(
            kind,
            clear_stale,
            events,
            n + 1,
        ) == CreateStepView::TakeBackFile(failure) && creating(kind, clear_stale, events, n + 2)
            == CreateStepView::Refused(failure),
        creating(kind, clear_stale, events, n) is CheckAgain ==> creating(
            kind,
            clear_stale,
            events,
            n + 1,
        ) == CreateStepView::TakeBackLock(failure) && creating(kind, clear_stale, events, n + 2)
            == CreateStepView::Refused(failure),
        creating(kind, clear_stale, events, n) is Open ==> creating(
            kind,
            clear_stale,
            events,
            n + 1,
        ) == CreateStepView::Refused(failure),
{
    reveal_with_fuel(creating, 3);
}

/// A new file is created where nothing stands and left where a regular file does; only a
/// regular file is replaced. Anything else in the way is refused.
pub proof fn destinations_decide(message: Seq<char>)
    ensures
        new_destination(DestinationView::Absent) == Ok::<AtomicWriteResult, ErrorView>(
            AtomicWriteResult::Created,
        ),
        new_destination(DestinationView::Regular) == Ok::<AtomicWriteResult, ErrorView>(
            AtomicWriteResult::Existing,
        ),
        new_destination(DestinationView::Other) is Err,
        new_destination(DestinationView::Unknown(message)) is Err,
        replaced_destination(DestinationView::Regular) is Ok,
        replaced_destination(DestinationView::Absent) is Err,
        replaced_destination(DestinationView::Absent)->Err_0.code == "registry_not_found"@,
        replaced_destination(DestinationView::Other) is Err,
        replaced_destination(DestinationView::Unknown(message)) is Err,
{
}

/// A record is named by a single name: not by a way through directories, nor by none.
pub proof fn records_have_a_single_name(name: Seq<char>, parts: Seq<PathPartView>)
    ensures
        single_name(seq![PathPartView::Name(name)]) == Ok::<Seq<char>, ErrorView>(name),
        parts.len() != 1 ==> single_name(parts) is Err,
        single_name(seq![PathPartView::Traversal]) is Err,
        single_name(seq![PathPartView::NotUtf8]) is Err,
{
}

/// Where every step succeeds a file is published: written beside its destination, flushed,
/// moved into place and flushed again. A file that is replaced is looked at once more before
/// that.
pub proof fn publishing_goes_step_by_step(replaces: bool, outcomes: Seq<Result<(), ErrorView>>)
    requires
        outcomes.len() >= 7,
        forall|i: int| 0 <= i < outcomes.len() ==> (#[trigger] outcomes[i]) is Ok,
    ensures
        publishing(replaces, outcomes, 0) is OpenTemporary,
        publishing(replaces, outcomes, 1) is Identify,
        publishing(replaces, outcomes, 2) is Write,
        !replaces ==> publishing(replaces, outcomes, 3) is Rename,
        !replaces ==> publishing(replaces, outcomes, 4) is Sync,
        !replaces ==> publishing(replaces, outcomes, 5) is Published,
        replaces ==> publishing(replaces, outcomes, 3) is Prepare,
        replaces ==> publishing(replaces, outcomes, 4) is Validate,
        replaces ==> publishing(replaces, outcomes, 5) is Rename,
        replaces ==> publishing(replaces, outcomes, 6) is Sync,
        replaces ==> publishing(replaces, outcomes, 7) is Published,
{
    reveal_with_fuel(publishing, 8);
    assert(outcomes[0] is Ok && outcomes[1] is Ok && outcomes[2] is Ok && outcomes[3] is Ok);
    assert(outcomes[4] is Ok && outcomes[5] is Ok && outcomes[6] is Ok);
}

/// A step that fails ends in a refusal with that failure, and once the temporary file is known
/// it is put away first.
pub proof fn failed_publications_are_refused(
    replaces: bool,
    outcomes: Seq<Result<(), ErrorView>>,
    n: int,
    failure: ErrorView,
)
    requires
        n >= 0,
        outcomes[n] == Err::<(), ErrorView>(failure),
        !(publishing(replaces, outcomes, n) is Published),
        !(publishing(replaces, outcomes, n) is Refused),
        !(publishing(replaces, outcomes, n) is TakeBack),
    ensures
        publishing(replaces, outcomes, n) is OpenTemporary || publishing(replaces, outcomes, n)
            is Identify ==> publishing(replaces, outcomes, n + 1) == PublishStepView::Refused(
            failure,
        ),
        !(publishing(replaces, outcomes, n) is OpenTemporary || publishing(replaces, outcomes, n)
            is Identify) ==> publishing(replaces, outcomes, n + 1) == PublishStepView::TakeBack(
            failure,
        ) && publishing(replaces, outcomes, n + 2) == PublishStepView::Refused(failure),
{
    reveal_with_fuel(publishing, 3);
}

/// What a publication put away is removed where it is not sound, or was left behind; while its
/// owner is at work it stays.
pub proof fn working_publications_are_kept(
    quarantine: PublicationQuarantineView,
    witness: LockWitnessView,
)
    ensures
        crate::atomic::removable(quarantine, OwnerSightView::Seen(witness)) is Ok <==> !(
        quarantine.authenticated && quarantine.record is Some) || crate::atomic::is_stale(
            quarantine.record->0,
            witness,
        ),
        crate::atomic::removable(quarantine, OwnerSightView::Seen(witness)) is Err
            ==> crate::atomic::removable(
            quarantine,
            OwnerSightView::Seen(witness),
        )->Err_0.code == "registry_locked"@,
{
}

/// A check leaves out what Git keeps, what is built and what runs, and nothing else.
pub proof fn only_working_files_are_left_out(path: Seq<char>)
    ensures
        is_ignored(".git"@),
        is_ignored("target"@),
        is_ignored(".knowledge-os/runtime"@),
        is_ignored(".git/"@ + path),
        is_ignored("target/"@ + path),
        is_ignored(".knowledge-os/runtime/"@ + path),
        is_ignored(path) ==> path == ".git"@ || path == "target"@ || path
            == ".knowledge-os/runtime"@ || ".git/"@.is_prefix_of(path) || "target/"@.is_prefix_of(
            path,
        ) || ".knowledge-os/runtime/"@.is_prefix_of(path),
        crate::repository_files::relative_path(Seq::empty(), path) == path,
{
    assert(".git/"@.is_prefix_of(".git/"@ + path));
    assert("target/"@.is_prefix_of("target/"@ + path));
    assert(".knowledge-os/runtime/"@.is_prefix_of(".knowledge-os/runtime/"@ + path));
}

/// A file in the index is read where it is a regular file with a portable path that was
/// merged; a conflict, a link and any other mode are reported under their path, and no path
/// is read twice.
pub proof fn staged_files_are_read(
    before: StagedCollectorView,
    entry: Seq<u8>,
    fields: IndexEntryView,
)
    requires
        before.collected.files.len() < 20_000,
        index_entry(entry) == Some(fields),
        valid_utf8(fields.path),
        is_repository_path(decode_utf8(fields.path)),
    ensures
        ({
            let path = decode_utf8(fields.path);
            let (step, after) = staged_entry(before, entry);
            let merged = fields.stage == "0"@;
            let seen = before.seen.contains(path);
            &&& after.collected.files == before.collected.files
            &&& before.collected.issues.is_prefix_of(after.collected.issues)
            &&& !merged ==> step == Some(None::<Seq<char>>) && after.collected.issues.len()
                == before.collected.issues.len() + 1 && after.collected.issues.last().code
                == "git_conflict"@ && after.collected.issues.last().path == Some(path)
            &&& merged && seen ==> step == Some(None::<Seq<char>>) && after == before
            &&& merged && !seen && fields.mode == "120000"@ ==> step == Some(None::<Seq<char>>)
                && after.collected.issues.last().code == "symlink_not_allowed"@
            &&& merged && !seen && fields.mode != "120000"@ && (fields.mode == "100644"@
                || fields.mode == "100755"@) ==> step == Some(Some(path)) && after.seen
                == before.seen.push(path) && after.collected == before.collected
            &&& merged && !seen && fields.mode != "120000"@ && fields.mode != "100644"@
                && fields.mode != "100755"@ ==> step == Some(None::<Seq<char>>)
                && after.collected.issues.last().code == "path_not_portable"@
        }),
{
}

} // verus!

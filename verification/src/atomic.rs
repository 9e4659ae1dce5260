//! Publication of files in one step: under a lock of its own, a file is written beside its
//! destination and moved there, and what stands there is looked at last.

use crate::error::{error, outcome, verdict, ErrorView, MkoError};
use crate::lock::{
    authoritative_quarantine_target, cleanup_name, is_left, is_quarantine_of, is_secret,
    quarantine_name, quarantine_target, quarantines, random_bytes, secret_from, was_left, EntryFate,
    FileIdentity, LockWitnessView, OwnerSight, OwnerSightView,
};
use crate::model::Timestamp;
use crate::path_policy::{PathPart, PathPartView};
use crate::text::{cat3, cat5, same, same_bytes};
use vstd::prelude::*;

verus! {

/// How long a publication waits for another one.
pub const LOCK_WAIT_MS: u64 = 1000;

/// How long it waits before it looks again.
pub const LOCK_RETRY_MS: u64 = 10;

/// The most quarantines of a publication lock that are looked at.
pub const PUBLICATION_SCAN_ENTRY_LIMIT: usize = 64;

/// The longest that quarantines are looked for.
pub const PUBLICATION_SCAN_TIME_LIMIT_MS: u64 = 100;

/// The most bytes of a publication lock that are read.
pub const PUBLICATION_RECORD_BYTE_LIMIT: u64 = 4096;

/// Whether a write made its file or found it.
#[derive(Clone, Copy, Debug, PartialEq, Eq, Structural)]
pub enum AtomicWriteResult {
    Created,
    Existing,
}

/// What stands at the destination of a write.
#[derive(Clone, Debug, PartialEq, Eq)]
pub enum Destination {
    /// A regular file that is no link.
    Regular,
    /// Something else.
    Other,
    Absent,
    Unknown(String),
}

#[verifier::ext_equal]
pub enum DestinationView {
    Regular,
    Other,
    Absent,
    Unknown(Seq<char>),
}

impl DeepView for Destination {
    type V = DestinationView;

    open spec fn deep_view(&self) -> DestinationView {
        match self {
            Destination::Regular => DestinationView::Regular,
            Destination::Other => DestinationView::Other,
            Destination::Absent => DestinationView::Absent,
            Destination::Unknown(message) => DestinationView::Unknown(message@),
        }
    }
}

pub open spec fn destination_invalid() -> ErrorView {
    error(
        "registry_destination_invalid"@,
        "registry destination exists but is not a regular file"@,
    )
}

fn destination_invalid_error() -> (failure: MkoError)
    ensures
        failure.deep_view() == destination_invalid(),
{
    MkoError::new(
        "registry_destination_invalid",
        "registry destination exists but is not a regular file",
    )
}

/// Whether a new file is still to be written: where a regular file stands, that one is
/// looked at instead.
pub open spec fn new_destination(destination: DestinationView) -> Result<
    AtomicWriteResult,
    ErrorView,
> {
    match destination {
        DestinationView::Regular => Ok(AtomicWriteResult::Existing),
        DestinationView::Absent => Ok(AtomicWriteResult::Created),
        DestinationView::Other => Err(destination_invalid()),
        DestinationView::Unknown(message) => Err(error("registry_write_failed"@, message)),
    }
}

/// What a write of a new file comes to, before anything is written.
pub fn write_new(destination: &Destination) -> (result: Result<AtomicWriteResult, MkoError>)
    ensures
        match result {
            Ok(planned) => new_destination(destination.deep_view()) == Ok::<
                AtomicWriteResult,
                ErrorView,
            >(planned),
            Err(failure) => new_destination(destination.deep_view()) == Err::<
                AtomicWriteResult,
                ErrorView,
            >(failure.deep_view()),
        },
{
    match destination {
        Destination::Regular => Ok(AtomicWriteResult::Existing),
        Destination::Absent => Ok(AtomicWriteResult::Created),
        Destination::Other => Err(destination_invalid_error()),
        Destination::Unknown(message) => Err(
            MkoError::new("registry_write_failed", message.as_str()),
        ),
    }
}

/// A file that is replaced must be there.
pub open spec fn replaced_destination(destination: DestinationView) -> Result<(), ErrorView> {
    match destination {
        DestinationView::Regular => Ok(()),
        DestinationView::Absent => Err(
            error("registry_not_found"@, "registry record does not exist"@),
        ),
        DestinationView::Other => Err(destination_invalid()),
        DestinationView::Unknown(message) => Err(error("registry_write_failed"@, message)),
    }
}

pub fn validate_capability_destination(destination: &Destination) -> (result: Result<(), MkoError>)
    ensures
        verdict(result) == replaced_destination(destination.deep_view()),
{
    match destination {
        Destination::Regular => Ok(()),
        Destination::Absent => Err(
            MkoError::new("registry_not_found", "registry record does not exist"),
        ),
        Destination::Other => Err(destination_invalid_error()),
        Destination::Unknown(message) => Err(
            MkoError::new("registry_write_failed", message.as_str()),
        ),
    }
}

/// The name of a file in its directory: its path is one ordinary name.
pub open spec fn single_name(parts: Seq<PathPartView>) -> Result<Seq<char>, ErrorView> {
    if parts.len() != 1 || parts[0] is Traversal {
        Err(
            error(
                "registry_write_failed"@,
                "registry filename must be a single relative component"@,
            ),
        )
    } else {
        match parts[0] {
            PathPartView::Name(name) => Ok(name),
            _ => Err(error("registry_write_failed"@, "registry filename must be valid UTF-8"@)),
        }
    }
}

pub fn capability_filename(parts: &Vec<PathPart>) -> (result: Result<String, MkoError>)
    ensures
        outcome(result) == single_name(parts.deep_view()),
{
    if parts.len() == 1 {
        assert(parts.deep_view()[0] == parts@[0].deep_view());
        match &parts[0] {
            PathPart::Name(name) => {
                return Ok(name.clone());
            },
            PathPart::NotUtf8 => {
                return Err(
                    MkoError::new(
                        "registry_write_failed",
                        "registry filename must be valid UTF-8",
                    ),
                );
            },
            PathPart::Traversal => {},
        }
    }
    Err(
        MkoError::new(
            "registry_write_failed",
            "registry filename must be a single relative component",
        ),
    )
}

/// The name of a file and that it stands in a directory.
pub open spec fn target_name(has_parent: bool, filename: Option<Seq<char>>) -> Result<
    Seq<char>,
    ErrorView,
> {
    if !has_parent {
        Err(error("registry_write_failed"@, "registry path has no parent directory"@))
    } else {
        match filename {
            Some(name) => Ok(name),
            None => Err(error("registry_write_failed"@, "registry filename must be valid UTF-8"@)),
        }
    }
}

pub fn publication_target(has_parent: bool, filename: Option<String>) -> (result: Result<
    String,
    MkoError,
>)
    ensures
        outcome(result) == target_name(has_parent, filename.deep_view()),
{
    if !has_parent {
        return Err(
            MkoError::new("registry_write_failed", "registry path has no parent directory"),
        );
    }
    match filename {
        Some(name) => Ok(name),
        None => Err(
            MkoError::new("registry_write_failed", "registry filename must be valid UTF-8"),
        ),
    }
}

/// A fresh secret for the names of a publication.
pub fn secure_cleanup_token() -> (result: Result<String, MkoError>)
    ensures
        match result {
            Ok(secret) => is_secret(secret@),
            Err(failure) => failure.deep_view() == error(
                "registry_write_failed"@,
                "secure randomness is unavailable for publication cleanup"@,
            ),
        },
{
    match random_bytes() {
        Some(bytes) => Ok(secret_from(&bytes)),
        None => Err(
            MkoError::new(
                "registry_write_failed",
                "secure randomness is unavailable for publication cleanup",
            ),
        ),
    }
}

/// The file that a publication is written to first.
pub fn temporary_filename(filename: &str, secret: &str) -> (name: String)
    ensures
        name@ == "."@ + filename@ + "."@ + secret@ + ".tmp"@,
{
    cat5(".", filename, ".", secret, ".tmp")
}

/// The file of the lock on a publication.
pub fn publication_lock_filename(filename: &str) -> (name: String)
    ensures
        name@ == "."@ + filename@ + ".publish.lock"@,
{
    cat3(".", filename, ".publish.lock")
}

pub open spec fn scan_limit() -> ErrorView {
    error(
        "registry_scan_limit"@,
        "publication lock scan exceeded its bounded work limit; reduce unexpected entries and retry"@,
    )
}

/// More quarantines than are looked at, or it took too long.
pub fn registry_scan_limit_error() -> (failure: MkoError)
    ensures
        failure.deep_view() == scan_limit(),
{
    MkoError::new(
        "registry_scan_limit",
        "publication lock scan exceeded its bounded work limit; reduce unexpected entries and retry",
    )
}

pub open spec fn quarantine_invalid() -> ErrorView {
    error(
        "registry_quarantine_invalid"@,
        "invalid publication quarantine was safely removed; retry the operation"@,
    )
}

/// A quarantine was not what its name says.
pub fn registry_quarantine_invalid_error() -> (failure: MkoError)
    ensures
        failure.deep_view() == quarantine_invalid(),
{
    MkoError::new(
        "registry_quarantine_invalid",
        "invalid publication quarantine was safely removed; retry the operation",
    )
}

pub open spec fn publication_locked() -> ErrorView {
    error(
        "registry_locked"@,
        "registry publication lock is held or stale; inspect and remove it manually after validating the destination"@,
    )
}

/// Another publication is at work, or was left.
pub fn publication_locked_error() -> (failure: MkoError)
    ensures
        failure.deep_view() == publication_locked(),
{
    MkoError::new(
        "registry_locked",
        "registry publication lock is held or stale; inspect and remove it manually after validating the destination",
    )
}

/// What the file of a publication lock holds.
#[derive(Clone, Debug, PartialEq, Eq)]
pub struct PublicationLockRecord {
    pub pid: u32,
    pub hostname: String,
    pub started_at: Timestamp,
    pub owner_token: String,
}

#[verifier::ext_equal]
pub struct PublicationLockRecordView {
    pub pid: u32,
    pub hostname: Seq<char>,
    pub started_at: Timestamp,
    pub owner_token: Seq<char>,
}

impl DeepView for PublicationLockRecord {
    type V = PublicationLockRecordView;

    open spec fn deep_view(&self) -> PublicationLockRecordView {
        PublicationLockRecordView {
            pid: self.pid,
            hostname: self.hostname@,
            started_at: self.started_at,
            owner_token: self.owner_token@,
        }
    }
}

impl PublicationLockRecord {
    /// A record that holds the same.
    pub fn duplicate(&self) -> (copy: Self)
        ensures
            copy.deep_view() == self.deep_view(),
    {
        PublicationLockRecord {
            pid: self.pid,
            hostname: self.hostname.clone(),
            started_at: self.started_at,
            owner_token: self.owner_token.clone(),
        }
    }

    fn holds_same(&self, other: &PublicationLockRecord) -> (equal: bool)
        ensures
            equal == (self.deep_view() == other.deep_view()),
    {
        self.pid == other.pid && same(self.hostname.as_str(), other.hostname.as_str())
            && self.started_at == other.started_at && same(
            self.owner_token.as_str(),
            other.owner_token.as_str(),
        )
    }
}

/// The publication was left by its process.
pub open spec fn is_stale(record: PublicationLockRecordView, witness: LockWitnessView) -> bool {
    is_left(record.hostname, record.started_at, witness)
}

/// Whether the publication was left, where that can be told.
pub open spec fn staleness(record: PublicationLockRecordView, owner: OwnerSightView) -> Result<
    bool,
    ErrorView,
> {
    match owner {
        OwnerSightView::Seen(witness) => Ok(is_stale(record, witness)),
        OwnerSightView::Unknown(failure) => Err(failure),
    }
}

pub fn publication_record_is_stale(record: &PublicationLockRecord, owner: &OwnerSight) -> (result:
    Result<bool, MkoError>)
    ensures
        outcome(result) == staleness(record.deep_view(), owner.deep_view()),
{
    match owner {
        OwnerSight::Seen(witness) => Ok(
            was_left(record.hostname.as_str(), record.started_at, witness),
        ),
        OwnerSight::Unknown(failure) => Err(failure.duplicate()),
    }
}

/// What came of opening a publication lock.
#[derive(Clone, Debug, PartialEq, Eq)]
pub enum PublicationReading {
    Read { record: Option<PublicationLockRecord>, identity: FileIdentity },
    Failed(MkoError),
}

#[verifier::ext_equal]
pub enum PublicationReadingView {
    Read { record: Option<PublicationLockRecordView>, identity: FileIdentity },
    Failed(ErrorView),
}

impl DeepView for PublicationReading {
    type V = PublicationReadingView;

    open spec fn deep_view(&self) -> PublicationReadingView {
        match self {
            PublicationReading::Read { record, identity } => PublicationReadingView::Read {
                record: record.deep_view(),
                identity: *identity,
            },
            PublicationReading::Failed(failure) => PublicationReadingView::Failed(
                failure.deep_view(),
            ),
        }
    }
}

/// An entry of the directory of a publication.
#[derive(Clone, Debug, PartialEq, Eq)]
pub enum PublicationEntry {
    /// The time for looking was over before this entry.
    Late,
    /// The entry could not be read.
    Failed(String),
    Named {
        name: String,
        reading: PublicationReading,
        /// Which file a second look saw, where the first one failed.
        second_look: Option<FileIdentity>,
        /// The time for looking was over around the second look.
        late: bool,
    },
}

#[verifier::ext_equal]
pub enum PublicationEntryView {
    Late,
    Failed(Seq<char>),
    Named {
        name: Seq<char>,
        reading: PublicationReadingView,
        second_look: Option<FileIdentity>,
        late: bool,
    },
}

impl DeepView for PublicationEntry {
    type V = PublicationEntryView;

    open spec fn deep_view(&self) -> PublicationEntryView {
        match self {
            PublicationEntry::Late => PublicationEntryView::Late,
            PublicationEntry::Failed(message) => PublicationEntryView::Failed(message@),
            PublicationEntry::Named { name, reading, second_look, late } => PublicationEntryView::Named {
                name: name@,
                reading: reading.deep_view(),
                second_look: *second_look,
                late: *late,
            },
        }
    }
}

/// A publication lock that was put away.
#[derive(Clone, Debug, PartialEq, Eq)]
pub struct PublicationQuarantine {
    pub filename: String,
    pub record: Option<PublicationLockRecord>,
    pub authenticated: bool,
    pub identity: Option<FileIdentity>,
}

#[verifier::ext_equal]
pub struct PublicationQuarantineView {
    pub filename: Seq<char>,
    pub record: Option<PublicationLockRecordView>,
    pub authenticated: bool,
    pub identity: Option<FileIdentity>,
}

impl DeepView for PublicationQuarantine {
    type V = PublicationQuarantineView;

    open spec fn deep_view(&self) -> PublicationQuarantineView {
        PublicationQuarantineView {
            filename: self.filename@,
            record: self.record.deep_view(),
            authenticated: self.authenticated,
            identity: self.identity,
        }
    }
}

/// The record is the one of the quarantine with that name: its token is in the name.
pub open spec fn is_authentic(name: Seq<char>, record: PublicationLockRecordView) -> bool {
    match quarantine_target(name) {
        Some((_, secret)) => record.owner_token == secret,
        None => false,
    }
}

fn authentic(name: &str, record: &PublicationLockRecord) -> (result: bool)
    ensures
        result == is_authentic(name@, record.deep_view()),
{
    match authoritative_quarantine_target(name) {
        Some((_, secret)) => same(record.owner_token.as_str(), secret),
        None => false,
    }
}

/// The quarantine of the file that an entry shows, if it shows one; `known` were found
/// before.
pub open spec fn entry_quarantine(filename: Seq<char>, known: int, entry: PublicationEntryView) -> Result<
    Option<PublicationQuarantineView>,
    ErrorView,
> {
    match entry {
        PublicationEntryView::Late => Err(scan_limit()),
        PublicationEntryView::Failed(message) => Err(error("registry_write_failed"@, message)),
        PublicationEntryView::Named { name, reading, second_look, late } => if !is_quarantine_of(
            name,
            filename,
        ) {
            Ok(None)
        } else if known >= PUBLICATION_SCAN_ENTRY_LIMIT {
            Err(scan_limit())
        } else {
            match reading {
                PublicationReadingView::Read { record, identity } => Ok(
                    Some(
                        PublicationQuarantineView {
                            filename: name,
                            record,
                            authenticated: record is Some && is_authentic(name, record->0),
                            identity: Some(identity),
                        },
                    ),
                ),
                PublicationReadingView::Failed(failure) => if failure.code
                    == "registry_scan_limit"@ {
                    Err(failure)
                } else if late {
                    Err(scan_limit())
                } else {
                    Ok(
                        Some(
                            PublicationQuarantineView {
                                filename: name,
                                record: None,
                                authenticated: false,
                                identity: second_look,
                            },
                        ),
                    )
                },
            }
        },
    }
}

/// The quarantines of the file among the first `n` entries.
pub open spec fn quarantines_of(filename: Seq<char>, entries: Seq<PublicationEntryView>, n: int) -> Result<
    Seq<PublicationQuarantineView>,
    ErrorView,
>
    decreases n,
{
    if n <= 0 {
        Ok(Seq::empty())
    } else {
        match quarantines_of(filename, entries, n - 1) {
            Err(failure) => Err(failure),
            Ok(found) => match entry_quarantine(filename, found.len() as int, entries[n - 1]) {
                Err(failure) => Err(failure),
                Ok(None) => Ok(found),
                Ok(Some(quarantine)) => Ok(found.push(quarantine)),
            },
        }
    }
}

proof fn refusals_stay(filename: Seq<char>, entries: Seq<PublicationEntryView>, n: int, m: int)
    requires
        n <= m,
        quarantines_of(filename, entries, n) is Err,
    ensures
        quarantines_of(filename, entries, m) == quarantines_of(filename, entries, n),
    decreases m,
{
    if 0 < m && n < m {
        refusals_stay(filename, entries, n, m - 1);
    }
}

fn copy_record(record: &Option<PublicationLockRecord>) -> (copy: Option<PublicationLockRecord>)
    ensures
        copy.deep_view() == record.deep_view(),
{
    match record {
        Some(record) => Some(record.duplicate()),
        None => None,
    }
}

fn quarantine_in(filename: &str, known: usize, entry: &PublicationEntry) -> (result: Result<
    Option<PublicationQuarantine>,
    MkoError,
>)
    ensures
        outcome(result) == entry_quarantine(filename@, known as int, entry.deep_view()),
{
    match entry {
        PublicationEntry::Late => Err(registry_scan_limit_error()),
        PublicationEntry::Failed(message) => Err(
            MkoError::new("registry_write_failed", message.as_str()),
        ),
        PublicationEntry::Named { name, reading, second_look, late } => {
            if !quarantines(name.as_str(), filename) {
                return Ok(None);
            }
            if known >= PUBLICATION_SCAN_ENTRY_LIMIT {
                return Err(registry_scan_limit_error());
            }
            match reading {
                PublicationReading::Read { record, identity } => {
                    let authenticated = match record {
                        Some(record) => authentic(name.as_str(), record),
                        None => false,
                    };
                    Ok(
                        Some(
                            PublicationQuarantine {
                                filename: name.clone(),
                                record: copy_record(record),
                                authenticated,
                                identity: Some(*identity),
                            },
                        ),
                    )
                },
                PublicationReading::Failed(failure) => {
                    if same(failure.code(), "registry_scan_limit") {
                        return Err(failure.duplicate());
                    }
                    if *late {
                        return Err(registry_scan_limit_error());
                    }
                    Ok(
                        Some(
                            PublicationQuarantine {
                                filename: name.clone(),
                                record: None,
                                authenticated: false,
                                identity: *second_look,
                            },
                        ),
                    )
                },
            }
        },
    }
}

pub fn scan_publication_quarantines(filename: &str, entries: &Vec<PublicationEntry>) -> (result:
    Result<Vec<PublicationQuarantine>, MkoError>)
    ensures
        outcome(result) == quarantines_of(
            filename@,
            entries.deep_view(),
            entries.deep_view().len() as int,
        ),
{
    let ghost all = entries.deep_view();
    let mut found: Vec<PublicationQuarantine> = Vec::new();
    let mut i: usize = 0;
    assert(found.deep_view() == Seq::<PublicationQuarantineView>::empty());
    while i < entries.len()
        invariant
            i <= entries.len(),
            all == entries.deep_view(),
            quarantines_of(filename@, all, i as int) == Ok::<
                Seq<PublicationQuarantineView>,
                ErrorView,
            >(found.deep_view()),
        decreases entries.len() - i,
    {
        assert(all[i as int] == entries@[i as int].deep_view());
        let ghost before = found.deep_view();
        match quarantine_in(filename, found.len(), &entries[i]) {
            Err(failure) => {
                proof {
                    refusals_stay(filename@, all, i + 1, all.len() as int);
                }
                return Err(failure);
            },
            Ok(None) => {},
            Ok(Some(quarantine)) => {
                let ghost told = quarantine.deep_view();
                found.push(quarantine);
                assert(found.deep_view() == before.push(told));
            },
        }
        i += 1;
    }
    Ok(found)
}

/// No quarantine may stand beside a publication lock that is taken.
pub fn ensure_no_publication_quarantine(found: &Vec<PublicationQuarantine>) -> (result: Result<
    (),
    MkoError,
>)
    ensures
        verdict(result) == (if found@.len() == 0 {
            Ok(())
        } else {
            Err(publication_locked())
        }),
{
    if found.len() == 0 {
        Ok(())
    } else {
        Err(publication_locked_error())
    }
}

/// The quarantine holds a publication lock under its own token.
pub open spec fn is_valid(quarantine: PublicationQuarantineView) -> bool {
    quarantine.authenticated && quarantine.record is Some
}

fn valid(quarantine: &PublicationQuarantine) -> (result: bool)
    ensures
        result == is_valid(quarantine.deep_view()),
{
    quarantine.authenticated && quarantine.record.is_some()
}

/// Whether a quarantine may be removed: one of a publication that is still at work stands in
/// the way, and one that is not what its name says goes.
pub open spec fn removable(quarantine: PublicationQuarantineView, owner: OwnerSightView) -> Result<
    (),
    ErrorView,
> {
    if !is_valid(quarantine) {
        Ok(())
    } else {
        match staleness(quarantine.record->0, owner) {
            Err(failure) => Err(failure),
            Ok(true) => Ok(()),
            Ok(false) => Err(publication_locked()),
        }
    }
}

pub fn resolve_publication_quarantine(quarantine: &PublicationQuarantine, owner: &OwnerSight) -> (
result: Result<(), MkoError>)
    ensures
        verdict(result) == removable(quarantine.deep_view(), owner.deep_view()),
{
    if !valid(quarantine) {
        return Ok(());
    }
    match &quarantine.record {
        Some(record) => match publication_record_is_stale(record, owner) {
            Err(failure) => Err(failure),
            Ok(true) => Ok(()),
            Ok(false) => Err(publication_locked_error()),
        },
        None => Ok(()),
    }
}

/// How the move of a quarantine went.
#[derive(Clone, Debug, PartialEq, Eq)]
pub enum Moved {
    Done,
    /// It was gone.
    Gone,
    Failed(MkoError),
}

#[verifier::ext_equal]
pub enum MovedView {
    Done,
    Gone,
    Failed(ErrorView),
}

impl DeepView for Moved {
    type V = MovedView;

    open spec fn deep_view(&self) -> MovedView {
        match self {
            Moved::Done => MovedView::Done,
            Moved::Gone => MovedView::Gone,
            Moved::Failed(failure) => MovedView::Failed(failure.deep_view()),
        }
    }
}

/// Whether the quarantine that was put aside may be deleted: it must still be the file that
/// was found, and hold what it held.
pub open spec fn reaping(
    quarantine: PublicationQuarantineView,
    moved: MovedView,
    current: Option<FileIdentity>,
    reading: PublicationReadingView,
) -> Result<(), ErrorView> {
    match moved {
        MovedView::Gone => Err(publication_locked()),
        MovedView::Failed(failure) => Err(failure),
        MovedView::Done => if quarantine.identity is None || current is None {
            Err(quarantine_invalid())
        } else if current != quarantine.identity {
            Err(
                error(
                    "registry_quarantine_invalid"@,
                    "publication quarantine changed during recovery"@,
                ),
            )
        } else if quarantine.record is None {
            Ok(())
        } else {
            match reading {
                PublicationReadingView::Failed(failure) => Err(failure),
                PublicationReadingView::Read { record, identity } => if Some(identity)
                    != quarantine.identity || record is None {
                    Err(quarantine_invalid())
                } else if record != quarantine.record {
                    Err(
                        error(
                            "registry_quarantine_invalid"@,
                            "publication quarantine owner changed during recovery"@,
                        ),
                    )
                } else {
                    Ok(())
                },
            }
        },
    }
}

/// `current` is the file that stands aside now, and `reading` what it holds; the latter is
/// asked for only where the quarantine held a record.
pub fn reap_publication_quarantine(
    quarantine: &PublicationQuarantine,
    moved: &Moved,
    current: Option<FileIdentity>,
    reading: &PublicationReading,
) -> (result: Result<(), MkoError>)
    ensures
        verdict(result) == reaping(
            quarantine.deep_view(),
            moved.deep_view(),
            current,
            reading.deep_view(),
        ),
{
    match moved {
        Moved::Gone => {
            return Err(publication_locked_error());
        },
        Moved::Failed(failure) => {
            return Err(failure.duplicate());
        },
        Moved::Done => {},
    }
    let expected = match quarantine.identity {
        None => {
            return Err(registry_quarantine_invalid_error());
        },
        Some(identity) => identity,
    };
    let here = match current {
        None => {
            return Err(registry_quarantine_invalid_error());
        },
        Some(identity) => identity,
    };
    if here != expected {
        return Err(
            MkoError::new(
                "registry_quarantine_invalid",
                "publication quarantine changed during recovery",
            ),
        );
    }
    match &quarantine.record {
        None => Ok(()),
        Some(held) => match reading {
            PublicationReading::Failed(failure) => Err(failure.duplicate()),
            PublicationReading::Read { record, identity } => {
                if *identity != expected {
                    return Err(registry_quarantine_invalid_error());
                }
                match record {
                    None => Err(registry_quarantine_invalid_error()),
                    Some(record) => if record.holds_same(held) {
                        Ok(())
                    } else {
                        Err(
                            MkoError::new(
                                "registry_quarantine_invalid",
                                "publication quarantine owner changed during recovery",
                            ),
                        )
                    },
                }
            },
        },
    }
}

/// What comes after a quarantine was removed: the search goes on, unless the quarantine was
/// not what its name says.
pub fn finish_reap(quarantine: &PublicationQuarantine) -> (result: Result<(), MkoError>)
    ensures
        verdict(result) == (if is_valid(quarantine.deep_view()) {
            Ok(())
        } else {
            Err(quarantine_invalid())
        }),
{
    if valid(quarantine) {
        Ok(())
    } else {
        Err(registry_quarantine_invalid_error())
    }
}

/// The name under which a file is put away: with the token of the lock that it was expected
/// to hold, or with a fresh one.
pub fn cleanup_quarantine(filename: &str, own_token: Option<&str>, fresh: &str) -> (name: String)
    ensures
        name@ == quarantine_name(
            filename@,
            match own_token.deep_view() {
                Some(token) => token,
                None => fresh@,
            },
        ),
{
    match own_token {
        Some(token) => cleanup_name(filename, token),
        None => cleanup_name(filename, fresh),
    }
}

/// What was seen of a file that was put away: which file it is, and its bytes where they
/// are few enough to be a lock.
#[derive(Clone, Debug, PartialEq, Eq)]
pub struct PutAway {
    pub identity: FileIdentity,
    pub contents: Option<Vec<u8>>,
}

/// What was put away is the file that this process made, and still holds what it wrote where
/// that is asked for.
pub open spec fn is_owned(
    identity: FileIdentity,
    expected: Option<Seq<u8>>,
    seen: Option<PutAway>,
) -> bool {
    match seen {
        None => false,
        Some(there) => there.identity == identity && (match expected {
            None => true,
            Some(bytes) => there.contents is Some && there.contents->0@ == bytes,
        }),
    }
}

/// What becomes of a file that was put away: the own one is removed, and anything else gets
/// its name back.
pub fn cleanup_capability_entry(
    identity: FileIdentity,
    expected: Option<&Vec<u8>>,
    seen: &Option<PutAway>,
) -> (fate: EntryFate)
    ensures
        fate == (if is_owned(
            identity,
            match expected {
                Some(bytes) => Some(bytes@),
                None => None,
            },
            *seen,
        ) {
            EntryFate::Remove
        } else {
            EntryFate::Restore
        }),
{
    let owned = match seen {
        None => false,
        Some(there) => there.identity == identity && (match expected {
            None => true,
            Some(bytes) => match &there.contents {
                Some(contents) => same_bytes(contents.as_slice(), bytes.as_slice()),
                None => false,
            },
        }),
    };
    if owned {
        EntryFate::Remove
    } else {
        EntryFate::Restore
    }
}

/// What is done next to take the lock on a publication.
#[derive(Clone, Debug, PartialEq, Eq)]
pub enum PublicationLockStep {
    /// See whether there is time left.
    Begin,
    /// Resolve the quarantines of the lock.
    Resolve,
    /// Open the file of the lock, which must be new.
    Open,
    /// Write the record, flush it and see which file it is.
    Fill,
    /// No quarantine of the lock may be there.
    CheckAgain,
    /// Put the file away again.
    TakeBack(MkoError),
    /// Wait a moment.
    Wait,
    Acquired,
    Refused(MkoError),
}

#[verifier::ext_equal]
pub enum PublicationLockStepView {
    Begin,
    Resolve,
    Open,
    Fill,
    CheckAgain,
    TakeBack(ErrorView),
    Wait,
    Acquired,
    Refused(ErrorView),
}

impl DeepView for PublicationLockStep {
    type V = PublicationLockStepView;

    open spec fn deep_view(&self) -> PublicationLockStepView {
        match self {
            PublicationLockStep::Begin => PublicationLockStepView::Begin,
            PublicationLockStep::Resolve => PublicationLockStepView::Resolve,
            PublicationLockStep::Open => PublicationLockStepView::Open,
            PublicationLockStep::Fill => PublicationLockStepView::Fill,
            PublicationLockStep::CheckAgain => PublicationLockStepView::CheckAgain,
            PublicationLockStep::TakeBack(failure) => PublicationLockStepView::TakeBack(
                failure.deep_view(),
            ),
            PublicationLockStep::Wait => PublicationLockStepView::Wait,
            PublicationLockStep::Acquired => PublicationLockStepView::Acquired,
            PublicationLockStep::Refused(failure) => PublicationLockStepView::Refused(
                failure.deep_view(),
            ),
        }
    }
}

/// How a step went.
#[derive(Clone, Debug, PartialEq, Eq)]
pub enum PublicationEvent {
    Done,
    /// There is such a file.
    AlreadyThere,
    Failed(MkoError),
}

#[verifier::ext_equal]
pub enum PublicationEventView {
    Done,
    AlreadyThere,
    Failed(ErrorView),
}

impl DeepView for PublicationEvent {
    type V = PublicationEventView;

    open spec fn deep_view(&self) -> PublicationEventView {
        match self {
            PublicationEvent::Done => PublicationEventView::Done,
            PublicationEvent::AlreadyThere => PublicationEventView::AlreadyThere,
            PublicationEvent::Failed(failure) => PublicationEventView::Failed(failure.deep_view()),
        }
    }
}

/// What follows a refusal: another try, where another publication is at work and there is
/// time left.
pub open spec fn retry(failure: ErrorView, late: bool) -> PublicationLockStepView {
    if failure.code == "registry_locked"@ && !late {
        PublicationLockStepView::Wait
    } else {
        PublicationLockStepView::Refused(failure)
    }
}

/// The refusal that an event tells.
pub open spec fn refusal_of(event: PublicationEventView) -> ErrorView {
    match event {
        PublicationEventView::Failed(failure) => failure,
        _ => publication_locked(),
    }
}

/// The step after one that went as told; `late` is whether the time for waiting is over.
pub open spec fn lock_step(
    step: PublicationLockStepView,
    event: PublicationEventView,
    late: bool,
) -> PublicationLockStepView {
    match step {
        PublicationLockStepView::Acquired => step,
        PublicationLockStepView::Refused(_) => step,
        PublicationLockStepView::Wait => PublicationLockStepView::Begin,
        PublicationLockStepView::Begin => if late {
            PublicationLockStepView::Refused(publication_locked())
        } else {
            PublicationLockStepView::Resolve
        },
        PublicationLockStepView::TakeBack(failure) => retry(failure, late),
        _ => if event is Done {
            match step {
                PublicationLockStepView::Resolve => PublicationLockStepView::Open,
                PublicationLockStepView::Open => PublicationLockStepView::Fill,
                PublicationLockStepView::Fill => PublicationLockStepView::CheckAgain,
                _ => PublicationLockStepView::Acquired,
            }
        } else {
            match step {
                PublicationLockStepView::Resolve => retry(refusal_of(event), late),
                PublicationLockStepView::Open => if event is AlreadyThere {
                    retry(publication_locked(), late)
                } else {
                    PublicationLockStepView::Refused(refusal_of(event))
                },
                PublicationLockStepView::Fill => PublicationLockStepView::Refused(
                    refusal_of(event),
                ),
                _ => PublicationLockStepView::TakeBack(refusal_of(event)),
            }
        },
    }
}

fn retry_after(failure: MkoError, late: bool) -> (step: PublicationLockStep)
    ensures
        step.deep_view() == retry(failure.deep_view(), late),
{
    if same(failure.code(), "registry_locked") && !late {
        PublicationLockStep::Wait
    } else {
        PublicationLockStep::Refused(failure)
    }
}

fn refusal_in(event: PublicationEvent) -> (failure: MkoError)
    ensures
        failure.deep_view() == refusal_of(event.deep_view()),
{
    match event {
        PublicationEvent::Failed(failure) => failure,
        _ => publication_locked_error(),
    }
}

impl PublicationLockStep {
    pub fn after(self, event: PublicationEvent, late: bool) -> (step: Self)
        ensures
            step.deep_view() == lock_step(self.deep_view(), event.deep_view(), late),
    {
        let well = match &event {
            PublicationEvent::Done => true,
            _ => false,
        };
        match self {
            PublicationLockStep::Acquired => PublicationLockStep::Acquired,
            PublicationLockStep::Refused(failure) => PublicationLockStep::Refused(failure),
            PublicationLockStep::Wait => PublicationLockStep::Begin,
            PublicationLockStep::Begin => if late {
                PublicationLockStep::Refused(publication_locked_error())
            } else {
                PublicationLockStep::Resolve
            },
            PublicationLockStep::TakeBack(failure) => retry_after(failure, late),
            PublicationLockStep::Resolve => if well {
                PublicationLockStep::Open
            } else {
                retry_after(refusal_in(event), late)
            },
            PublicationLockStep::Open => {
                if well {
                    return PublicationLockStep::Fill;
                }
                match event {
                    PublicationEvent::Failed(failure) => PublicationLockStep::Refused(failure),
                    _ => retry_after(publication_locked_error(), late),
                }
            },
            PublicationLockStep::Fill => if well {
                PublicationLockStep::CheckAgain
            } else {
                PublicationLockStep::Refused(refusal_in(event))
            },
            PublicationLockStep::CheckAgain => if well {
                PublicationLockStep::Acquired
            } else {
                PublicationLockStep::TakeBack(refusal_in(event))
            },
        }
    }
}

/// The step at which the taking of the lock stands after the first `n` events; `late` tells
/// after which of them the time was over.
pub open spec fn locking(
    events: Seq<PublicationEventView>,
    late: spec_fn(int) -> bool,
    n: int,
) -> PublicationLockStepView
    decreases n,
{
    if n <= 0 {
        PublicationLockStepView::Begin
    } else {
        lock_step(locking(events, late, n - 1), events[n - 1], late(n - 1))
    }
}

/// Once the time for waiting is over, the lock is taken or refused within six steps.
pub proof fn waiting_ends(events: Seq<PublicationEventView>, late: spec_fn(int) -> bool, n: int)
    requires
        n >= 0,
        forall|k: int| n <= k ==> #[trigger] late(k),
    ensures
        locking(events, late, n + 6) is Acquired || locking(events, late, n + 6) is Refused,
{
    reveal_with_fuel(locking, 7);
    assert(late(n) && late(n + 1) && late(n + 2) && late(n + 3) && late(n + 4) && late(n + 5));
    reveal_strlit("registry_locked");
}

/// A publication lock is held only by a process that made its file and then saw no
/// quarantine of it.
pub proof fn held_locks_were_made(
    events: Seq<PublicationEventView>,
    late: spec_fn(int) -> bool,
    n: int,
)
    requires
        locking(events, late, n) is Acquired,
    ensures
        exists|k: int|
            0 <= k && k + 3 <= n && #[trigger] locking(events, late, k) is Open && events[k] is Done
                && events[k + 2] is Done && locking(events, late, k + 2) is CheckAgain,
    decreases n,
{
    reveal_with_fuel(locking, 2);
    if locking(events, late, n - 1) is Acquired {
        held_locks_were_made(events, late, n - 1);
        let k = choose|k: int|
            0 <= k && k + 3 <= n - 1 && #[trigger] locking(events, late, k) is Open && events[k]
                is Done && events[k + 2] is Done && locking(events, late, k + 2) is CheckAgain;
        assert(k + 3 <= n);
    } else {
        assert(locking(events, late, n - 1) is CheckAgain);
        assert(locking(events, late, n - 2) is Fill);
        assert(locking(events, late, n - 3) is Open);
        assert(n - 3 >= 0);
        assert(n - 3 + 2 == n - 1);
    }
}

/// What is done next to publish a file under the lock.
#[derive(Clone, Debug, PartialEq, Eq)]
pub enum PublishStep {
    /// Open the temporary file, which must be new.
    OpenTemporary,
    /// See which file it is.
    Identify,
    /// Write the bytes and flush them.
    Write,
    /// Let the caller prepare for the last look.
    Prepare,
    /// Look at the destination for the last time.
    Validate,
    /// Move the temporary file to the destination.
    Rename,
    /// Flush the directory.
    Sync,
    Published,
    /// Put the temporary file away.
    TakeBack(MkoError),
    Refused(MkoError),
}

#[verifier::ext_equal]
pub enum PublishStepView {
    OpenTemporary,
    Identify,
    Write,
    Prepare,
    Validate,
    Rename,
    Sync,
    Published,
    TakeBack(ErrorView),
    Refused(ErrorView),
}

impl DeepView for PublishStep {
    type V = PublishStepView;

    open spec fn deep_view(&self) -> PublishStepView {
        match self {
            PublishStep::OpenTemporary => PublishStepView::OpenTemporary,
            PublishStep::Identify => PublishStepView::Identify,
            PublishStep::Write => PublishStepView::Write,
            PublishStep::Prepare => PublishStepView::Prepare,
            PublishStep::Validate => PublishStepView::Validate,
            PublishStep::Rename => PublishStepView::Rename,
            PublishStep::Sync => PublishStepView::Sync,
            PublishStep::Published => PublishStepView::Published,
            PublishStep::TakeBack(failure) => PublishStepView::TakeBack(failure.deep_view()),
            PublishStep::Refused(failure) => PublishStepView::Refused(failure.deep_view()),
        }
    }
}

/// The step after one that went as told. A new file has no destination to look at.
pub open spec fn publish_step(
    step: PublishStepView,
    replaces: bool,
    done: Result<(), ErrorView>,
) -> PublishStepView {
    match step {
        PublishStepView::Published => step,
        PublishStepView::Refused(_) => step,
        PublishStepView::TakeBack(failure) => PublishStepView::Refused(failure),
        _ => match done {
            Ok(_) => match step {
                PublishStepView::OpenTemporary => PublishStepView::Identify,
                PublishStepView::Identify => PublishStepView::Write,
                PublishStepView::Write => if replaces {
                    PublishStepView::Prepare
                } else {
                    PublishStepView::Rename
                },
                PublishStepView::Prepare => PublishStepView::Validate,
                PublishStepView::Validate => PublishStepView::Rename,
                PublishStepView::Rename => PublishStepView::Sync,
                _ => PublishStepView::Published,
            },
            Err(failure) => if step is OpenTemporary || step is Identify {
                PublishStepView::Refused(failure)
            } else {
                PublishStepView::TakeBack(failure)
            },
        },
    }
}

impl PublishStep {
    pub fn after(self, replaces: bool, done: Result<(), MkoError>) -> (step: Self)
        ensures
            step.deep_view() == publish_step(self.deep_view(), replaces, verdict(done)),
    {
        match (self, done) {
            (PublishStep::Published, _) => PublishStep::Published,
            (PublishStep::Refused(failure), _) => PublishStep::Refused(failure),
            (PublishStep::TakeBack(failure), _) => PublishStep::Refused(failure),
            (PublishStep::OpenTemporary, Ok(_)) => PublishStep::Identify,
            (PublishStep::Identify, Ok(_)) => PublishStep::Write,
            (PublishStep::Write, Ok(_)) => if replaces {
                PublishStep::Prepare
            } else {
                PublishStep::Rename
            },
            (PublishStep::Prepare, Ok(_)) => PublishStep::Validate,
            (PublishStep::Validate, Ok(_)) => PublishStep::Rename,
            (PublishStep::Rename, Ok(_)) => PublishStep::Sync,
            (PublishStep::Sync, Ok(_)) => PublishStep::Published,
            (PublishStep::OpenTemporary, Err(failure)) => PublishStep::Refused(failure),
            (PublishStep::Identify, Err(failure)) => PublishStep::Refused(failure),
            (_, Err(failure)) => PublishStep::TakeBack(failure),
        }
    }
}

/// The step at which a publication stands after the first `n` outcomes.
pub open spec fn publishing(replaces: bool, outcomes: Seq<Result<(), ErrorView>>, n: int) -> PublishStepView
    decreases n,
{
    if n <= 0 {
        PublishStepView::OpenTemporary
    } else {
        publish_step(publishing(replaces, outcomes, n - 1), replaces, outcomes[n - 1])
    }
}

/// A file is replaced right after its destination was looked at for the last time and found
/// as it should be.
pub proof fn destinations_are_validated_last(outcomes: Seq<Result<(), ErrorView>>, n: int)
    requires
        publishing(true, outcomes, n) is Rename,
    ensures
        n >= 1,
        publishing(true, outcomes, n - 1) is Validate,
        outcomes[n - 1] is Ok,
{
    reveal_with_fuel(publishing, 2);
}

/// A publication that is refused after its temporary file could be told takes that file
/// back.
pub proof fn temporary_files_are_taken_back(
    replaces: bool,
    outcomes: Seq<Result<(), ErrorView>>,
    n: int,
)
    requires
        n >= 2,
        outcomes[0] is Ok,
        outcomes[1] is Ok,
        publishing(replaces, outcomes, n) is Refused,
    ensures
        exists|k: int| 0 <= k < n && #[trigger] publishing(replaces, outcomes, k) is TakeBack,
    decreases n,
{
    reveal_with_fuel(publishing, 3);
    if n > 2 {
        let before = publishing(replaces, outcomes, n - 1);
        if before is Refused {
            temporary_files_are_taken_back(replaces, outcomes, n - 1);
            let k = choose|k: int|
                0 <= k < n - 1 && #[trigger] publishing(replaces, outcomes, k) is TakeBack;
            assert(0 <= k < n);
        } else if before is OpenTemporary || before is Identify {
            past_the_opening(replaces, outcomes, n - 1);
        } else {
            assert(before is TakeBack);
        }
    }
}

proof fn past_the_opening(replaces: bool, outcomes: Seq<Result<(), ErrorView>>, n: int)
    requires
        n >= 2,
        outcomes[0] is Ok,
        outcomes[1] is Ok,
    ensures
        !(publishing(replaces, outcomes, n) is OpenTemporary),
        !(publishing(replaces, outcomes, n) is Identify),
    decreases n,
{
    reveal_with_fuel(publishing, 3);
    if n > 2 {
        past_the_opening(replaces, outcomes, n - 1);
    }
}

} // verus!

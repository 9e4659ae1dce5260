//! Locks on Assets and on the repository: who holds one, when it may be cleared, and in
//! which order one is taken.
//!
//! A lock is a file in the lock directory that only one process can create. A lock that is
//! given up or cleared is first moved to a quarantine, a name that holds the secret of its
//! owner, and removed only when what was moved is what was meant.

use crate::asset_validation::{prefixed_hash, valid_prefixed_hash};
use crate::digest::{hex_digits, printed};
use crate::error::{error, outcome, verdict, ErrorView, MkoError};
use crate::local_path::{
    join_path, joined_path, named, named_path, path_at_most, path_not_after, path_order_is_total,
    path_order_is_transitive, relative, relative_path, LocalPath, LocalPathView,
};
use crate::model::Timestamp;
use crate::order::{sort, stable_sort, Ranked};
use crate::text::{
    after_prefix, cat2, cat3, cat4, cat5, cut_at_last, cut_before_the_rest, cut_last, decimal,
    decimal_digits, contains_char, ends_with, has_lower_hex, is_lower_hex, same, strip_prefix,
};
use vstd::arithmetic::div_mod::lemma_mod_multiples_vanish;
use vstd::prelude::*;

verus! {

/// The most entries of the lock directory that are looked at.
pub const LOCK_SCAN_ENTRY_LIMIT: usize = 64;

/// The longest that the lock directory is looked at.
pub const LOCK_SCAN_TIME_LIMIT_MS: u64 = 100;

/// The most bytes of a lock file that are read.
pub const LOCK_RECORD_BYTE_LIMIT: u64 = 4096;

/// How old a lock is before it can be stale.
pub const STALE_LOCK_NANOS: i128 = 900_000_000_000;

/// The file of the lock on the repository.
pub const REPOSITORY_MUTATION_FILENAME: &'static str = "repository-mutation.lock";

/// What the lock on the repository says that it locks.
pub const REPOSITORY_MUTATION_SCOPE: &'static str = "repository-v2-mutation";

/// What a lock file holds.
#[derive(Clone, Debug, PartialEq, Eq)]
pub struct LockRecord {
    pub pid: u32,
    pub hostname: String,
    pub started_at: Timestamp,
    pub command: String,
    pub asset_id: String,
    pub owner_token: String,
}

#[verifier::ext_equal]
pub struct LockRecordView {
    pub pid: u32,
    pub hostname: Seq<char>,
    pub started_at: Timestamp,
    pub command: Seq<char>,
    pub asset_id: Seq<char>,
    pub owner_token: Seq<char>,
}

impl DeepView for LockRecord {
    type V = LockRecordView;

    open spec fn deep_view(&self) -> LockRecordView {
        LockRecordView {
            pid: self.pid,
            hostname: self.hostname@,
            started_at: self.started_at,
            command: self.command@,
            asset_id: self.asset_id@,
            owner_token: self.owner_token@,
        }
    }
}

impl LockRecord {
    /// A record that holds the same.
    pub fn duplicate(&self) -> (copy: Self)
        ensures
            copy.deep_view() == self.deep_view(),
    {
        LockRecord {
            pid: self.pid,
            hostname: self.hostname.clone(),
            started_at: self.started_at,
            command: self.command.clone(),
            asset_id: self.asset_id.clone(),
            owner_token: self.owner_token.clone(),
        }
    }

    fn holds_same(&self, other: &LockRecord) -> (equal: bool)
        ensures
            equal == (self.deep_view() == other.deep_view()),
    {
        self.pid == other.pid && same(self.hostname.as_str(), other.hostname.as_str())
            && self.started_at == other.started_at && same(
            self.command.as_str(),
            other.command.as_str(),
        ) && same(self.asset_id.as_str(), other.asset_id.as_str()) && same(
            self.owner_token.as_str(),
            other.owner_token.as_str(),
        )
    }
}

/// What tells a file from every other file, whatever its name.
#[derive(Clone, Copy, Debug, PartialEq, Eq, Structural)]
pub struct FileIdentity {
    pub device: u64,
    pub inode: u64,
}

/// What is known of the owner of a lock.
#[derive(Clone, Copy, Debug, PartialEq, Eq, Structural)]
pub enum LockState {
    Active,
    Stale,
    Unreadable,
}

/// A lock that was found.
#[derive(Clone, Debug, PartialEq, Eq)]
pub struct LockInspection {
    pub path: LocalPath,
    pub state: LockState,
}

#[verifier::ext_equal]
pub struct LockInspectionView {
    pub path: LocalPathView,
    pub state: LockState,
}

impl DeepView for LockInspection {
    type V = LockInspectionView;

    open spec fn deep_view(&self) -> LockInspectionView {
        LockInspectionView { path: self.path.deep_view(), state: self.state }
    }
}

impl Ranked for LockInspection {
    open spec fn leq(left: LockInspectionView, right: LockInspectionView) -> bool {
        path_at_most(left.path, right.path)
    }

    proof fn leq_total(left: LockInspectionView, right: LockInspectionView) {
        path_order_is_total(left.path, right.path);
    }

    proof fn leq_transitive(
        a: LockInspectionView,
        b: LockInspectionView,
        c: LockInspectionView,
    ) {
        path_order_is_transitive(a.path, b.path, c.path);
    }

    fn ranks_at_most(&self, other: &Self) -> (result: bool) {
        path_not_after(&self.path, &other.path)
    }
}

/// Whether a lock on the repository that its owner left may be cleared.
#[derive(Clone, Copy, Debug, PartialEq, Eq, Structural)]
pub enum StaleRepositoryLockPolicy {
    Preserve,
    Clear,
}

impl StaleRepositoryLockPolicy {
    pub fn clears(&self) -> (clears: bool)
        ensures
            clears == (*self == StaleRepositoryLockPolicy::Clear),
    {
        match self {
            StaleRepositoryLockPolicy::Clear => true,
            StaleRepositoryLockPolicy::Preserve => false,
        }
    }
}

pub open spec fn scan_limit() -> ErrorView {
    error(
        "lock_scan_limit"@,
        "lock directory scan exceeded its bounded work limit; reduce unexpected entries and retry"@,
    )
}

/// The lock directory holds more than is looked at, or it took too long.
pub fn lock_scan_limit_error() -> (failure: MkoError)
    ensures
        failure.deep_view() == scan_limit(),
{
    MkoError::new(
        "lock_scan_limit",
        "lock directory scan exceeded its bounded work limit; reduce unexpected entries and retry",
    )
}

pub open spec fn quarantine_invalid() -> ErrorView {
    error(
        "lock_quarantine_invalid"@,
        "quarantined lock metadata is invalid; inspect it or retry with --clear-stale-lock"@,
    )
}

/// A quarantine is not what its name says.
pub fn lock_quarantine_invalid_error() -> (failure: MkoError)
    ensures
        failure.deep_view() == quarantine_invalid(),
{
    MkoError::new(
        "lock_quarantine_invalid",
        "quarantined lock metadata is invalid; inspect it or retry with --clear-stale-lock",
    )
}

pub open spec fn lock_held() -> ErrorView {
    error(
        "lock_held"@,
        "asset operation lock is held; a stale lock requires --clear-stale-lock"@,
    )
}

/// Another process holds the lock, or left it.
pub fn lock_held_error() -> (failure: MkoError)
    ensures
        failure.deep_view() == lock_held(),
{
    MkoError::new(
        "lock_held",
        "asset operation lock is held; a stale lock requires --clear-stale-lock",
    )
}

/// The error of a lock on the repository: one on an Asset under a code of its own.
pub open spec fn repository_error(failure: ErrorView) -> ErrorView {
    if failure.code == "lock_held"@ {
        error(
            "repository_lock_held"@,
            "repository mutation lock is held; a stale lock requires an explicit clear policy"@,
        )
    } else {
        match after_prefix(failure.code, "lock_"@) {
            Some(suffix) => error("repository_lock_"@ + suffix, failure.message),
            None => failure,
        }
    }
}

pub fn map_repository_lock_error(failure: MkoError) -> (mapped: MkoError)
    ensures
        mapped.deep_view() == repository_error(failure.deep_view()),
{
    if same(failure.code(), "lock_held") {
        return MkoError::new(
            "repository_lock_held",
            "repository mutation lock is held; a stale lock requires an explicit clear policy",
        );
    }
    match strip_prefix(failure.code(), "lock_") {
        Some(suffix) => {
            let code = cat2("repository_lock_", suffix);
            MkoError::new(code.as_str(), failure.message())
        },
        None => failure,
    }
}

/// The ID names an Asset by its content.
pub open spec fn asset_id_check(asset_id: Seq<char>) -> Result<(), ErrorView> {
    if prefixed_hash(asset_id, "personal-asset-"@) is Some {
        Ok(())
    } else {
        Err(error("asset_id_invalid"@, "asset ID must be a content-addressed asset ID"@))
    }
}

pub fn validate_asset_id(asset_id: &str) -> (result: Result<(), MkoError>)
    ensures
        verdict(result) == asset_id_check(asset_id@),
{
    if valid_prefixed_hash(asset_id, "personal-asset-").is_some() {
        Ok(())
    } else {
        Err(MkoError::new("asset_id_invalid", "asset ID must be a content-addressed asset ID"))
    }
}

/// The secret of a random token: sixteen bytes in lowercase hexadecimal.
pub open spec fn is_secret(text: Seq<char>) -> bool {
    is_lower_hex(text, 32)
}

/// `getrandom::fill` on sixteen bytes: they come from the system, and nothing is known of
/// them; there are none where the system has no randomness.
#[verifier::external_body]
pub(crate) fn random_bytes() -> Option<[u8; 16]> {
    let mut random = [0_u8; 16];
    getrandom::fill(&mut random).ok()?;
    Some(random)
}

/// The secret that sixteen bytes make.
pub fn secret_from(bytes: &[u8; 16]) -> (secret: String)
    ensures
        secret@ == hex_digits(bytes@),
        is_secret(secret@),
{
    printed(bytes.as_slice())
}

/// A fresh secret.
pub fn secure_token() -> (result: Result<String, MkoError>)
    ensures
        match result {
            Ok(secret) => is_secret(secret@),
            Err(failure) => failure.deep_view() == error(
                "lock_write_failed"@,
                "secure randomness is unavailable"@,
            ),
        },
{
    match random_bytes() {
        Some(bytes) => Ok(secret_from(&bytes)),
        None => Err(MkoError::new("lock_write_failed", "secure randomness is unavailable")),
    }
}

/// The token of an owner: its process, how many tokens that process had made before, and a
/// secret.
pub open spec fn owner_token(pid: u32, count: u64, secret: Seq<char>) -> Seq<char> {
    decimal_digits(pid as nat) + "-"@ + decimal_digits(count as nat) + "-"@ + secret
}

pub fn next_owner_token(pid: u32, count: u64, secret: &str) -> (token: String)
    ensures
        token@ == owner_token(pid, count, secret@),
{
    let process = decimal(pid as u64);
    let number = decimal(count);
    cat5(process.as_str(), "-", number.as_str(), "-", secret)
}

/// The secret in the token of an owner: what follows the last hyphen.
pub open spec fn secret_of(token: Seq<char>) -> Option<Seq<char>> {
    match cut_at_last(token, "-"@) {
        Some((_, secret)) => if is_secret(secret) {
            Some(secret)
        } else {
            None
        },
        None => None,
    }
}

/// The token has a secret, and a hyphen in front of it besides the one that sets it off.
pub open spec fn is_owner_token(token: Seq<char>) -> bool {
    match cut_at_last(token, "-"@) {
        Some((prefix, secret)) => is_secret(secret) && prefix.contains('-'),
        None => false,
    }
}

pub fn owner_token_secret<'a>(token: &'a str) -> (secret: Option<&'a str>)
    ensures
        secret.deep_view() == secret_of(token@),
{
    match cut_last(token, "-") {
        Some((_, secret)) => if has_lower_hex(secret, 32) {
            Some(secret)
        } else {
            None
        },
        None => None,
    }
}

pub fn owner_token_is_valid(token: &str) -> (valid: bool)
    ensures
        valid == is_owner_token(token@),
{
    match cut_last(token, "-") {
        Some((prefix, secret)) => has_lower_hex(secret, 32) && contains_char(prefix, '-'),
        None => false,
    }
}

proof fn secret_has_no_hyphen(secret: Seq<char>)
    requires
        is_secret(secret),
    ensures
        forall|k: int|
            0 < k <= secret.len() ==> #[trigger] ("-"@ + secret).subrange(k, k + "-"@.len())
                != "-"@,
{
    reveal_strlit("-");
    assert forall|k: int| 0 < k <= secret.len() implies #[trigger] ("-"@ + secret).subrange(
        k,
        k + "-"@.len(),
    ) != "-"@ by {
        assert(("-"@ + secret).subrange(k, k + 1)[0] == secret[k - 1]);
        assert(crate::text::is_lower_hex_digit(secret[k - 1]));
        assert("-"@[0] == '-');
    }
}

/// A token that was made for an owner is one, and holds the secret it was made with.
pub proof fn made_tokens_hold_their_secret(pid: u32, count: u64, secret: Seq<char>)
    requires
        is_secret(secret),
    ensures
        is_owner_token(owner_token(pid, count, secret)),
        secret_of(owner_token(pid, count, secret)) == Some(secret),
{
    let prefix = decimal_digits(pid as nat) + "-"@ + decimal_digits(count as nat);
    secret_has_no_hyphen(secret);
    reveal_strlit("-");
    cut_before_the_rest(prefix, "-"@, secret);
    assert(prefix[decimal_digits(pid as nat).len() as int] == '-');
}

/// The name under which a lock file is put away.
pub open spec fn quarantine_name(filename: Seq<char>, secret: Seq<char>) -> Seq<char> {
    "."@ + filename + ".cleanup-"@ + secret
}

/// The file that a quarantine was moved from and the secret in its name.
pub open spec fn quarantine_target(name: Seq<char>) -> Option<(Seq<char>, Seq<char>)> {
    match after_prefix(name, "."@) {
        None => None,
        Some(rest) => match cut_at_last(rest, ".cleanup-"@) {
            None => None,
            Some((target, secret)) => if is_secret(secret) {
                Some((target, secret))
            } else {
                None
            },
        },
    }
}

/// The name under which a lock file is put away.
pub fn cleanup_name(filename: &str, secret: &str) -> (name: String)
    ensures
        name@ == quarantine_name(filename@, secret@),
{
    cat4(".", filename, ".cleanup-", secret)
}

pub fn authoritative_quarantine_target<'a>(name: &'a str) -> (target: Option<(&'a str, &'a str)>)
    ensures
        match target {
            Some((file, secret)) => quarantine_target(name@) == Some((file@, secret@)),
            None => quarantine_target(name@) is None,
        },
{
    match strip_prefix(name, ".") {
        None => None,
        Some(rest) => match cut_last(rest, ".cleanup-") {
            None => None,
            Some((target, secret)) => if has_lower_hex(secret, 32) {
                Some((target, secret))
            } else {
                None
            },
        },
    }
}

/// The name of a quarantine tells the file it was moved from and the secret of its owner.
pub proof fn quarantine_names_read_back(filename: Seq<char>, secret: Seq<char>)
    requires
        is_secret(secret),
    ensures
        quarantine_target(quarantine_name(filename, secret)) == Some((filename, secret)),
{
    let mark = ".cleanup-"@;
    let name = quarantine_name(filename, secret);
    reveal_strlit(".cleanup-");
    reveal_strlit(".");
    assert forall|k: int| 0 < k <= secret.len() implies #[trigger] (mark + secret).subrange(
        k,
        k + mark.len(),
    ) != mark by {
        let there = (mark + secret).subrange(k, k + mark.len());
        assert(there[0] == (mark + secret)[k]);
        if k < mark.len() {
            assert(there[0] == mark[k]);
            assert(mark[k] != '.');
        } else {
            assert(there[0] == secret[k - mark.len()]);
            assert(crate::text::is_lower_hex_digit(secret[k - mark.len()]));
        }
        assert(mark[0] == '.');
    }
    cut_before_the_rest(filename, mark, secret);
    assert(name.subrange("."@.len() as int, name.len() as int) == filename + mark + secret);
    assert("."@.is_prefix_of(name));
    assert(name.skip(1) == filename + mark + secret);
}

/// Whether the second in which a leap second is told lies between two moments of a day, as
/// seen from the later one.
pub open spec fn leap_seconds(now: Timestamp, then: Timestamp) -> int {
    let now_of_day = now.seconds as int % 86_400;
    let then_of_day = then.seconds as int % 86_400;
    if now_of_day > then_of_day && then.nanos >= 1_000_000_000 {
        1
    } else if now_of_day < then_of_day && now.nanos >= 1_000_000_000 {
        -1
    } else {
        0
    }
}

/// The nanoseconds from one moment to another. A moment within a leap second has more than
/// a second of nanoseconds, and that second counts where the other moment is outside it.
pub open spec fn nanos_since(now: Timestamp, then: Timestamp) -> int {
    (now.seconds - then.seconds + leap_seconds(now, then)) * 1_000_000_000 + now.nanos
        - then.nanos
}

fn second_of_day(seconds: i64) -> (second: u128)
    ensures
        second == seconds as int % 86_400,
{
    let shifted: u128 = (seconds as i128 + 9_223_372_036_854_806_400i128) as u128;
    proof {
        assert(9_223_372_036_854_806_400int == 86_400 * 106_751_991_167_301);
        lemma_mod_multiples_vanish(106_751_991_167_301, seconds as int, 86_400);
    }
    shifted % 86_400
}

pub(crate) fn age_in_nanos(now: Timestamp, then: Timestamp) -> (nanos: i128)
    ensures
        nanos == nanos_since(now, then),
{
    let now_of_day = second_of_day(now.seconds);
    let then_of_day = second_of_day(then.seconds);
    let leap: i128 = if now_of_day > then_of_day && then.nanos >= 1_000_000_000 {
        1
    } else if now_of_day < then_of_day && now.nanos >= 1_000_000_000 {
        -1
    } else {
        0
    };
    (now.seconds as i128 - then.seconds as i128 + leap) * 1_000_000_000 + now.nanos as i128
        - then.nanos as i128
}

/// What a process sees when it asks about the owner of a lock: its own host, the time, and
/// whether a process with the number of the owner runs here.
#[derive(Clone, Debug, PartialEq, Eq)]
pub struct LockWitness {
    pub hostname: String,
    pub now: Timestamp,
    pub owner_is_live: bool,
}

#[verifier::ext_equal]
pub struct LockWitnessView {
    pub hostname: Seq<char>,
    pub now: Timestamp,
    pub owner_is_live: bool,
}

impl DeepView for LockWitness {
    type V = LockWitnessView;

    open spec fn deep_view(&self) -> LockWitnessView {
        LockWitnessView {
            hostname: self.hostname@,
            now: self.now,
            owner_is_live: self.owner_is_live,
        }
    }
}

/// A process that started something on a host left it: it was on this host, it is long ago,
/// and no such process runs.
pub open spec fn is_left(hostname: Seq<char>, started_at: Timestamp, witness: LockWitnessView) -> bool {
    &&& hostname == witness.hostname
    &&& nanos_since(witness.now, started_at) > STALE_LOCK_NANOS
    &&& !witness.owner_is_live
}

/// Whether it matters if a process still runs: only for what was started on this host, long
/// ago.
pub fn asks_for_owner(hostname: &str, started_at: Timestamp, here: &str, now: Timestamp) -> (asks:
    bool)
    ensures
        asks == exists|live: bool|
            #[trigger] is_left(
                hostname@,
                started_at,
                LockWitnessView { hostname: here@, now, owner_is_live: live },
            ),
{
    let asks = same(hostname, here) && age_in_nanos(now, started_at) > STALE_LOCK_NANOS;
    proof {
        let gone = LockWitnessView { hostname: here@, now, owner_is_live: false };
        assert(asks == is_left(hostname@, started_at, gone));
    }
    asks
}

pub(crate) fn was_left(hostname: &str, started_at: Timestamp, witness: &LockWitness) -> (left: bool)
    ensures
        left == is_left(hostname@, started_at, witness.deep_view()),
{
    same(hostname, witness.hostname.as_str()) && age_in_nanos(witness.now, started_at)
        > STALE_LOCK_NANOS && !witness.owner_is_live
}

/// The owner of a lock left it.
pub open spec fn is_stale(record: LockRecordView, witness: LockWitnessView) -> bool {
    is_left(record.hostname, record.started_at, witness)
}

pub fn record_is_stale(record: &LockRecord, witness: &LockWitness) -> (stale: bool)
    ensures
        stale == is_stale(record.deep_view(), witness.deep_view()),
{
    was_left(record.hostname.as_str(), record.started_at, witness)
}

/// What came of opening a lock file: what it holds where that is a lock record, and which
/// file it is.
#[derive(Clone, Debug, PartialEq, Eq)]
pub enum LockReading {
    Read { record: Option<LockRecord>, identity: FileIdentity },
    Failed(MkoError),
}

#[verifier::ext_equal]
pub enum LockReadingView {
    Read { record: Option<LockRecordView>, identity: FileIdentity },
    Failed(ErrorView),
}

impl DeepView for LockReading {
    type V = LockReadingView;

    open spec fn deep_view(&self) -> LockReadingView {
        match self {
            LockReading::Read { record, identity } => LockReadingView::Read {
                record: record.deep_view(),
                identity: *identity,
            },
            LockReading::Failed(failure) => LockReadingView::Failed(failure.deep_view()),
        }
    }
}

/// What opening a lock file owes: a regular file that is no link, and no more bytes than a
/// record has. A larger file is one without a record.
pub fn check_lock_file(is_regular: bool) -> (result: Result<(), MkoError>)
    ensures
        verdict(result) == (if is_regular {
            Ok(())
        } else {
            Err(quarantine_invalid())
        }),
{
    if is_regular {
        Ok(())
    } else {
        Err(lock_quarantine_invalid_error())
    }
}

/// Whether the bytes that were read may be taken for a record.
pub fn record_fits(read: u64) -> (fits: bool)
    ensures
        fits == (read <= LOCK_RECORD_BYTE_LIMIT),
{
    read <= LOCK_RECORD_BYTE_LIMIT
}

/// What a process could learn of the owner of a lock.
#[derive(Clone, Debug, PartialEq, Eq)]
pub enum OwnerSight {
    Seen(LockWitness),
    Unknown(MkoError),
}

#[verifier::ext_equal]
pub enum OwnerSightView {
    Seen(LockWitnessView),
    Unknown(ErrorView),
}

impl DeepView for OwnerSight {
    type V = OwnerSightView;

    open spec fn deep_view(&self) -> OwnerSightView {
        match self {
            OwnerSight::Seen(witness) => OwnerSightView::Seen(witness.deep_view()),
            OwnerSight::Unknown(failure) => OwnerSightView::Unknown(failure.deep_view()),
        }
    }
}

/// Whether the owner left the lock, where that can be told.
pub open spec fn staleness(record: LockRecordView, owner: OwnerSightView) -> Result<
    bool,
    ErrorView,
> {
    match owner {
        OwnerSightView::Seen(witness) => Ok(is_stale(record, witness)),
        OwnerSightView::Unknown(failure) => Err(failure),
    }
}

pub fn owner_left(record: &LockRecord, owner: &OwnerSight) -> (result: Result<bool, MkoError>)
    ensures
        outcome(result) == staleness(record.deep_view(), owner.deep_view()),
{
    match owner {
        OwnerSight::Seen(witness) => Ok(record_is_stale(record, witness)),
        OwnerSight::Unknown(failure) => Err(failure.duplicate()),
    }
}

/// An entry of the lock directory, with its name as far as it is text.
#[derive(Debug, PartialEq, Eq)]
pub enum LockEntry {
    /// The time for looking was over before this entry.
    Late,
    /// The entry could not be read.
    Failed(String),
    Named {
        name: String,
        is_text: bool,
        reading: LockReading,
        owner: OwnerSight,
        /// Which file a second look saw, where the first one failed.
        second_look: Result<Option<FileIdentity>, MkoError>,
    },
}

#[verifier::ext_equal]
pub enum LockEntryView {
    Late,
    Failed(Seq<char>),
    Named {
        name: Seq<char>,
        is_text: bool,
        reading: LockReadingView,
        owner: OwnerSightView,
        second_look: Result<Option<FileIdentity>, ErrorView>,
    },
}

/// What the second look saw.
pub open spec fn second_sight(look: Result<Option<FileIdentity>, MkoError>) -> Result<
    Option<FileIdentity>,
    ErrorView,
> {
    match look {
        Ok(identity) => Ok(identity),
        Err(failure) => Err(failure.deep_view()),
    }
}

impl DeepView for LockEntry {
    type V = LockEntryView;

    open spec fn deep_view(&self) -> LockEntryView {
        match self {
            LockEntry::Late => LockEntryView::Late,
            LockEntry::Failed(message) => LockEntryView::Failed(message@),
            LockEntry::Named { name, is_text, reading, owner, second_look } => LockEntryView::Named {
                name: name@,
                is_text: *is_text,
                reading: reading.deep_view(),
                owner: owner.deep_view(),
                second_look: second_sight(*second_look),
            },
        }
    }
}

/// The name is one of a lock, of the guard of one, or of a quarantine.
pub open spec fn names_a_lock(name: Seq<char>) -> bool {
    ".lock"@.is_suffix_of(name) || ".lock.takeover"@.is_suffix_of(name) || quarantine_target(name)
        is Some
}

pub fn is_lock_name(name: &str) -> (result: bool)
    ensures
        result == names_a_lock(name@),
{
    ends_with(name, ".lock") || ends_with(name, ".lock.takeover")
        || authoritative_quarantine_target(name).is_some()
}

/// The record is the one of the quarantine with that name.
pub open spec fn is_authentic(name: Seq<char>, record: LockRecordView) -> bool {
    match quarantine_target(name) {
        Some((_, secret)) => secret_of(record.owner_token) == Some(secret),
        None => false,
    }
}

fn authentic(name: &str, record: &LockRecord) -> (result: bool)
    ensures
        result == is_authentic(name@, record.deep_view()),
{
    match authoritative_quarantine_target(name) {
        Some((_, secret)) => match owner_token_secret(record.owner_token.as_str()) {
            Some(own) => same(own, secret),
            None => false,
        },
        None => false,
    }
}

/// The state of the lock with that name.
pub open spec fn lock_state(name: Seq<char>, reading: LockReadingView, owner: OwnerSightView) -> Result<
    LockState,
    ErrorView,
> {
    match reading {
        LockReadingView::Read { record: Some(record), .. } => if quarantine_target(name) is Some
            && !is_authentic(name, record) {
            Ok(LockState::Unreadable)
        } else {
            match staleness(record, owner) {
                Ok(true) => Ok(LockState::Stale),
                Ok(false) => Ok(LockState::Active),
                Err(failure) => Err(failure),
            }
        },
        LockReadingView::Read { record: None, .. } => Ok(LockState::Unreadable),
        LockReadingView::Failed(failure) => if failure.code == "lock_scan_limit"@ {
            Err(failure)
        } else {
            Ok(LockState::Unreadable)
        },
    }
}

fn state_of(name: &str, reading: &LockReading, owner: &OwnerSight) -> (result: Result<
    LockState,
    MkoError,
>)
    ensures
        match result {
            Ok(state) => lock_state(name@, reading.deep_view(), owner.deep_view()) == Ok::<
                LockState,
                ErrorView,
            >(state),
            Err(failure) => lock_state(name@, reading.deep_view(), owner.deep_view()) == Err::<
                LockState,
                ErrorView,
            >(failure.deep_view()),
        },
{
    match reading {
        LockReading::Read { record, identity: _ } => match record {
            Some(record) => {
                if authoritative_quarantine_target(name).is_some() && !authentic(name, record) {
                    return Ok(LockState::Unreadable);
                }
                match owner_left(record, owner) {
                    Ok(true) => Ok(LockState::Stale),
                    Ok(false) => Ok(LockState::Active),
                    Err(failure) => Err(failure),
                }
            },
            None => Ok(LockState::Unreadable),
        },
        LockReading::Failed(failure) => if same(failure.code(), "lock_scan_limit") {
            Err(failure.duplicate())
        } else {
            Ok(LockState::Unreadable)
        },
    }
}

/// What is reported of one entry of the lock directory, if anything.
pub open spec fn entry_inspection(directory: LocalPathView, index: int, entry: LockEntryView) -> Result<
    Option<LockInspectionView>,
    ErrorView,
> {
    if index >= LOCK_SCAN_ENTRY_LIMIT {
        Err(scan_limit())
    } else {
        match entry {
            LockEntryView::Late => Err(scan_limit()),
            LockEntryView::Failed(message) => Err(error("lock_read_failed"@, message)),
            LockEntryView::Named { name, is_text, reading, owner, .. } => if !is_text
                || !names_a_lock(name) {
                Ok(None)
            } else {
                match lock_state(name, reading, owner) {
                    Ok(state) => Ok(
                        Some(
                            LockInspectionView {
                                path: joined_path(directory, named_path(name)),
                                state,
                            },
                        ),
                    ),
                    Err(failure) => Err(failure),
                }
            },
        }
    }
}

/// What is reported of the first `n` entries, in the order in which they were met.
pub open spec fn inspections(directory: LocalPathView, entries: Seq<LockEntryView>, n: int) -> Result<
    Seq<LockInspectionView>,
    ErrorView,
>
    decreases n,
{
    if n <= 0 {
        Ok(Seq::empty())
    } else {
        match inspections(directory, entries, n - 1) {
            Err(failure) => Err(failure),
            Ok(found) => match entry_inspection(directory, n - 1, entries[n - 1]) {
                Err(failure) => Err(failure),
                Ok(None) => Ok(found),
                Ok(Some(inspection)) => Ok(found.push(inspection)),
            },
        }
    }
}

/// The locks of a repository, in the order of their paths.
pub open spec fn lock_inspections(root: LocalPathView, entries: Seq<LockEntryView>) -> Result<
    Seq<LockInspectionView>,
    ErrorView,
> {
    match inspections(
        joined_path(root, relative_path(".knowledge-os/runtime/locks"@)),
        entries,
        entries.len() as int,
    ) {
        Ok(found) => Ok(stable_sort::<LockInspection>(found)),
        Err(failure) => Err(failure),
    }
}

proof fn refusals_stay(directory: LocalPathView, entries: Seq<LockEntryView>, n: int, m: int)
    requires
        n <= m,
        inspections(directory, entries, n) is Err,
    ensures
        inspections(directory, entries, m) == inspections(directory, entries, n),
    decreases m,
{
    if 0 < m && n < m {
        refusals_stay(directory, entries, n, m - 1);
    }
}

pub fn inspect_locks(repository_root: &LocalPath, entries: &Vec<LockEntry>) -> (result: Result<
    Vec<LockInspection>,
    MkoError,
>)
    ensures
        outcome(result) == lock_inspections(repository_root.deep_view(), entries.deep_view()),
{
    let directory = join_path(repository_root, &relative(".knowledge-os/runtime/locks"));
    let ghost place = directory.deep_view();
    let ghost all = entries.deep_view();
    let mut found: Vec<LockInspection> = Vec::new();
    let mut i: usize = 0;
    assert(found.deep_view() == Seq::<LockInspectionView>::empty());
    while i < entries.len()
        invariant
            i <= entries.len(),
            all == entries.deep_view(),
            place == directory.deep_view(),
            place == joined_path(
                repository_root.deep_view(),
                relative_path(".knowledge-os/runtime/locks"@),
            ),
            inspections(place, all, i as int) == Ok::<Seq<LockInspectionView>, ErrorView>(
                found.deep_view(),
            ),
        decreases entries.len() - i,
    {
        assert(all[i as int] == entries@[i as int].deep_view());
        let ghost before = found.deep_view();
        let refusal: Option<MkoError>;
        if i >= LOCK_SCAN_ENTRY_LIMIT {
            refusal = Some(lock_scan_limit_error());
        } else {
            match &entries[i] {
                LockEntry::Late => {
                    refusal = Some(lock_scan_limit_error());
                },
                LockEntry::Failed(message) => {
                    refusal = Some(MkoError::new("lock_read_failed", message.as_str()));
                },
                LockEntry::Named { name, is_text, reading, owner, second_look: _ } => {
                    if !*is_text || !is_lock_name(name.as_str()) {
                        refusal = None;
                    } else {
                        match state_of(name.as_str(), reading, owner) {
                            Ok(state) => {
                                let path = join_path(&directory, &named(name.as_str()));
                                let ghost told = LockInspectionView {
                                    path: path.deep_view(),
                                    state,
                                };
                                found.push(LockInspection { path, state });
                                assert(found.deep_view() == before.push(told));
                                refusal = None;
                            },
                            Err(failure) => {
                                refusal = Some(failure);
                            },
                        }
                    }
                },
            }
        }
        match refusal {
            Some(failure) => {
                proof {
                    assert(inspections(place, all, i + 1) == Err::<
                        Seq<LockInspectionView>,
                        ErrorView,
                    >(failure.deep_view()));
                    refusals_stay(place, all, i + 1, all.len() as int);
                }
                return Err(failure);
            },
            None => {},
        }
        i += 1;
    }
    Ok(sort(found))
}

/// A lock file that was put away, as the lock directory shows it.
#[derive(Clone, Debug, PartialEq, Eq)]
pub struct AssetQuarantine {
    pub filename: String,
    pub record: Option<LockRecord>,
    pub authenticated: bool,
    pub identity: Option<FileIdentity>,
    pub owner: OwnerSight,
}

#[verifier::ext_equal]
pub struct AssetQuarantineView {
    pub filename: Seq<char>,
    pub record: Option<LockRecordView>,
    pub authenticated: bool,
    pub identity: Option<FileIdentity>,
    pub owner: OwnerSightView,
}

impl DeepView for AssetQuarantine {
    type V = AssetQuarantineView;

    open spec fn deep_view(&self) -> AssetQuarantineView {
        AssetQuarantineView {
            filename: self.filename@,
            record: self.record.deep_view(),
            authenticated: self.authenticated,
            identity: self.identity,
            owner: self.owner.deep_view(),
        }
    }
}

/// The name is one of a quarantine of the file.
pub open spec fn is_quarantine_of(name: Seq<char>, filename: Seq<char>) -> bool {
    match quarantine_target(name) {
        Some((target, _)) => target == filename,
        None => false,
    }
}

pub fn quarantines(name: &str, filename: &str) -> (result: bool)
    ensures
        result == is_quarantine_of(name@, filename@),
{
    match authoritative_quarantine_target(name) {
        Some((target, _)) => same(target, filename),
        None => false,
    }
}

/// The quarantine of the file that an entry shows, if it shows one.
pub open spec fn entry_quarantine(filename: Seq<char>, index: int, entry: LockEntryView) -> Result<
    Option<AssetQuarantineView>,
    ErrorView,
> {
    if index >= LOCK_SCAN_ENTRY_LIMIT {
        Err(scan_limit())
    } else {
        match entry {
            LockEntryView::Late => Err(scan_limit()),
            LockEntryView::Failed(message) => Err(error("lock_read_failed"@, message)),
            LockEntryView::Named { name, reading, owner, second_look, .. } => if !is_quarantine_of(
                name,
                filename,
            ) {
                Ok(None)
            } else {
                match reading {
                    LockReadingView::Read { record, identity } => Ok(
                        Some(
                            AssetQuarantineView {
                                filename: name,
                                record,
                                authenticated: record is Some && is_authentic(name, record->0),
                                identity: Some(identity),
                                owner,
                            },
                        ),
                    ),
                    LockReadingView::Failed(failure) => if failure.code == "lock_scan_limit"@ {
                        Err(failure)
                    } else {
                        match second_look {
                            Ok(identity) => Ok(
                                Some(
                                    AssetQuarantineView {
                                        filename: name,
                                        record: None,
                                        authenticated: false,
                                        identity,
                                        owner,
                                    },
                                ),
                            ),
                            Err(failure) => Err(failure),
                        }
                    },
                }
            },
        }
    }
}

/// The quarantines of the file among the first `n` entries.
pub open spec fn quarantines_of(filename: Seq<char>, entries: Seq<LockEntryView>, n: int) -> Result<
    Seq<AssetQuarantineView>,
    ErrorView,
>
    decreases n,
{
    if n <= 0 {
        Ok(Seq::empty())
    } else {
        match quarantines_of(filename, entries, n - 1) {
            Err(failure) => Err(failure),
            Ok(found) => match entry_quarantine(filename, n - 1, entries[n - 1]) {
                Err(failure) => Err(failure),
                Ok(None) => Ok(found),
                Ok(Some(quarantine)) => Ok(found.push(quarantine)),
            },
        }
    }
}

proof fn quarantine_refusals_stay(
    filename: Seq<char>,
    entries: Seq<LockEntryView>,
    n: int,
    m: int,
)
    requires
        n <= m,
        quarantines_of(filename, entries, n) is Err,
    ensures
        quarantines_of(filename, entries, m) == quarantines_of(filename, entries, n),
    decreases m,
{
    if 0 < m && n < m {
        quarantine_refusals_stay(filename, entries, n, m - 1);
    }
}

fn copy_sight(owner: &OwnerSight) -> (copy: OwnerSight)
    ensures
        copy.deep_view() == owner.deep_view(),
{
    match owner {
        OwnerSight::Seen(witness) => OwnerSight::Seen(
            LockWitness {
                hostname: witness.hostname.clone(),
                now: witness.now,
                owner_is_live: witness.owner_is_live,
            },
        ),
        OwnerSight::Unknown(failure) => OwnerSight::Unknown(failure.duplicate()),
    }
}

fn copy_record(record: &Option<LockRecord>) -> (copy: Option<LockRecord>)
    ensures
        copy.deep_view() == record.deep_view(),
{
    match record {
        Some(record) => Some(record.duplicate()),
        None => None,
    }
}

fn quarantine_in(filename: &str, index: usize, entry: &LockEntry) -> (result: Result<
    Option<AssetQuarantine>,
    MkoError,
>)
    ensures
        outcome(result) == entry_quarantine(filename@, index as int, entry.deep_view()),
{
    if index >= LOCK_SCAN_ENTRY_LIMIT {
        return Err(lock_scan_limit_error());
    }
    match entry {
        LockEntry::Late => Err(lock_scan_limit_error()),
        LockEntry::Failed(message) => Err(MkoError::new("lock_read_failed", message.as_str())),
        LockEntry::Named { name, is_text: _, reading, owner, second_look } => {
            if !quarantines(name.as_str(), filename) {
                return Ok(None);
            }
            match reading {
                LockReading::Read { record, identity } => {
                    let authenticated = match record {
                        Some(record) => authentic(name.as_str(), record),
                        None => false,
                    };
                    Ok(
                        Some(
                            AssetQuarantine {
                                filename: name.clone(),
                                record: copy_record(record),
                                authenticated,
                                identity: Some(*identity),
                                owner: copy_sight(owner),
                            },
                        ),
                    )
                },
                LockReading::Failed(failure) => {
                    if same(failure.code(), "lock_scan_limit") {
                        return Err(failure.duplicate());
                    }
                    match second_look {
                        Ok(identity) => Ok(
                            Some(
                                AssetQuarantine {
                                    filename: name.clone(),
                                    record: None,
                                    authenticated: false,
                                    identity: *identity,
                                    owner: copy_sight(owner),
                                },
                            ),
                        ),
                        Err(failure) => Err(failure.duplicate()),
                    }
                },
            }
        },
    }
}

pub fn scan_authoritative_quarantines(filename: &str, entries: &Vec<LockEntry>) -> (result: Result<
    Vec<AssetQuarantine>,
    MkoError,
>)
    ensures
        outcome(result) == quarantines_of(
            filename@,
            entries.deep_view(),
            entries.deep_view().len() as int,
        ),
{
    let ghost all = entries.deep_view();
    let mut found: Vec<AssetQuarantine> = Vec::new();
    let mut i: usize = 0;
    assert(found.deep_view() == Seq::<AssetQuarantineView>::empty());
    while i < entries.len()
        invariant
            i <= entries.len(),
            all == entries.deep_view(),
            quarantines_of(filename@, all, i as int) == Ok::<Seq<AssetQuarantineView>, ErrorView>(
                found.deep_view(),
            ),
        decreases entries.len() - i,
    {
        assert(all[i as int] == entries@[i as int].deep_view());
        let ghost before = found.deep_view();
        match quarantine_in(filename, i, &entries[i]) {
            Err(failure) => {
                proof {
                    quarantine_refusals_stay(filename@, all, i + 1, all.len() as int);
                }
                return Err(failure);
            },
            Ok(None) => {},
            Ok(Some(quarantine)) => {
                let ghost told = quarantine.deep_view();
                found.push(quarantine);
                assert(found.deep_view() == before.push(told));
            },
        }
        i += 1;
    }
    Ok(found)
}

/// The quarantine holds a lock on the Asset, under the name of its own owner.
pub open spec fn is_rightful(quarantine: AssetQuarantineView, asset_id: Seq<char>) -> bool {
    match quarantine.record {
        Some(record) => record.asset_id == asset_id && is_owner_token(record.owner_token)
            && quarantine.authenticated,
        None => false,
    }
}

fn rightful(quarantine: &AssetQuarantine, asset_id: &str) -> (result: bool)
    ensures
        result == is_rightful(quarantine.deep_view(), asset_id@),
{
    match &quarantine.record {
        Some(record) => same(record.asset_id.as_str(), asset_id) && owner_token_is_valid(
            record.owner_token.as_str(),
        ) && quarantine.authenticated,
        None => false,
    }
}

/// No quarantine may stand beside a lock that is taken.
pub open spec fn quarantines_absent(
    found: Seq<AssetQuarantineView>,
    asset_id: Seq<char>,
    n: int,
) -> Result<(), ErrorView>
    decreases found.len() - n,
{
    if n >= found.len() {
        if found.len() == 0 {
            Ok(())
        } else {
            Err(lock_held())
        }
    } else if n < 0 || !is_rightful(found[n], asset_id) {
        Err(quarantine_invalid())
    } else {
        match staleness(found[n].record->0, found[n].owner) {
            Err(failure) => Err(failure),
            Ok(_) => quarantines_absent(found, asset_id, n + 1),
        }
    }
}

pub fn ensure_no_authoritative_quarantine(found: &Vec<AssetQuarantine>, asset_id: &str) -> (result:
    Result<(), MkoError>)
    ensures
        verdict(result) == quarantines_absent(found.deep_view(), asset_id@, 0),
{
    let ghost all = found.deep_view();
    let mut i: usize = 0;
    while i < found.len()
        invariant
            i <= found.len(),
            all == found.deep_view(),
            quarantines_absent(all, asset_id@, 0) == quarantines_absent(all, asset_id@, i as int),
        decreases found.len() - i,
    {
        assert(all[i as int] == found@[i as int].deep_view());
        if !rightful(&found[i], asset_id) {
            return Err(lock_quarantine_invalid_error());
        }
        match &found[i].record {
            Some(record) => match owner_left(record, &found[i].owner) {
                Err(failure) => {
                    return Err(failure);
                },
                Ok(_) => {},
            },
            None => {
                assert(false);
            },
        }
        i += 1;
    }
    if found.len() == 0 {
        Ok(())
    } else {
        Err(lock_held_error())
    }
}

/// Whether the quarantines of a lock may be removed. One of an owner that still works stands
/// in the way whatever is asked; anything else only where clearing was not asked for.
pub open spec fn quarantines_resolvable(
    found: Seq<AssetQuarantineView>,
    asset_id: Seq<char>,
    clear_stale: bool,
    n: int,
) -> Result<(), ErrorView>
    decreases found.len() - n,
{
    if n < 0 || n >= found.len() {
        Ok(())
    } else if is_rightful(found[n], asset_id) {
        match staleness(found[n].record->0, found[n].owner) {
            Err(failure) => Err(failure),
            Ok(stale) => if !stale || !clear_stale {
                Err(lock_held())
            } else {
                quarantines_resolvable(found, asset_id, clear_stale, n + 1)
            },
        }
    } else if !clear_stale {
        Err(quarantine_invalid())
    } else {
        quarantines_resolvable(found, asset_id, clear_stale, n + 1)
    }
}

pub fn resolve_authoritative_quarantines(
    found: &Vec<AssetQuarantine>,
    asset_id: &str,
    clear_stale: bool,
) -> (result: Result<(), MkoError>)
    ensures
        verdict(result) == quarantines_resolvable(found.deep_view(), asset_id@, clear_stale, 0),
{
    let ghost all = found.deep_view();
    let mut i: usize = 0;
    while i < found.len()
        invariant
            i <= found.len(),
            all == found.deep_view(),
            quarantines_resolvable(all, asset_id@, clear_stale, 0) == quarantines_resolvable(
                all,
                asset_id@,
                clear_stale,
                i as int,
            ),
        decreases found.len() - i,
    {
        assert(all[i as int] == found@[i as int].deep_view());
        if rightful(&found[i], asset_id) {
            match &found[i].record {
                Some(record) => match owner_left(record, &found[i].owner) {
                    Err(failure) => {
                        return Err(failure);
                    },
                    Ok(stale) => {
                        if !stale || !clear_stale {
                            return Err(lock_held_error());
                        }
                    },
                },
                None => {
                    assert(false);
                },
            }
        } else if !clear_stale {
            return Err(lock_quarantine_invalid_error());
        }
        i += 1;
    }
    Ok(())
}

/// The name under which a quarantine is put aside before it is removed.
pub fn reap_name(quarantine: &str, secret: &str) -> (name: String)
    ensures
        name@ == quarantine@ + ".reap-"@ + secret@,
{
    cat3(quarantine, ".reap-", secret)
}

/// Whether the quarantine that was put aside is removed: it must still be the file that was
/// found, with the same record. One whose file could not be told stays aside.
pub open spec fn reaping(quarantine: AssetQuarantineView, reading: LockReadingView) -> Result<
    bool,
    ErrorView,
> {
    match quarantine.identity {
        None => Ok(false),
        Some(expected) => match reading {
            LockReadingView::Failed(_) => Err(
                error(
                    "lock_clear_failed"@,
                    "quarantined lock could not be safely reopened during recovery"@,
                ),
            ),
            LockReadingView::Read { record, identity } => if identity != expected {
                Err(error("lock_clear_failed"@, "quarantined lock changed during recovery"@))
            } else if quarantine.record is Some && record != quarantine.record {
                Err(error("lock_clear_failed"@, "quarantined lock owner changed during recovery"@))
            } else {
                Ok(true)
            },
        },
    }
}

fn same_record(left: &Option<LockRecord>, right: &Option<LockRecord>) -> (equal: bool)
    ensures
        equal == (left.deep_view() == right.deep_view()),
{
    match (left, right) {
        (Some(left), Some(right)) => left.holds_same(right),
        (None, None) => true,
        _ => false,
    }
}

pub fn reap_authoritative_quarantine(quarantine: &AssetQuarantine, reading: &LockReading) -> (result:
    Result<bool, MkoError>)
    ensures
        outcome(result) == reaping(quarantine.deep_view(), reading.deep_view()),
{
    match quarantine.identity {
        None => Ok(false),
        Some(expected) => match reading {
            LockReading::Failed(_) => Err(
                MkoError::new(
                    "lock_clear_failed",
                    "quarantined lock could not be safely reopened during recovery",
                ),
            ),
            LockReading::Read { record, identity } => {
                if *identity != expected {
                    return Err(
                        MkoError::new(
                            "lock_clear_failed",
                            "quarantined lock changed during recovery",
                        ),
                    );
                }
                if quarantine.record.is_some() && !same_record(record, &quarantine.record) {
                    return Err(
                        MkoError::new(
                            "lock_clear_failed",
                            "quarantined lock owner changed during recovery",
                        ),
                    );
                }
                Ok(true)
            },
        },
    }
}

/// The record of a lock that is needed to go on; `told` is how the failure to read it is
/// told.
pub open spec fn needed_record(reading: LockReadingView, told: Seq<char>) -> Result<
    LockRecordView,
    ErrorView,
> {
    match reading {
        LockReadingView::Failed(_) => Err(error("lock_read_failed"@, told)),
        LockReadingView::Read { record: None, .. } => Err(
            error("lock_held"@, "asset operation lock is unreadable; inspect it manually"@),
        ),
        LockReadingView::Read { record: Some(record), .. } => Ok(record),
    }
}

pub fn read_lock_record<'a>(reading: &'a LockReading, told: &str) -> (result: Result<
    &'a LockRecord,
    MkoError,
>)
    ensures
        match result {
            Ok(record) => needed_record(reading.deep_view(), told@) == Ok::<
                LockRecordView,
                ErrorView,
            >(record.deep_view()),
            Err(failure) => needed_record(reading.deep_view(), told@) == Err::<
                LockRecordView,
                ErrorView,
            >(failure.deep_view()),
        },
{
    match reading {
        LockReading::Failed(_) => Err(MkoError::new("lock_read_failed", told)),
        LockReading::Read { record, identity: _ } => match record {
            None => Err(
                MkoError::new(
                    "lock_held",
                    "asset operation lock is unreadable; inspect it manually",
                ),
            ),
            Some(record) => Ok(record),
        },
    }
}

/// The name under which a stale lock is put away: with the secret of its owner, or with a
/// fresh one where it has none. A lock of something else, or one whose owner may still work,
/// is held.
pub open spec fn stale_removal(
    filename: Seq<char>,
    reading: LockReadingView,
    told: Seq<char>,
    asset_id: Seq<char>,
    owner: OwnerSightView,
    fresh: Seq<char>,
) -> Result<Seq<char>, ErrorView> {
    match needed_record(reading, told) {
        Err(failure) => Err(failure),
        Ok(record) => if record.asset_id != asset_id {
            Err(lock_held())
        } else {
            match staleness(record, owner) {
                Err(failure) => Err(failure),
                Ok(false) => Err(lock_held()),
                Ok(true) => Ok(
                    quarantine_name(
                        filename,
                        match secret_of(record.owner_token) {
                            Some(secret) => secret,
                            None => fresh,
                        },
                    ),
                ),
            }
        },
    }
}

pub fn begin_stale_removal(
    filename: &str,
    reading: &LockReading,
    told: &str,
    asset_id: &str,
    owner: &OwnerSight,
    fresh: &str,
) -> (result: Result<String, MkoError>)
    ensures
        outcome(result) == stale_removal(
            filename@,
            reading.deep_view(),
            told@,
            asset_id@,
            owner.deep_view(),
            fresh@,
        ),
{
    let record = match read_lock_record(reading, told) {
        Err(failure) => {
            return Err(failure);
        },
        Ok(record) => record,
    };
    if !same(record.asset_id.as_str(), asset_id) {
        return Err(lock_held_error());
    }
    match owner_left(record, owner) {
        Err(failure) => {
            return Err(failure);
        },
        Ok(stale) => {
            if !stale {
                return Err(lock_held_error());
            }
        },
    }
    let secret = match owner_token_secret(record.owner_token.as_str()) {
        Some(secret) => secret,
        None => fresh,
    };
    Ok(cleanup_name(filename, secret))
}

/// What becomes of a file that was put away.
#[derive(Clone, Copy, Debug, PartialEq, Eq, Structural)]
pub enum EntryFate {
    Remove,
    /// It gets its name back, unless that was taken meanwhile.
    Restore,
}

/// What becomes of a stale lock that was put away: it is removed where it is still the one
/// that was looked at and still stale.
pub open spec fn stale_fate(
    captured: LockReadingView,
    current: LockReadingView,
    told: Seq<char>,
    asset_id: Seq<char>,
    owner: OwnerSightView,
) -> Result<EntryFate, ErrorView> {
    match needed_record(current, told) {
        Err(failure) => Err(failure),
        Ok(record) => if captured != current {
            Err(error("lock_clear_failed"@, "lock changed during stale recovery"@))
        } else if record.asset_id != asset_id {
            Ok(EntryFate::Restore)
        } else {
            match staleness(record, owner) {
                Err(failure) => Err(failure),
                Ok(true) => Ok(EntryFate::Remove),
                Ok(false) => Ok(EntryFate::Restore),
            }
        },
    }
}

fn same_reading(left: &LockReading, right: &LockReading) -> (equal: bool)
    ensures
        equal ==> left.deep_view() == right.deep_view(),
        left is Read && right is Read && left.deep_view() == right.deep_view() ==> equal,
        left is Failed || right is Failed ==> !equal,
{
    match (left, right) {
        (
            LockReading::Read { record: first, identity: one },
            LockReading::Read { record: second, identity: other },
        ) => *one == *other && same_record(first, second),
        _ => false,
    }
}

pub fn finish_stale_removal(
    captured: &LockReading,
    current: &LockReading,
    told: &str,
    asset_id: &str,
    owner: &OwnerSight,
) -> (result: Result<EntryFate, MkoError>)
    ensures
        match result {
            Ok(fate) => stale_fate(
                captured.deep_view(),
                current.deep_view(),
                told@,
                asset_id@,
                owner.deep_view(),
            ) == Ok::<EntryFate, ErrorView>(fate),
            Err(failure) => stale_fate(
                captured.deep_view(),
                current.deep_view(),
                told@,
                asset_id@,
                owner.deep_view(),
            ) == Err::<EntryFate, ErrorView>(failure.deep_view()),
        },
{
    let record = match read_lock_record(current, told) {
        Err(failure) => {
            return Err(failure);
        },
        Ok(record) => record,
    };
    if !same_reading(captured, current) {
        return Err(MkoError::new("lock_clear_failed", "lock changed during stale recovery"));
    }
    if !same(record.asset_id.as_str(), asset_id) {
        return Ok(EntryFate::Restore);
    }
    match owner_left(record, owner) {
        Err(failure) => Err(failure),
        Ok(true) => Ok(EntryFate::Remove),
        Ok(false) => Ok(EntryFate::Restore),
    }
}

/// The secret under which a file is put away: the one of its owner, where it is known and
/// holds one, and a fresh one otherwise.
pub open spec fn cleanup_secret(expected_owner: Option<Seq<char>>, fresh: Seq<char>) -> Seq<char> {
    match expected_owner {
        Some(owner) => match secret_of(owner) {
            Some(secret) => secret,
            None => fresh,
        },
        None => fresh,
    }
}

pub fn cleanup_quarantine(filename: &str, expected_owner: Option<&str>, fresh: &str) -> (name:
    String)
    ensures
        name@ == quarantine_name(filename@, cleanup_secret(expected_owner.deep_view(), fresh@)),
{
    let secret = match expected_owner {
        Some(owner) => match owner_token_secret(owner) {
            Some(secret) => secret,
            None => fresh,
        },
        None => fresh,
    };
    cleanup_name(filename, secret)
}

/// What was put away is the file that this process made, and still says so where the owner
/// is asked for.
pub open spec fn is_owned(
    identity: FileIdentity,
    expected_owner: Option<Seq<char>>,
    reading: LockReadingView,
) -> bool {
    match reading {
        LockReadingView::Read { record, identity: current } => current == identity && (
        match expected_owner {
            Some(owner) => record is Some && record->0.owner_token == owner,
            None => true,
        }),
        LockReadingView::Failed(_) => false,
    }
}

/// What becomes of a lock that its owner put away: it is removed where it is the owner's,
/// and anything else gets its name back.
pub fn cleanup_lock_entry(
    identity: FileIdentity,
    expected_owner: Option<&str>,
    reading: &LockReading,
) -> (fate: EntryFate)
    ensures
        fate == (if is_owned(identity, expected_owner.deep_view(), reading.deep_view()) {
            EntryFate::Remove
        } else {
            EntryFate::Restore
        }),
{
    let owned = match reading {
        LockReading::Read { record, identity: current } => *current == identity && (
        match expected_owner {
            Some(owner) => match record {
                Some(record) => same(record.owner_token.as_str(), owner),
                None => false,
            },
            None => true,
        }),
        LockReading::Failed(_) => false,
    };
    if owned {
        EntryFate::Remove
    } else {
        EntryFate::Restore
    }
}

/// A lock on an Asset that this process holds.
#[derive(Clone, Debug, PartialEq, Eq)]
pub struct AssetLock {
    filename: String,
    repository_root: String,
    asset_id: String,
    owner_token: String,
    identity: FileIdentity,
}

#[verifier::ext_equal]
pub struct AssetLockView {
    pub filename: Seq<char>,
    pub repository_root: Seq<char>,
    pub asset_id: Seq<char>,
    pub owner_token: Seq<char>,
    pub identity: FileIdentity,
}

impl DeepView for AssetLock {
    type V = AssetLockView;

    closed spec fn deep_view(&self) -> AssetLockView {
        AssetLockView {
            filename: self.filename@,
            repository_root: self.repository_root@,
            asset_id: self.asset_id@,
            owner_token: self.owner_token@,
            identity: self.identity,
        }
    }
}

/// The lock authorizes a change of the Asset in the repository: the file in the lock
/// directory is still the one that was made, with the same owner.
pub open spec fn authorizes(
    lock: AssetLockView,
    root: Option<Seq<char>>,
    asset_id: Seq<char>,
    reading: LockReadingView,
) -> bool {
    &&& lock.asset_id == asset_id
    &&& root == Some(lock.repository_root)
    &&& match reading {
        LockReadingView::Read { record: Some(record), identity } => {
            &&& identity == lock.identity
            &&& record.asset_id == asset_id
            &&& record.owner_token == lock.owner_token
        },
        _ => false,
    }
}

impl AssetLock {
    /// The lock that was just made.
    pub fn made(
        repository_root: &str,
        asset_id: &str,
        owner_token: &str,
        identity: FileIdentity,
    ) -> (lock: Self)
        ensures
            lock.deep_view() == (AssetLockView {
                filename: asset_id@ + ".lock"@,
                repository_root: repository_root@,
                asset_id: asset_id@,
                owner_token: owner_token@,
                identity,
            }),
    {
        AssetLock {
            filename: asset_lock_filename(asset_id),
            repository_root: repository_root.to_owned(),
            asset_id: asset_id.to_owned(),
            owner_token: owner_token.to_owned(),
            identity,
        }
    }

    pub fn filename(&self) -> (filename: &str)
        ensures
            filename@ == self.deep_view().filename,
    {
        self.filename.as_str()
    }

    pub fn asset_id(&self) -> (asset_id: &str)
        ensures
            asset_id@ == self.deep_view().asset_id,
    {
        self.asset_id.as_str()
    }

    /// The token of this process in the file of the lock.
    pub fn owner_token(&self) -> (token: &str)
        ensures
            token@ == self.deep_view().owner_token,
    {
        self.owner_token.as_str()
    }

    /// `root` is the real path of the repository, where it has one.
    pub fn assert_owned_for(&self, root: Option<&str>, asset_id: &str, reading: &LockReading) -> (
    result: Result<(), MkoError>)
        ensures
            verdict(result) == (if authorizes(
                self.deep_view(),
                root.deep_view(),
                asset_id@,
                reading.deep_view(),
            ) {
                Ok(())
            } else {
                Err(
                    error(
                        "asset_lock_mismatch"@,
                        "the held Asset lock does not authorize this publication"@,
                    ),
                )
            }),
    {
        let here = match root {
            Some(root) => same(root, self.repository_root.as_str()),
            None => false,
        };
        let owned = same(self.asset_id.as_str(), asset_id) && here && (match reading {
            LockReading::Read { record, identity } => match record {
                Some(record) => *identity == self.identity && same(
                    record.asset_id.as_str(),
                    asset_id,
                ) && same(record.owner_token.as_str(), self.owner_token.as_str()),
                None => false,
            },
            LockReading::Failed(_) => false,
        });
        if owned {
            Ok(())
        } else {
            Err(
                MkoError::new(
                    "asset_lock_mismatch",
                    "the held Asset lock does not authorize this publication",
                ),
            )
        }
    }

    /// How the lock is given up, once its file was put away and opened there.
    pub fn release(&self, reading: &LockReading) -> (fate: EntryFate)
        ensures
            fate == (if is_owned(
                self.deep_view().identity,
                Some(self.deep_view().owner_token),
                reading.deep_view(),
            ) {
                EntryFate::Remove
            } else {
                EntryFate::Restore
            }),
    {
        cleanup_lock_entry(self.identity, Some(self.owner_token.as_str()), reading)
    }
}

/// The lock on the repository that this process holds. It is separate from the locks on
/// Assets: its file has a fixed name, and no Asset is named for it.
#[derive(Clone, Debug, PartialEq, Eq)]
pub struct RepositoryMutationLock {
    repository_root: String,
    owner_token: String,
    identity: FileIdentity,
}

#[verifier::ext_equal]
pub struct RepositoryMutationLockView {
    pub repository_root: Seq<char>,
    pub owner_token: Seq<char>,
    pub identity: FileIdentity,
}

impl DeepView for RepositoryMutationLock {
    type V = RepositoryMutationLockView;

    closed spec fn deep_view(&self) -> RepositoryMutationLockView {
        RepositoryMutationLockView {
            repository_root: self.repository_root@,
            owner_token: self.owner_token@,
            identity: self.identity,
        }
    }
}

impl RepositoryMutationLock {
    /// The lock that was just made.
    pub fn made(repository_root: &str, owner_token: &str, identity: FileIdentity) -> (lock: Self)
        ensures
            lock.deep_view() == (RepositoryMutationLockView {
                repository_root: repository_root@,
                owner_token: owner_token@,
                identity,
            }),
    {
        RepositoryMutationLock {
            repository_root: repository_root.to_owned(),
            owner_token: owner_token.to_owned(),
            identity,
        }
    }

    /// The token of this process in the file of the lock.
    pub fn owner_token(&self) -> (token: &str)
        ensures
            token@ == self.deep_view().owner_token,
    {
        self.owner_token.as_str()
    }

    /// How the lock is given up, once its file was put away and opened there.
    pub fn release(&self, reading: &LockReading) -> (fate: EntryFate)
        ensures
            fate == (if is_owned(
                self.deep_view().identity,
                Some(self.deep_view().owner_token),
                reading.deep_view(),
            ) {
                EntryFate::Remove
            } else {
                EntryFate::Restore
            }),
    {
        cleanup_lock_entry(self.identity, Some(self.owner_token.as_str()), reading)
    }
}

/// The file of the lock on an Asset.
pub fn asset_lock_filename(asset_id: &str) -> (filename: String)
    ensures
        filename@ == asset_id@ + ".lock"@,
{
    cat2(asset_id, ".lock")
}

/// The file that guards the taking and giving up of a lock.
pub fn takeover_filename(filename: &str) -> (guard: String)
    ensures
        guard@ == filename@ + ".takeover"@,
{
    cat2(filename, ".takeover")
}

/// Whether a file is there.
#[derive(Clone, Debug, PartialEq, Eq)]
pub enum Presence {
    Present,
    Absent,
    Unknown(String),
}

#[verifier::ext_equal]
pub enum PresenceView {
    Present,
    Absent,
    Unknown(Seq<char>),
}

impl DeepView for Presence {
    type V = PresenceView;

    open spec fn deep_view(&self) -> PresenceView {
        match self {
            Presence::Present => PresenceView::Present,
            Presence::Absent => PresenceView::Absent,
            Presence::Unknown(message) => PresenceView::Unknown(message@),
        }
    }
}

/// Whether the guard that another process left is to be removed before a lock is taken.
pub fn clear_stale_takeover_if_requested(guard: &Presence, clear_stale: bool) -> (result: Result<
    bool,
    MkoError,
>)
    ensures
        outcome(result) == (match guard.deep_view() {
            PresenceView::Absent => Ok(false),
            PresenceView::Unknown(message) => Err(error("lock_read_failed"@, message)),
            PresenceView::Present => if clear_stale {
                Ok(true)
            } else {
                Err(lock_held())
            },
        }),
{
    match guard {
        Presence::Absent => Ok(false),
        Presence::Unknown(message) => Err(MkoError::new("lock_read_failed", message.as_str())),
        Presence::Present => if clear_stale {
            Ok(true)
        } else {
            Err(lock_held_error())
        },
    }
}

/// What the file of a new lock holds.
pub fn lock_record(
    pid: u32,
    hostname: &str,
    started_at: Timestamp,
    command: &str,
    scope: &str,
    owner_token: &str,
) -> (record: LockRecord)
    ensures
        record.deep_view() == (LockRecordView {
            pid,
            hostname: hostname@,
            started_at,
            command: command@,
            asset_id: scope@,
            owner_token: owner_token@,
        }),
{
    LockRecord {
        pid,
        hostname: hostname.to_owned(),
        started_at,
        command: command.to_owned(),
        asset_id: scope.to_owned(),
        owner_token: owner_token.to_owned(),
    }
}

/// What is done next to take a lock.
#[derive(Clone, Debug, PartialEq, Eq)]
pub enum AcquireStep {
    /// Resolve the quarantines of the guard.
    ResolveTakeover,
    /// Clear the guard that another process left, where that was asked for.
    ClearTakeover,
    /// Make the guard.
    TakeOver,
    /// Resolve the quarantines of the lock.
    ResolveLock,
    /// Make the file of the lock.
    Create,
    /// Remove the lock that another process left.
    RemoveStale,
    /// Make the file of the lock after that.
    CreateAgain,
    Acquired,
    Refused(MkoError),
}

#[verifier::ext_equal]
pub enum AcquireStepView {
    ResolveTakeover,
    ClearTakeover,
    TakeOver,
    ResolveLock,
    Create,
    RemoveStale,
    CreateAgain,
    Acquired,
    Refused(ErrorView),
}

impl DeepView for AcquireStep {
    type V = AcquireStepView;

    open spec fn deep_view(&self) -> AcquireStepView {
        match self {
            AcquireStep::ResolveTakeover => AcquireStepView::ResolveTakeover,
            AcquireStep::ClearTakeover => AcquireStepView::ClearTakeover,
            AcquireStep::TakeOver => AcquireStepView::TakeOver,
            AcquireStep::ResolveLock => AcquireStepView::ResolveLock,
            AcquireStep::Create => AcquireStepView::Create,
            AcquireStep::RemoveStale => AcquireStepView::RemoveStale,
            AcquireStep::CreateAgain => AcquireStepView::CreateAgain,
            AcquireStep::Acquired => AcquireStepView::Acquired,
            AcquireStep::Refused(failure) => AcquireStepView::Refused(failure.deep_view()),
        }
    }
}

/// The step after one that went as told.
pub open spec fn acquire_step(
    step: AcquireStepView,
    clear_stale: bool,
    done: Result<(), ErrorView>,
) -> AcquireStepView {
    match step {
        AcquireStepView::Acquired => step,
        AcquireStepView::Refused(_) => step,
        AcquireStepView::Create => match done {
            Ok(_) => AcquireStepView::Acquired,
            Err(failure) => if failure.code != "lock_exists"@ {
                AcquireStepView::Refused(failure)
            } else if clear_stale {
                AcquireStepView::RemoveStale
            } else {
                AcquireStepView::Refused(lock_held())
            },
        },
        AcquireStepView::CreateAgain => match done {
            Ok(_) => AcquireStepView::Acquired,
            Err(failure) => if failure.code != "lock_exists"@ {
                AcquireStepView::Refused(failure)
            } else {
                AcquireStepView::Refused(lock_held())
            },
        },
        _ => match done {
            Err(failure) => AcquireStepView::Refused(failure),
            Ok(_) => match step {
                AcquireStepView::ResolveTakeover => AcquireStepView::ClearTakeover,
                AcquireStepView::ClearTakeover => if clear_stale {
                    AcquireStepView::TakeOver
                } else {
                    AcquireStepView::ResolveLock
                },
                AcquireStepView::TakeOver => AcquireStepView::ResolveLock,
                AcquireStepView::ResolveLock => AcquireStepView::Create,
                _ => AcquireStepView::CreateAgain,
            },
        },
    }
}

/// The step at which the taking of a lock stands after the first `n` outcomes.
pub open spec fn acquiring(clear_stale: bool, outcomes: Seq<Result<(), ErrorView>>, n: int) -> AcquireStepView
    decreases n,
{
    if n <= 0 {
        AcquireStepView::ResolveTakeover
    } else {
        acquire_step(acquiring(clear_stale, outcomes, n - 1), clear_stale, outcomes[n - 1])
    }
}

impl AcquireStep {
    pub fn first() -> (step: Self)
        ensures
            forall|clear_stale: bool, outcomes: Seq<Result<(), ErrorView>>|
                step.deep_view() == #[trigger] acquiring(clear_stale, outcomes, 0),
    {
        AcquireStep::ResolveTakeover
    }

    pub fn after(self, clear_stale: bool, done: Result<(), MkoError>) -> (step: Self)
        ensures
            step.deep_view() == acquire_step(self.deep_view(), clear_stale, verdict(done)),
    {
        match (self, done) {
            (AcquireStep::Acquired, _) => AcquireStep::Acquired,
            (AcquireStep::Refused(failure), _) => AcquireStep::Refused(failure),
            (AcquireStep::Create, Ok(_)) => AcquireStep::Acquired,
            (AcquireStep::CreateAgain, Ok(_)) => AcquireStep::Acquired,
            (AcquireStep::Create, Err(failure)) => if !same(failure.code(), "lock_exists") {
                AcquireStep::Refused(failure)
            } else if clear_stale {
                AcquireStep::RemoveStale
            } else {
                AcquireStep::Refused(lock_held_error())
            },
            (AcquireStep::CreateAgain, Err(failure)) => if !same(failure.code(), "lock_exists") {
                AcquireStep::Refused(failure)
            } else {
                AcquireStep::Refused(lock_held_error())
            },
            (_, Err(failure)) => AcquireStep::Refused(failure),
            (AcquireStep::ResolveTakeover, Ok(_)) => AcquireStep::ClearTakeover,
            (AcquireStep::ClearTakeover, Ok(_)) => if clear_stale {
                AcquireStep::TakeOver
            } else {
                AcquireStep::ResolveLock
            },
            (AcquireStep::TakeOver, Ok(_)) => AcquireStep::ResolveLock,
            (AcquireStep::ResolveLock, Ok(_)) => AcquireStep::Create,
            (AcquireStep::RemoveStale, Ok(_)) => AcquireStep::CreateAgain,
        }
    }
}

/// The taking of a lock comes to an end, granted or refused.
pub open spec fn is_over(step: AcquireStepView) -> bool {
    step is Acquired || step is Refused
}

/// A lock is taken or refused after seven steps at most.
pub proof fn acquiring_ends(clear_stale: bool, outcomes: Seq<Result<(), ErrorView>>)
    ensures
        is_over(acquiring(clear_stale, outcomes, 7)),
{
    reveal_with_fuel(acquiring, 8);
}

/// Where clearing was not asked for, no lock and no guard of another process is removed and
/// no guard is made.
pub proof fn locks_are_preserved(outcomes: Seq<Result<(), ErrorView>>, n: int)
    ensures
        !(acquiring(false, outcomes, n) is RemoveStale),
        !(acquiring(false, outcomes, n) is CreateAgain),
        !(acquiring(false, outcomes, n) is TakeOver),
    decreases n,
{
    if n > 0 {
        locks_are_preserved(outcomes, n - 1);
    }
}

/// A lock is held only by a process that made its file, after the quarantines of the lock
/// and of its guard were resolved; and where a lock of another process may be cleared, only
/// under the guard.
pub proof fn held_locks_were_made(clear_stale: bool, outcomes: Seq<Result<(), ErrorView>>, n: int)
    requires
        acquiring(clear_stale, outcomes, n) is Acquired,
    ensures
        exists|k: int|
            0 <= k < n && (#[trigger] acquiring(clear_stale, outcomes, k) is Create || acquiring(
                clear_stale,
                outcomes,
                k,
            ) is CreateAgain) && outcomes[k] is Ok,
        outcomes[0] is Ok,
        outcomes[1] is Ok,
        outcomes[2] is Ok,
        clear_stale ==> acquiring(clear_stale, outcomes, 2) is TakeOver && outcomes[3] is Ok,
    decreases n,
{
    reveal_with_fuel(acquiring, 5);
    if acquiring(clear_stale, outcomes, n - 1) is Acquired {
        held_locks_were_made(clear_stale, outcomes, n - 1);
        let k = choose|k: int|
            0 <= k < n - 1 && (#[trigger] acquiring(clear_stale, outcomes, k) is Create
                || acquiring(clear_stale, outcomes, k) is CreateAgain) && outcomes[k] is Ok;
        assert(0 <= k < n);
    } else {
        assert(acquiring(clear_stale, outcomes, n - 1) is Create || acquiring(
            clear_stale,
            outcomes,
            n - 1,
        ) is CreateAgain);
        came_by_the_checks(clear_stale, outcomes, n - 1);
    }
}

proof fn came_by_the_checks(clear_stale: bool, outcomes: Seq<Result<(), ErrorView>>, n: int)
    requires
        acquiring(clear_stale, outcomes, n) is Create || acquiring(clear_stale, outcomes, n)
            is RemoveStale || acquiring(clear_stale, outcomes, n) is CreateAgain,
    ensures
        outcomes[0] is Ok,
        outcomes[1] is Ok,
        outcomes[2] is Ok,
        clear_stale ==> acquiring(clear_stale, outcomes, 2) is TakeOver && outcomes[3] is Ok,
        n >= 3,
    decreases n,
{
    reveal_with_fuel(acquiring, 5);
    if n > 0 {
        let before = acquiring(clear_stale, outcomes, n - 1);
        if before is Create || before is RemoveStale || before is CreateAgain {
            came_by_the_checks(clear_stale, outcomes, n - 1);
        } else {
            assert(before is ResolveLock);
            came_to_the_lock(clear_stale, outcomes, n - 1);
        }
    }
}

proof fn came_to_the_lock(clear_stale: bool, outcomes: Seq<Result<(), ErrorView>>, n: int)
    requires
        acquiring(clear_stale, outcomes, n) is ResolveLock,
    ensures
        n == (if clear_stale {
            3int
        } else {
            2int
        }),
        outcomes[0] is Ok,
        outcomes[1] is Ok,
        clear_stale ==> acquiring(clear_stale, outcomes, 2) is TakeOver && outcomes[2] is Ok,
{
    reveal_with_fuel(acquiring, 5);
    let before = acquiring(clear_stale, outcomes, n - 1);
    assert(before is TakeOver || before is ClearTakeover);
    if n >= 2 {
        let earlier = acquiring(clear_stale, outcomes, n - 2);
        if n >= 3 {
            let first = acquiring(clear_stale, outcomes, n - 3);
            if n >= 4 {
                let none = acquiring(clear_stale, outcomes, n - 4);
                assert(false);
            }
        }
    }
}

/// What kind of file is made.
#[derive(Clone, Copy, Debug, PartialEq, Eq, Structural)]
pub enum LockKind {
    Asset,
    Repository,
    /// The guard of a lock.
    Takeover,
}

/// What is done next to make the file of a lock or of a guard.
#[derive(Clone, Debug, PartialEq, Eq)]
pub enum CreateStep {
    /// No quarantine of the file may be there.
    CheckQuarantines,
    /// Open the file, which must be new.
    Open,
    /// Remove the file that another process left.
    RemoveStale,
    /// Open the file after that.
    OpenAgain,
    /// See which file it is.
    Identify,
    /// Write the record and flush it.
    Write,
    /// Flush the directory.
    Sync,
    /// Still no quarantine of the file may be there.
    CheckAgain,
    Created,
    /// Put the file away again, whatever it holds.
    TakeBackFile(MkoError),
    /// Put the file away again, as its owner.
    TakeBackLock(MkoError),
    Refused(MkoError),
}

#[verifier::ext_equal]
pub enum CreateStepView {
    CheckQuarantines,
    Open,
    RemoveStale,
    OpenAgain,
    Identify,
    Write,
    Sync,
    CheckAgain,
    Created,
    TakeBackFile(ErrorView),
    TakeBackLock(ErrorView),
    Refused(ErrorView),
}

impl DeepView for CreateStep {
    type V = CreateStepView;

    open spec fn deep_view(&self) -> CreateStepView {
        match self {
            CreateStep::CheckQuarantines => CreateStepView::CheckQuarantines,
            CreateStep::Open => CreateStepView::Open,
            CreateStep::RemoveStale => CreateStepView::RemoveStale,
            CreateStep::OpenAgain => CreateStepView::OpenAgain,
            CreateStep::Identify => CreateStepView::Identify,
            CreateStep::Write => CreateStepView::Write,
            CreateStep::Sync => CreateStepView::Sync,
            CreateStep::CheckAgain => CreateStepView::CheckAgain,
            CreateStep::Created => CreateStepView::Created,
            CreateStep::TakeBackFile(failure) => CreateStepView::TakeBackFile(failure.deep_view()),
            CreateStep::TakeBackLock(failure) => CreateStepView::TakeBackLock(failure.deep_view()),
            CreateStep::Refused(failure) => CreateStepView::Refused(failure.deep_view()),
        }
    }
}

/// How a step went.
#[derive(Clone, Debug, PartialEq, Eq)]
pub enum CreateEvent {
    Done,
    /// The system said that there is such a file.
    AlreadyThere(String),
    Failed(MkoError),
}

#[verifier::ext_equal]
pub enum CreateEventView {
    Done,
    AlreadyThere(Seq<char>),
    Failed(ErrorView),
}

impl DeepView for CreateEvent {
    type V = CreateEventView;

    open spec fn deep_view(&self) -> CreateEventView {
        match self {
            CreateEvent::Done => CreateEventView::Done,
            CreateEvent::AlreadyThere(message) => CreateEventView::AlreadyThere(message@),
            CreateEvent::Failed(failure) => CreateEventView::Failed(failure.deep_view()),
        }
    }
}

/// There is a lock file already.
pub open spec fn lock_exists(kind: LockKind) -> ErrorView {
    error(
        "lock_exists"@,
        if kind == LockKind::Repository {
            "repository mutation lock already exists"@
        } else {
            "asset operation lock already exists"@
        },
    )
}

/// The failure that an event tells.
pub open spec fn failure_of(event: CreateEventView) -> ErrorView {
    match event {
        CreateEventView::Failed(failure) => failure,
        CreateEventView::AlreadyThere(message) => error("lock_write_failed"@, message),
        CreateEventView::Done => error(Seq::empty(), Seq::empty()),
    }
}

/// The step after one that went as told.
pub open spec fn create_step(
    step: CreateStepView,
    kind: LockKind,
    clear_stale: bool,
    event: CreateEventView,
) -> CreateStepView {
    match step {
        CreateStepView::Created => step,
        CreateStepView::Refused(_) => step,
        CreateStepView::TakeBackFile(failure) => CreateStepView::Refused(failure),
        CreateStepView::TakeBackLock(failure) => CreateStepView::Refused(failure),
        _ => if event is Done {
            match step {
                CreateStepView::CheckQuarantines => CreateStepView::Open,
                CreateStepView::Open => CreateStepView::Identify,
                CreateStepView::RemoveStale => CreateStepView::OpenAgain,
                CreateStepView::OpenAgain => CreateStepView::Identify,
                CreateStepView::Identify => CreateStepView::Write,
                CreateStepView::Write => CreateStepView::Sync,
                CreateStepView::Sync => CreateStepView::CheckAgain,
                _ => CreateStepView::Created,
            }
        } else {
            match step {
                CreateStepView::Open => if event is AlreadyThere {
                    if kind != LockKind::Takeover {
                        CreateStepView::Refused(lock_exists(kind))
                    } else if clear_stale {
                        CreateStepView::RemoveStale
                    } else {
                        CreateStepView::Refused(lock_held())
                    }
                } else {
                    CreateStepView::Refused(failure_of(event))
                },
                CreateStepView::Write => CreateStepView::TakeBackFile(failure_of(event)),
                CreateStepView::CheckAgain => CreateStepView::TakeBackLock(failure_of(event)),
                _ => CreateStepView::Refused(failure_of(event)),
            }
        },
    }
}

/// The step at which the making of the file stands after the first `n` events.
pub open spec fn creating(
    kind: LockKind,
    clear_stale: bool,
    events: Seq<CreateEventView>,
    n: int,
) -> CreateStepView
    decreases n,
{
    if n <= 0 {
        CreateStepView::CheckQuarantines
    } else {
        create_step(creating(kind, clear_stale, events, n - 1), kind, clear_stale, events[n - 1])
    }
}

fn failure_in(event: CreateEvent) -> (failure: MkoError)
    requires
        !(event is Done),
    ensures
        failure.deep_view() == failure_of(event.deep_view()),
{
    match event {
        CreateEvent::Failed(failure) => failure,
        CreateEvent::AlreadyThere(message) => MkoError::new("lock_write_failed", message.as_str()),
        CreateEvent::Done => MkoError::new("", ""),
    }
}

impl CreateStep {
    pub fn first() -> (step: Self)
        ensures
            forall|kind: LockKind, clear_stale: bool, events: Seq<CreateEventView>|
                step.deep_view() == #[trigger] creating(kind, clear_stale, events, 0),
    {
        CreateStep::CheckQuarantines
    }

    pub fn after(self, kind: LockKind, clear_stale: bool, event: CreateEvent) -> (step: Self)
        ensures
            step.deep_view() == create_step(
                self.deep_view(),
                kind,
                clear_stale,
                event.deep_view(),
            ),
    {
        let well = match &event {
            CreateEvent::Done => true,
            _ => false,
        };
        match self {
            CreateStep::Created => CreateStep::Created,
            CreateStep::Refused(failure) => CreateStep::Refused(failure),
            CreateStep::TakeBackFile(failure) => CreateStep::Refused(failure),
            CreateStep::TakeBackLock(failure) => CreateStep::Refused(failure),
            CreateStep::CheckQuarantines => if well {
                CreateStep::Open
            } else {
                CreateStep::Refused(failure_in(event))
            },
            CreateStep::Open => {
                if well {
                    return CreateStep::Identify;
                }
                let there = match &event {
                    CreateEvent::AlreadyThere(_) => true,
                    _ => false,
                };
                if !there {
                    return CreateStep::Refused(failure_in(event));
                }
                match kind {
                    LockKind::Asset => CreateStep::Refused(
                        MkoError::new("lock_exists", "asset operation lock already exists"),
                    ),
                    LockKind::Repository => CreateStep::Refused(
                        MkoError::new("lock_exists", "repository mutation lock already exists"),
                    ),
                    LockKind::Takeover => if clear_stale {
                        CreateStep::RemoveStale
                    } else {
                        CreateStep::Refused(lock_held_error())
                    },
                }
            },
            CreateStep::RemoveStale => if well {
                CreateStep::OpenAgain
            } else {
                CreateStep::Refused(failure_in(event))
            },
            CreateStep::OpenAgain => if well {
                CreateStep::Identify
            } else {
                CreateStep::Refused(failure_in(event))
            },
            CreateStep::Identify => if well {
                CreateStep::Write
            } else {
                CreateStep::Refused(failure_in(event))
            },
            CreateStep::Write => if well {
                CreateStep::Sync
            } else {
                CreateStep::TakeBackFile(failure_in(event))
            },
            CreateStep::Sync => if well {
                CreateStep::CheckAgain
            } else {
                CreateStep::Refused(failure_in(event))
            },
            CreateStep::CheckAgain => if well {
                CreateStep::Created
            } else {
                CreateStep::TakeBackLock(failure_in(event))
            },
        }
    }
}

/// A lock or a guard is made or refused after nine steps at most.
pub proof fn creating_ends(kind: LockKind, clear_stale: bool, events: Seq<CreateEventView>)
    ensures
        creating(kind, clear_stale, events, 9) is Created || creating(kind, clear_stale, events, 9)
            is Refused,
{
    reveal_with_fuel(creating, 10);
}

/// The file of a lock is kept only where no quarantine of it stood before it was opened, the
/// file was new, and none stood after it was written.
pub proof fn made_locks_stand_alone(
    kind: LockKind,
    clear_stale: bool,
    events: Seq<CreateEventView>,
    n: int,
)
    requires
        creating(kind, clear_stale, events, n) is Created,
    ensures
        events[0] is Done,
        exists|k: int|
            0 <= k < n && (#[trigger] creating(kind, clear_stale, events, k) is Open || creating(
                kind,
                clear_stale,
                events,
                k,
            ) is OpenAgain) && events[k] is Done,
        exists|k: int|
            0 <= k < n && #[trigger] creating(kind, clear_stale, events, k) is CheckAgain
                && events[k] is Done,
    decreases n,
{
    reveal_with_fuel(creating, 2);
    if creating(kind, clear_stale, events, n - 1) is Created {
        made_locks_stand_alone(kind, clear_stale, events, n - 1);
        let opened = choose|k: int|
            0 <= k < n - 1 && (#[trigger] creating(kind, clear_stale, events, k) is Open
                || creating(kind, clear_stale, events, k) is OpenAgain) && events[k] is Done;
        assert(0 <= opened < n);
        let checked = choose|k: int|
            0 <= k < n - 1 && #[trigger] creating(kind, clear_stale, events, k) is CheckAgain
                && events[k] is Done;
        assert(0 <= checked < n);
    } else {
        assert(creating(kind, clear_stale, events, n - 1) is CheckAgain);
        assert(creating(kind, clear_stale, events, n - 2) is Sync);
        assert(creating(kind, clear_stale, events, n - 3) is Write);
        assert(creating(kind, clear_stale, events, n - 4) is Identify);
        assert(creating(kind, clear_stale, events, n - 5) is Open || creating(
            kind,
            clear_stale,
            events,
            n - 5,
        ) is OpenAgain);
        assert(n - 5 >= 0 && events[n - 5] is Done);
        began_with_the_check(kind, clear_stale, events, n - 1);
    }
}

proof fn began_with_the_check(
    kind: LockKind,
    clear_stale: bool,
    events: Seq<CreateEventView>,
    n: int,
)
    requires
        n > 0,
        !(creating(kind, clear_stale, events, n) is Refused),
        !(creating(kind, clear_stale, events, n) is TakeBackFile),
        !(creating(kind, clear_stale, events, n) is TakeBackLock),
    ensures
        events[0] is Done,
    decreases n,
{
    reveal_with_fuel(creating, 2);
    if n > 1 {
        began_with_the_check(kind, clear_stale, events, n - 1);
    }
}

/// A lock whose owner may still work is never cleared: neither the lock itself, whatever is
/// asked, nor its quarantine.
pub proof fn working_owners_keep_their_locks(
    record: LockRecordView,
    witness: LockWitnessView,
    filename: Seq<char>,
    identity: FileIdentity,
    told: Seq<char>,
    asset_id: Seq<char>,
    fresh: Seq<char>,
    found: Seq<AssetQuarantineView>,
    at: int,
    clear_stale: bool,
)
    requires
        !is_stale(record, witness),
        0 <= at < found.len(),
        found[at].record == Some(record),
        found[at].owner == OwnerSightView::Seen(witness),
        is_rightful(found[at], asset_id),
    ensures
        stale_removal(
            filename,
            LockReadingView::Read { record: Some(record), identity },
            told,
            asset_id,
            OwnerSightView::Seen(witness),
            fresh,
        ) == Err::<Seq<char>, ErrorView>(lock_held()),
        quarantines_resolvable(found, asset_id, clear_stale, 0) is Err,
{
    resolving_stops_at(found, asset_id, clear_stale, 0, at);
}

proof fn resolving_stops_at(
    found: Seq<AssetQuarantineView>,
    asset_id: Seq<char>,
    clear_stale: bool,
    n: int,
    at: int,
)
    requires
        0 <= n <= at < found.len(),
        is_rightful(found[at], asset_id),
        staleness(found[at].record->0, found[at].owner) == Ok::<bool, ErrorView>(false),
    ensures
        quarantines_resolvable(found, asset_id, clear_stale, n) is Err,
    decreases at - n,
{
    if n < at {
        resolving_stops_at(found, asset_id, clear_stale, n + 1, at);
    }
}

/// What is removed when a lock is given up is the file that the owner made, with the
/// owner's token in it; the quarantine in which that file stood was the owner's by its name.
pub proof fn only_the_own_lock_is_removed(
    lock: AssetLockView,
    reading: LockReadingView,
    fresh: Seq<char>,
    pid: u32,
    count: u64,
    secret: Seq<char>,
)
    requires
        is_secret(secret),
        lock.owner_token == owner_token(pid, count, secret),
        is_owned(lock.identity, Some(lock.owner_token), reading),
    ensures
        reading matches LockReadingView::Read { record: Some(record), identity } && {
            &&& identity == lock.identity
            &&& record.owner_token == lock.owner_token
            &&& is_authentic(
                quarantine_name(lock.filename, cleanup_secret(Some(lock.owner_token), fresh)),
                record,
            )
        },
{
    made_tokens_hold_their_secret(pid, count, secret);
    quarantine_names_read_back(lock.filename, secret);
}

} // verus!

//! Registering PDFs: one by one, or all that wait in the inbox.

use crate::catalog::{CatalogItem, CatalogItemView};
use crate::context::ResolvedPersonalContext;
use crate::error::{error, outcome, verdict, ErrorView, MkoError};
use crate::fingerprint::{
    asset_id_of, has_same_content, same_content, same_fingerprint, same_snapshot, FileSnapshot,
    FileSnapshotView,
};
use crate::inbox::{is_listed, lists, InboxScanResult, InboxScanResultView};
use crate::json_v1::{
    AddOutcome, DiagnosticData, DiagnosticDataView, ImportOutcome, JsonV1Error, JsonV1ErrorView,
    NextAction, Recovery, RecoveryKind, UserState,
};
use crate::model::{AssetRecord, AssetRecordView, Fingerprint, FingerprintView};
use crate::order::{
    reversed_of, sort, sorting_keeps_items, sorting_orders, stable_sort, text_total,
    text_transitive, Ranked,
};
use crate::path_policy::{
    all_utf8, find_matching_names, matching_names, portable_path, validate_portable_relative_path,
};
use crate::paths::{
    ascii_lowered, extension_of, file_name, file_name_of, lowered_ascii, name_extension, name_stem,
};
use crate::provider_scan::{ProviderPdf, ProviderPdfView, ProviderScanWarning};
use crate::text::{
    after_prefix, cat3, cat4, cat5, copy_option, decimal, decimal_digits, join, join_texts,
    not_after, same, strip_prefix, text_at_most,
};
use crate::unicode::{nfc, to_nfc};
use vstd::prelude::*;

verus! {

/// What a person says about the second copy of a PDF.
#[derive(Clone, Copy, Debug, PartialEq, Eq, Structural)]
pub enum BackupAttestation {
    OutsideOriginalRetained,
    UserVerified,
}

/// What to add.
#[derive(Clone, Debug, PartialEq, Eq)]
pub enum AddInput {
    File(String),
    InboxScan,
}

/// A request to register PDFs.
#[derive(Clone, Debug)]
pub struct AddRequest {
    pub context: ResolvedPersonalContext,
    pub input: AddInput,
    pub backup_attestation: BackupAttestation,
    pub temporary_source: bool,
}

impl AddRequest {
    pub fn new(context: ResolvedPersonalContext, input: AddInput) -> (request: Self)
        ensures
            request == (AddRequest {
                context,
                input,
                backup_attestation: BackupAttestation::OutsideOriginalRetained,
                temporary_source: false,
            }),
    {
        AddRequest {
            context,
            input,
            backup_attestation: BackupAttestation::OutsideOriginalRetained,
            temporary_source: false,
        }
    }

    pub fn with_backup_attestation(self, attestation: BackupAttestation) -> (request: Self)
        ensures
            request == (AddRequest { backup_attestation: attestation, ..self }),
    {
        AddRequest { backup_attestation: attestation, ..self }
    }

    pub fn with_temporary_source(self, temporary_source: bool) -> (request: Self)
        ensures
            request == (AddRequest { temporary_source, ..self }),
    {
        AddRequest { temporary_source, ..self }
    }
}

/// A PDF that was registered, or had been.
#[derive(Clone, Debug, PartialEq, Eq)]
pub struct AddResult {
    pub add_outcome: AddOutcome,
    pub import_outcome: ImportOutcome,
    pub repository: String,
    pub asset_id: String,
    pub registry_path: String,
    pub provider_locator: String,
}

#[verifier::ext_equal]
pub struct AddResultView {
    pub add_outcome: AddOutcome,
    pub import_outcome: ImportOutcome,
    pub repository: Seq<char>,
    pub asset_id: Seq<char>,
    pub registry_path: Seq<char>,
    pub provider_locator: Seq<char>,
}

impl DeepView for AddResult {
    type V = AddResultView;

    open spec fn deep_view(&self) -> AddResultView {
        AddResultView {
            add_outcome: self.add_outcome,
            import_outcome: self.import_outcome,
            repository: self.repository@,
            asset_id: self.asset_id@,
            registry_path: self.registry_path@,
            provider_locator: self.provider_locator@,
        }
    }
}

/// What became of one inbox item.
#[derive(Clone, Debug, PartialEq, Eq)]
pub struct BatchItemResult {
    pub provider_locator: String,
    pub user_state: UserState,
    pub next_action: NextAction,
    pub asset_id: Option<String>,
    pub add_outcome: Option<AddOutcome>,
    pub error: Option<JsonV1Error>,
}

#[verifier::ext_equal]
pub struct BatchItemResultView {
    pub provider_locator: Seq<char>,
    pub user_state: UserState,
    pub next_action: NextAction,
    pub asset_id: Option<Seq<char>>,
    pub add_outcome: Option<AddOutcome>,
    pub error: Option<JsonV1ErrorView>,
}

impl DeepView for BatchItemResult {
    type V = BatchItemResultView;

    open spec fn deep_view(&self) -> BatchItemResultView {
        BatchItemResultView {
            provider_locator: self.provider_locator@,
            user_state: self.user_state,
            next_action: self.next_action,
            asset_id: self.asset_id.deep_view(),
            add_outcome: self.add_outcome,
            error: self.error.deep_view(),
        }
    }
}

/// What became of the inbox.
#[derive(Clone, Debug, PartialEq, Eq)]
pub struct BatchAddResult {
    pub scan_complete: bool,
    pub items: Vec<BatchItemResult>,
    pub remaining: u64,
}

#[verifier::ext_equal]
pub struct BatchAddResultView {
    pub scan_complete: bool,
    pub items: Seq<BatchItemResultView>,
    pub remaining: u64,
}

impl DeepView for BatchAddResult {
    type V = BatchAddResultView;

    open spec fn deep_view(&self) -> BatchAddResultView {
        BatchAddResultView {
            scan_complete: self.scan_complete,
            items: self.items.deep_view(),
            remaining: self.remaining,
        }
    }
}

/// An inbox item before it is worked on.
#[derive(Clone, Debug, PartialEq, Eq)]
pub struct BatchItemSeed {
    pub provider_locator: String,
    pub user_state: UserState,
    pub next_action: NextAction,
    pub asset_id: Option<String>,
    pub diagnostic: Option<DiagnosticData>,
}

#[verifier::ext_equal]
pub struct BatchItemSeedView {
    pub provider_locator: Seq<char>,
    pub user_state: UserState,
    pub next_action: NextAction,
    pub asset_id: Option<Seq<char>>,
    pub diagnostic: Option<DiagnosticDataView>,
}

impl DeepView for BatchItemSeed {
    type V = BatchItemSeedView;

    open spec fn deep_view(&self) -> BatchItemSeedView {
        BatchItemSeedView {
            provider_locator: self.provider_locator@,
            user_state: self.user_state,
            next_action: self.next_action,
            asset_id: self.asset_id.deep_view(),
            diagnostic: self.diagnostic.deep_view(),
        }
    }
}

#[derive(Clone, Debug, PartialEq, Eq)]
pub enum AddRunResult {
    Single(AddResult),
    Batch(BatchAddResult),
}

#[verifier::ext_equal]
pub enum AddRunResultView {
    Single(AddResultView),
    Batch(BatchAddResultView),
}

impl DeepView for AddRunResult {
    type V = AddRunResultView;

    open spec fn deep_view(&self) -> AddRunResultView {
        match self {
            AddRunResult::Single(result) => AddRunResultView::Single(result.deep_view()),
            AddRunResult::Batch(result) => AddRunResultView::Batch(result.deep_view()),
        }
    }
}

/// What is run for a request: the add of one file, or that of the whole inbox.
#[derive(Clone, Debug, PartialEq, Eq)]
pub enum AddAction {
    AddFile { source: String },
    AddInbox,
}

/// What came of the add that was run.
#[derive(Debug)]
pub enum AddAnswer {
    File(Result<AddResult, MkoError>),
    Inbox(Result<BatchAddResult, MkoError>),
}

/// The answer is one to what is run for the input.
pub open spec fn answers(input: AddInput, answer: AddAnswer) -> bool {
    match input {
        AddInput::File(_) => answer is File,
        AddInput::InboxScan => answer is Inbox,
    }
}

/// What is run for an input: a file is added alone, a scan adds the inbox.
pub fn add_action(input: &AddInput) -> (action: AddAction)
    ensures
        match *input {
            AddInput::File(path) => action matches AddAction::AddFile { source } && source@
                == path@,
            AddInput::InboxScan => action == AddAction::AddInbox,
        },
{
    match input {
        AddInput::File(path) => AddAction::AddFile { source: path.clone() },
        AddInput::InboxScan => AddAction::AddInbox,
    }
}

/// What an add reports, from what came of what is run for its input: one result for a file,
/// a batch for a scan, and the error of either.
pub fn add(input: &AddInput, answer: AddAnswer) -> (result: Result<AddRunResult, MkoError>)
    requires
        answers(*input, answer),
    ensures
        outcome(result) == (match answer {
            AddAnswer::File(Ok(added)) => Ok(AddRunResultView::Single(added.deep_view())),
            AddAnswer::Inbox(Ok(batch)) => Ok(AddRunResultView::Batch(batch.deep_view())),
            AddAnswer::File(Err(failure)) => Err(failure.deep_view()),
            AddAnswer::Inbox(Err(failure)) => Err(failure.deep_view()),
        }),
        *input is File ==> (result matches Ok(run) ==> run is Single),
        *input is InboxScan ==> (result matches Ok(run) ==> run is Batch),
{
    match answer {
        AddAnswer::File(Ok(added)) => Ok(AddRunResult::Single(added)),
        AddAnswer::Inbox(Ok(batch)) => Ok(AddRunResult::Batch(batch)),
        AddAnswer::File(Err(failure)) => Err(failure),
        AddAnswer::Inbox(Err(failure)) => Err(failure),
    }
}

/// The error that asks for a second copy.
pub open spec fn backup_required() -> ErrorView {
    error(
        "backup_confirmation_required"@,
        "confirm a verified second copy before registering an only-copy or temporary PDF"@,
    )
}

fn backup_confirmation_required() -> (failure: MkoError)
    ensures
        failure.deep_view() == backup_required(),
{
    MkoError::new(
        "backup_confirmation_required",
        "confirm a verified second copy before registering an only-copy or temporary PDF",
    )
}

impl Ranked for BatchItemSeed {
    /// By the normalized place in the inbox.
    open spec fn leq(left: BatchItemSeedView, right: BatchItemSeedView) -> bool {
        text_at_most(nfc(left.provider_locator), nfc(right.provider_locator))
    }

    proof fn leq_total(left: BatchItemSeedView, right: BatchItemSeedView) {
        text_total(nfc(left.provider_locator), nfc(right.provider_locator));
    }

    proof fn leq_transitive(a: BatchItemSeedView, b: BatchItemSeedView, c: BatchItemSeedView) {
        text_transitive(
            nfc(a.provider_locator),
            nfc(b.provider_locator),
            nfc(c.provider_locator),
        );
    }

    fn ranks_at_most(&self, other: &Self) -> (result: bool) {
        let left = to_nfc(self.provider_locator.as_str());
        let right = to_nfc(other.provider_locator.as_str());
        not_after(left.as_str(), right.as_str())
    }
}

/// An item that this run can carry forward.
pub open spec fn is_executable(action: NextAction) -> bool {
    action == NextAction::Add || action == NextAction::Prepare || action == NextAction::WriteDraft
}

/// At most the first `limit` of the items.
pub open spec fn first<V>(items: Seq<V>, limit: nat) -> Seq<V> {
    if items.len() <= limit {
        items
    } else {
        items.take(limit as int)
    }
}

/// The items that can be carried forward, in their order.
pub open spec fn executable_seeds(seeds: Seq<BatchItemSeedView>) -> Seq<BatchItemSeedView>
    decreases seeds.len(),
{
    if seeds.len() == 0 {
        Seq::empty()
    } else if is_executable(seeds.last().next_action) {
        executable_seeds(seeds.drop_last()).push(seeds.last())
    } else {
        executable_seeds(seeds.drop_last())
    }
}

/// The items that can only be shown, in their order.
pub open spec fn display_seeds(seeds: Seq<BatchItemSeedView>) -> Seq<BatchItemSeedView>
    decreases seeds.len(),
{
    if seeds.len() == 0 {
        Seq::empty()
    } else if is_executable(seeds.last().next_action) {
        display_seeds(seeds.drop_last())
    } else {
        display_seeds(seeds.drop_last()).push(seeds.last())
    }
}

/// The items that one run takes on: those that can be carried forward first, each kind by
/// its normalized place in the inbox, and what is left of the limit for those that can
/// only be shown; together again by their place.
pub open spec fn selected_seeds(seeds: Seq<BatchItemSeedView>, limit: nat) -> Seq<BatchItemSeedView> {
    let executable = first(stable_sort::<BatchItemSeed>(executable_seeds(seeds)), limit);
    let display = first(
        stable_sort::<BatchItemSeed>(display_seeds(seeds)),
        (limit - executable.len()) as nat,
    );
    stable_sort::<BatchItemSeed>(executable + display)
}

fn keep_first<T: DeepView>(items: &mut Vec<T>, limit: usize)
    ensures
        final(items).deep_view() == first(old(items).deep_view(), limit as nat),
{
    let ghost all = items.deep_view();
    if items.len() > limit {
        items.truncate(limit);
        assert(items.deep_view() == all.take(limit as int));
    }
}

pub fn select_batch_seeds(seeds: Vec<BatchItemSeed>, limit: usize) -> (selected: Vec<BatchItemSeed>)
    ensures
        selected.deep_view() == selected_seeds(seeds.deep_view(), limit as nat),
{
    let ghost all = seeds.deep_view();
    let mut rest = seeds;
    let mut reversed: Vec<BatchItemSeed> = Vec::new();
    reversed_of(&mut rest, &mut reversed);
    let mut executable: Vec<BatchItemSeed> = Vec::new();
    let mut display_only: Vec<BatchItemSeed> = Vec::new();
    let ghost mut done: int = 0;
    proof {
        assert(executable.deep_view() == Seq::<BatchItemSeedView>::empty());
        assert(display_only.deep_view() == Seq::<BatchItemSeedView>::empty());
    }
    while reversed.len() > 0
        invariant
            0 <= done <= all.len(),
            reversed.deep_view().reverse() == all.skip(done),
            executable.deep_view() == executable_seeds(all.take(done)),
            display_only.deep_view() == display_seeds(all.take(done)),
        decreases reversed.len(),
    {
        let ghost held = reversed.deep_view();
        match reversed.pop() {
            Some(seed) => {
                let ghost before = executable.deep_view();
                let ghost shown = display_only.deep_view();
                proof {
                    assert(held.reverse()[0] == seed.deep_view());
                    assert(reversed.deep_view().reverse() == held.reverse().skip(1));
                    assert(all.skip(done).skip(1) == all.skip(done + 1));
                    assert(all.take(done + 1).drop_last() == all.take(done));
                    assert(all.take(done + 1).last() == seed.deep_view());
                }
                if matches!(
                    seed.next_action,
                    NextAction::Add | NextAction::Prepare | NextAction::WriteDraft
                ) {
                    executable.push(seed);
                    assert(executable.deep_view() == before.push(seed.deep_view()));
                } else {
                    display_only.push(seed);
                    assert(display_only.deep_view() == shown.push(seed.deep_view()));
                }
                proof {
                    done = done + 1;
                }
            },
            None => {},
        }
    }
    assert(all.take(done) == all);
    let mut executable = sort(executable);
    let mut display_only = sort(display_only);
    keep_first(&mut executable, limit);
    assert(executable.deep_view().len() <= limit);
    let display_slots: usize = limit - executable.len();
    keep_first(&mut display_only, display_slots);
    let ghost front = executable.deep_view();
    let ghost back = display_only.deep_view();
    executable.append(&mut display_only);
    assert(executable.deep_view() == front + back);
    sort(executable)
}

proof fn partition_lengths(seeds: Seq<BatchItemSeedView>)
    ensures
        executable_seeds(seeds).len() + display_seeds(seeds).len() == seeds.len(),
    decreases seeds.len(),
{
    if seeds.len() > 0 {
        partition_lengths(seeds.drop_last());
    }
}

/// One run takes on as many items as the limit allows, and no more.
pub proof fn selection_fills_the_limit(seeds: Seq<BatchItemSeedView>, limit: nat)
    ensures
        selected_seeds(seeds, limit).len() == if seeds.len() <= limit {
            seeds.len()
        } else {
            limit
        },
{
    partition_lengths(seeds);
    sorting_keeps_items::<BatchItemSeed>(executable_seeds(seeds));
    sorting_keeps_items::<BatchItemSeed>(display_seeds(seeds));
    let executable = first(stable_sort::<BatchItemSeed>(executable_seeds(seeds)), limit);
    let display = first(
        stable_sort::<BatchItemSeed>(display_seeds(seeds)),
        (limit - executable.len()) as nat,
    );
    sorting_keeps_items::<BatchItemSeed>(executable + display);
}

/// What one run takes on stands in the order of the normalized places.
pub proof fn selection_is_ordered(seeds: Seq<BatchItemSeedView>, limit: nat)
    ensures
        crate::order::is_ordered::<BatchItemSeed>(selected_seeds(seeds, limit)),
{
    let executable = first(stable_sort::<BatchItemSeed>(executable_seeds(seeds)), limit);
    let display = first(
        stable_sort::<BatchItemSeed>(display_seeds(seeds)),
        (limit - executable.len()) as nat,
    );
    sorting_orders::<BatchItemSeed>(executable + display);
}

/// An item that can only be shown is taken on only when every item that can be carried
/// forward is.
pub proof fn work_comes_before_display(seeds: Seq<BatchItemSeedView>, limit: nat)
    requires
        executable_seeds(seeds).len() >= limit,
    ensures
        selected_seeds(seeds, limit).to_multiset() == first(
            stable_sort::<BatchItemSeed>(executable_seeds(seeds)),
            limit,
        ).to_multiset(),
{
    sorting_keeps_items::<BatchItemSeed>(executable_seeds(seeds));
    let executable = first(stable_sort::<BatchItemSeed>(executable_seeds(seeds)), limit);
    let display = first(
        stable_sort::<BatchItemSeed>(display_seeds(seeds)),
        (limit - executable.len()) as nat,
    );
    assert(display.len() == 0);
    assert(executable + display == executable);
    sorting_keeps_items::<BatchItemSeed>(executable);
}

/// A limit that covers every item selects the same items as any larger one.
proof fn covering_limits_agree(seeds: Seq<BatchItemSeedView>, a: nat, b: nat)
    requires
        seeds.len() <= a,
        seeds.len() <= b,
    ensures
        selected_seeds(seeds, a) == selected_seeds(seeds, b),
{
    partition_lengths(seeds);
    sorting_keeps_items::<BatchItemSeed>(executable_seeds(seeds));
    sorting_keeps_items::<BatchItemSeed>(display_seeds(seeds));
}

/// The rank of an action in the output.
pub open spec fn output_priority(action: NextAction) -> u8 {
    match action {
        NextAction::Add => 0,
        NextAction::Prepare => 1,
        NextAction::WriteDraft => 2,
        NextAction::Review => 3,
        NextAction::Repair => 4,
        NextAction::Hydrate => 5,
        NextAction::Retry => 6,
        NextAction::Configure => 7,
        NextAction::Nothing => 8,
    }
}

fn batch_output_priority(action: NextAction) -> (priority: u8)
    ensures
        priority == output_priority(action),
{
    match action {
        NextAction::Add => 0,
        NextAction::Prepare => 1,
        NextAction::WriteDraft => 2,
        NextAction::Review => 3,
        NextAction::Repair => 4,
        NextAction::Hydrate => 5,
        NextAction::Retry => 6,
        NextAction::Configure => 7,
        NextAction::Nothing => 8,
    }
}

/// A finding about one file of the inbox that keeps the file from being read.
pub open spec fn is_item_diagnostic(diagnostic: DiagnosticDataView) -> bool {
    diagnostic.path is Some && (diagnostic.code == "invalid_pdf"@ || diagnostic.code
        == "pdf_too_large"@ || diagnostic.code == "scan_file_unreadable"@)
}

fn provider_item_diagnostic(diagnostic: &DiagnosticData) -> (result: bool)
    ensures
        result == is_item_diagnostic(diagnostic.deep_view()),
{
    let code = diagnostic.code.as_str();
    diagnostic.path.is_some() && (same(code, "invalid_pdf") || same(code, "pdf_too_large") || same(
        code,
        "scan_file_unreadable",
    ))
}

/// The action that helps against a finding.
pub open spec fn recovery_action(code: Seq<char>) -> NextAction {
    if code == "provider_missing"@ {
        NextAction::Hydrate
    } else if code == "lock_active"@ || code == "lock_scan_incomplete"@ || code
        == "provider_scan_incomplete"@ || code == "scan_file_unreadable"@ {
        NextAction::Retry
    } else {
        NextAction::Repair
    }
}

fn recovery_action_for_code(code: &str) -> (action: NextAction)
    ensures
        action == recovery_action(code@),
{
    if same(code, "provider_missing") {
        NextAction::Hydrate
    } else if same(code, "lock_active") || same(code, "lock_scan_incomplete") || same(
        code,
        "provider_scan_incomplete",
    ) || same(code, "scan_file_unreadable") {
        NextAction::Retry
    } else {
        NextAction::Repair
    }
}

/// The kind of help that a failure needs, where there is one.
pub open spec fn recovery(code: Seq<char>) -> Option<Recovery> {
    if code == "provider_missing"@ || code == "provider_hydration_failed"@ || code
        == "provider_not_hydrated"@ {
        Some(Recovery { kind: RecoveryKind::Hydrate })
    } else if code == "backup_confirmation_required"@ {
        Some(Recovery { kind: RecoveryKind::VerifyBackup })
    } else if code == "lock_active"@ || code == "lock_scan_incomplete"@ || code
        == "provider_scan_incomplete"@ || code == "provider_import_locked"@ || code
        == "registry_locked"@ || code == "lock_held"@ || code == "fingerprint_changed"@ || code
        == "file_unreadable"@ || code == "scan_file_unreadable"@ {
        Some(Recovery { kind: RecoveryKind::Retry })
    } else if code == "invalid_pdf"@ || code == "pdf_too_large"@ || code
        == "registry_provider_missing"@ || code == "registry_provider_mismatch"@ || code
        == "source_state_mismatch"@ || code == "lineage_repair_needed"@ || code
        == "repository_state_inconsistent"@ {
        Some(Recovery { kind: RecoveryKind::Repair })
    } else {
        None
    }
}

fn recovery_for_code(code: &str) -> (result: Option<Recovery>)
    ensures
        result == recovery(code@),
{
    if same(code, "provider_missing") || same(code, "provider_hydration_failed") || same(
        code,
        "provider_not_hydrated",
    ) {
        Some(Recovery { kind: RecoveryKind::Hydrate })
    } else if same(code, "backup_confirmation_required") {
        Some(Recovery { kind: RecoveryKind::VerifyBackup })
    } else if same(code, "lock_active") || same(code, "lock_scan_incomplete") || same(
        code,
        "provider_scan_incomplete",
    ) || same(code, "provider_import_locked") || same(code, "registry_locked") || same(
        code,
        "lock_held",
    ) || same(code, "fingerprint_changed") || same(code, "file_unreadable") || same(
        code,
        "scan_file_unreadable",
    ) {
        Some(Recovery { kind: RecoveryKind::Retry })
    } else if same(code, "invalid_pdf") || same(code, "pdf_too_large") || same(
        code,
        "registry_provider_missing",
    ) || same(code, "registry_provider_mismatch") || same(code, "source_state_mismatch") || same(
        code,
        "lineage_repair_needed",
    ) || same(code, "repository_state_inconsistent") {
        Some(Recovery { kind: RecoveryKind::Repair })
    } else {
        None
    }
}

/// The fixed message that a failure is reported with: nothing of the inside of the
/// program, and no path, is shown.
pub open spec fn reviewed_message(code: Seq<char>) -> Seq<char> {
    if code == "invalid_pdf"@ {
        "The PDF could not be validated."@
    } else if code == "pdf_too_large"@ {
        "The PDF exceeds the supported processing limit."@
    } else if code == "scan_file_unreadable"@ || code == "file_unreadable"@ {
        "The inbox PDF could not be reopened safely; retry after it is available."@
    } else if code == "fingerprint_changed"@ {
        "The inbox PDF changed during processing; retry the scan."@
    } else if code == "provider_scan_incomplete"@ {
        "The inbox scan was incomplete; retry after resolving its blockers."@
    } else if code == "backup_confirmation_required"@ {
        "confirm a verified second copy before registering an only-copy or temporary PDF"@
    } else if code == "provider_missing"@ || code == "provider_hydration_failed"@ || code
        == "provider_not_hydrated"@ {
        "The inbox PDF is not locally readable; hydrate it and retry."@
    } else if code == "lock_active"@ || code == "lock_scan_incomplete"@ || code
        == "provider_import_locked"@ || code == "registry_locked"@ || code == "lock_held"@ {
        "The inbox item is currently locked; retry after the other operation finishes."@
    } else if code == "registry_provider_missing"@ || code == "registry_provider_mismatch"@ || code
        == "source_state_mismatch"@ || code == "lineage_repair_needed"@ || code
        == "repository_state_inconsistent"@ {
        "The inbox item conflicts with repository state and requires repair."@
    } else {
        "The inbox item could not be processed safely."@
    }
}

/// A failure as the batch reports it.
pub open spec fn reviewed_error(code: Seq<char>) -> JsonV1ErrorView {
    JsonV1ErrorView { code, message: reviewed_message(code), recovery: recovery(code) }
}

fn reviewed_batch_error(code: &str) -> (result: JsonV1Error)
    ensures
        result.deep_view() == reviewed_error(code@),
{
    let message = if same(code, "invalid_pdf") {
        "The PDF could not be validated."
    } else if same(code, "pdf_too_large") {
        "The PDF exceeds the supported processing limit."
    } else if same(code, "scan_file_unreadable") || same(code, "file_unreadable") {
        "The inbox PDF could not be reopened safely; retry after it is available."
    } else if same(code, "fingerprint_changed") {
        "The inbox PDF changed during processing; retry the scan."
    } else if same(code, "provider_scan_incomplete") {
        "The inbox scan was incomplete; retry after resolving its blockers."
    } else if same(code, "backup_confirmation_required") {
        "confirm a verified second copy before registering an only-copy or temporary PDF"
    } else if same(code, "provider_missing") || same(code, "provider_hydration_failed") || same(
        code,
        "provider_not_hydrated",
    ) {
        "The inbox PDF is not locally readable; hydrate it and retry."
    } else if same(code, "lock_active") || same(code, "lock_scan_incomplete") || same(
        code,
        "provider_import_locked",
    ) || same(code, "registry_locked") || same(code, "lock_held") {
        "The inbox item is currently locked; retry after the other operation finishes."
    } else if same(code, "registry_provider_missing") || same(code, "registry_provider_mismatch")
        || same(code, "source_state_mismatch") || same(code, "lineage_repair_needed") || same(
        code,
        "repository_state_inconsistent",
    ) {
        "The inbox item conflicts with repository state and requires repair."
    } else {
        "The inbox item could not be processed safely."
    };
    JsonV1Error {
        code: code.to_owned(),
        message: message.to_owned(),
        recovery: recovery_for_code(code),
    }
}

/// The items of a report that are not done, as seeds.
pub open spec fn item_seeds(items: Seq<CatalogItemView>) -> Seq<BatchItemSeedView>
    decreases items.len(),
{
    if items.len() == 0 {
        Seq::empty()
    } else {
        let before = item_seeds(items.drop_last());
        let item = items.last();
        if item.next_action == NextAction::Nothing {
            before
        } else {
            before.push(
                BatchItemSeedView {
                    provider_locator: item.provider_locator,
                    user_state: item.user_state,
                    next_action: item.next_action,
                    asset_id: item.asset_id,
                    diagnostic: item.diagnostic,
                },
            )
        }
    }
}

/// Some seed stands at this place of the inbox.
pub open spec fn has_seed(seeds: Seq<BatchItemSeedView>, locator: Seq<char>) -> bool {
    exists|i: int| 0 <= i < seeds.len() && (#[trigger] seeds[i]).provider_locator == locator
}

/// The seeds with one more for a finding about a file that no seed stands for yet.
pub open spec fn with_diagnostic(
    seeds: Seq<BatchItemSeedView>,
    diagnostic: DiagnosticDataView,
) -> Seq<BatchItemSeedView> {
    if is_item_diagnostic(diagnostic) && portable_path(diagnostic.path->0) is Ok && !has_seed(
        seeds,
        diagnostic.path->0,
    ) {
        seeds.push(
            BatchItemSeedView {
                provider_locator: diagnostic.path->0,
                user_state: UserState::Blocked,
                next_action: recovery_action(diagnostic.code),
                asset_id: None,
                diagnostic: Some(diagnostic),
            },
        )
    } else {
        seeds
    }
}

/// The seeds with those for all findings, one after the other.
pub open spec fn with_diagnostics(
    seeds: Seq<BatchItemSeedView>,
    diagnostics: Seq<DiagnosticDataView>,
) -> Seq<BatchItemSeedView>
    decreases diagnostics.len(),
{
    if diagnostics.len() == 0 {
        seeds
    } else {
        with_diagnostic(with_diagnostics(seeds, diagnostics.drop_last()), diagnostics.last())
    }
}

/// All that a report leaves to do or to show.
pub open spec fn report_seeds(report: InboxScanResultView) -> Seq<BatchItemSeedView> {
    with_diagnostics(item_seeds(report.items), report.warnings + report.errors)
}

fn seeds_of_items(items: Vec<CatalogItem>) -> (seeds: Vec<BatchItemSeed>)
    ensures
        seeds.deep_view() == item_seeds(items.deep_view()),
{
    let ghost all = items.deep_view();
    let mut rest = items;
    let mut reversed: Vec<CatalogItem> = Vec::new();
    reversed_of(&mut rest, &mut reversed);
    let mut seeds: Vec<BatchItemSeed> = Vec::new();
    let ghost mut done: int = 0;
    assert(seeds.deep_view() == Seq::<BatchItemSeedView>::empty());
    while reversed.len() > 0
        invariant
            0 <= done <= all.len(),
            reversed.deep_view().reverse() == all.skip(done),
            seeds.deep_view() == item_seeds(all.take(done)),
        decreases reversed.len(),
    {
        let ghost held = reversed.deep_view();
        match reversed.pop() {
            Some(item) => {
                proof {
                    assert(held.reverse()[0] == item.deep_view());
                    assert(reversed.deep_view().reverse() == held.reverse().skip(1));
                    assert(all.skip(done).skip(1) == all.skip(done + 1));
                    assert(all.take(done + 1).drop_last() == all.take(done));
                    assert(all.take(done + 1).last() == item.deep_view());
                }
                if item.next_action != NextAction::Nothing {
                    let ghost before = seeds.deep_view();
                    let seed = BatchItemSeed {
                        provider_locator: item.provider_locator,
                        user_state: item.user_state,
                        next_action: item.next_action,
                        asset_id: item.asset_id,
                        diagnostic: item.diagnostic,
                    };
                    seeds.push(seed);
                    assert(seeds.deep_view() == before.push(seed.deep_view()));
                }
                proof {
                    done = done + 1;
                }
            },
            None => {},
        }
    }
    assert(all.take(done) == all);
    seeds
}

fn seed_exists(seeds: &Vec<BatchItemSeed>, locator: &str) -> (found: bool)
    ensures
        found == has_seed(seeds.deep_view(), locator@),
{
    let mut i: usize = 0;
    while i < seeds.len()
        invariant
            i <= seeds.len(),
            forall|k: int| 0 <= k < i ==> (#[trigger] seeds@[k]).provider_locator@ != locator@,
        decreases seeds.len() - i,
    {
        if same(seeds[i].provider_locator.as_str(), locator) {
            assert(seeds.deep_view()[i as int].provider_locator == locator@);
            return true;
        }
        i += 1;
    }
    assert forall|k: int| 0 <= k < seeds.len() implies (
    #[trigger] seeds.deep_view()[k]).provider_locator != locator@ by {
        assert(seeds@[k].provider_locator@ != locator@);
    }
    false
}

fn add_diagnostic_seeds(seeds: &mut Vec<BatchItemSeed>, diagnostics: &Vec<DiagnosticData>)
    ensures
        final(seeds).deep_view() == with_diagnostics(
            old(seeds).deep_view(),
            diagnostics.deep_view(),
        ),
{
    let ghost start = seeds.deep_view();
    let ghost all = diagnostics.deep_view();
    let mut i: usize = 0;
    while i < diagnostics.len()
        invariant
            i <= diagnostics.len(),
            all == diagnostics.deep_view(),
            seeds.deep_view() == with_diagnostics(start, all.take(i as int)),
        decreases diagnostics.len() - i,
    {
        let diagnostic = &diagnostics[i];
        assert(all.take(i + 1).drop_last() == all.take(i as int));
        assert(all.take(i + 1).last() == diagnostic.deep_view());
        if provider_item_diagnostic(diagnostic) {
            if let Some(locator) = &diagnostic.path {
                if validate_portable_relative_path(locator.as_str()).is_ok() && !seed_exists(
                    seeds,
                    locator.as_str(),
                ) {
                    let ghost before = seeds.deep_view();
                    let seed = BatchItemSeed {
                        provider_locator: locator.clone(),
                        user_state: UserState::Blocked,
                        next_action: recovery_action_for_code(diagnostic.code.as_str()),
                        asset_id: None,
                        diagnostic: Some(diagnostic.duplicate()),
                    };
                    seeds.push(seed);
                    assert(seeds.deep_view() == before.push(seed.deep_view()));
                }
            }
        }
        i += 1;
    }
    assert(all.take(i as int) == all);
}

proof fn diagnostics_in_two_parts(
    seeds: Seq<BatchItemSeedView>,
    front: Seq<DiagnosticDataView>,
    back: Seq<DiagnosticDataView>,
)
    ensures
        with_diagnostics(with_diagnostics(seeds, front), back) == with_diagnostics(
            seeds,
            front + back,
        ),
    decreases back.len(),
{
    if back.len() == 0 {
        assert(front + back == front);
    } else {
        diagnostics_in_two_parts(seeds, front, back.drop_last());
        assert((front + back).drop_last() == front + back.drop_last());
    }
}

/// A scan of the inbox that is to be acted on.
#[derive(Clone, Debug, PartialEq, Eq)]
pub struct InboxAddScan {
    pub report: InboxScanResult,
    /// Nothing that the scan missed can make a registration wrong.
    pub mutation_safe: bool,
}

/// The items that a run takes on, and what it knows of the rest.
#[derive(Clone, Debug, PartialEq, Eq)]
pub struct BatchPlan {
    pub seeds: Vec<BatchItemSeed>,
    pub left_out: u64,
    pub mutation_safe: bool,
    pub backup_attestation: BackupAttestation,
    pub scan_complete: bool,
    pub remaining: u64,
}

#[verifier::ext_equal]
pub struct BatchPlanView {
    pub seeds: Seq<BatchItemSeedView>,
    pub left_out: u64,
    pub mutation_safe: bool,
    pub backup_attestation: BackupAttestation,
    pub scan_complete: bool,
    pub remaining: u64,
}

impl DeepView for BatchPlan {
    type V = BatchPlanView;

    open spec fn deep_view(&self) -> BatchPlanView {
        BatchPlanView {
            seeds: self.seeds.deep_view(),
            left_out: self.left_out,
            mutation_safe: self.mutation_safe,
            backup_attestation: self.backup_attestation,
            scan_complete: self.scan_complete,
            remaining: self.remaining,
        }
    }
}

/// The plan that a scan gives.
pub open spec fn is_batch_plan(
    plan: BatchPlanView,
    report: InboxScanResultView,
    mutation_safe: bool,
    attestation: BackupAttestation,
) -> bool {
    let seeds = report_seeds(report);
    let chosen = selected_seeds(seeds, report.scan_limits.max_batch_items as nat);
    &&& plan.seeds == chosen
    &&& plan.left_out == seeds.len() - chosen.len()
    &&& plan.mutation_safe == mutation_safe
    &&& plan.backup_attestation == attestation
    &&& plan.scan_complete == report.scan_complete
    &&& plan.remaining == report.remaining
}

/// Chooses what one run takes on.
pub fn plan_inbox_scan(attestation: BackupAttestation, scan: InboxAddScan) -> (plan: BatchPlan)
    ensures
        is_batch_plan(
            plan.deep_view(),
            scan.report.deep_view(),
            scan.mutation_safe,
            attestation,
        ),
{
    let report = scan.report;
    let ghost view = report.deep_view();
    let scan_complete = report.scan_complete;
    let remaining = report.remaining;
    let max_batch_items = report.scan_limits.max_batch_items;
    let mut seeds = seeds_of_items(report.items);
    add_diagnostic_seeds(&mut seeds, &report.warnings);
    add_diagnostic_seeds(&mut seeds, &report.errors);
    proof {
        diagnostics_in_two_parts(item_seeds(view.items), view.warnings, view.errors);
    }
    let ghost all = seeds.deep_view();
    let total: usize = seeds.len();
    let limit: usize = if max_batch_items > usize::MAX as u64 {
        usize::MAX
    } else {
        max_batch_items as usize
    };
    proof {
        selection_fills_the_limit(all, limit as nat);
        if limit < max_batch_items {
            covering_limits_agree(all, limit as nat, max_batch_items as nat);
        }
    }
    let selected = select_batch_seeds(seeds, limit);
    let left_out: u64 = (total - selected.len()) as u64;
    BatchPlan {
        seeds: selected,
        left_out,
        mutation_safe: scan.mutation_safe,
        backup_attestation: attestation,
        scan_complete,
        remaining,
    }
}

/// What came of capturing one discovered PDF.
#[derive(Clone, Debug, PartialEq, Eq)]
pub enum CaptureAnswer {
    Captured { add_outcome: AddOutcome, asset_id: String },
    Refused { failure: MkoError },
    /// The scan has no readable content of the item.
    NoSnapshot,
}

#[verifier::ext_equal]
pub enum CaptureAnswerView {
    Captured { add_outcome: AddOutcome, asset_id: Seq<char> },
    Refused { failure: ErrorView },
    NoSnapshot,
}

impl DeepView for CaptureAnswer {
    type V = CaptureAnswerView;

    open spec fn deep_view(&self) -> CaptureAnswerView {
        match self {
            CaptureAnswer::Captured { add_outcome, asset_id } => CaptureAnswerView::Captured {
                add_outcome: *add_outcome,
                asset_id: asset_id@,
            },
            CaptureAnswer::Refused { failure } => CaptureAnswerView::Refused {
                failure: failure.deep_view(),
            },
            CaptureAnswer::NoSnapshot => CaptureAnswerView::NoSnapshot,
        }
    }
}

/// An item that failed, with its reviewed error.
pub open spec fn failed_item(
    seed: BatchItemSeedView,
    user_state: UserState,
    next_action: NextAction,
    code: Seq<char>,
) -> BatchItemResultView {
    BatchItemResultView {
        provider_locator: seed.provider_locator,
        user_state,
        next_action,
        asset_id: seed.asset_id,
        add_outcome: None,
        error: Some(reviewed_error(code)),
    }
}

/// The seed has to be captured before its result is known.
pub open spec fn needs_capture(
    seed: BatchItemSeedView,
    mutation_safe: bool,
    attestation: BackupAttestation,
) -> bool {
    seed.next_action == NextAction::Add && mutation_safe && attestation
        == BackupAttestation::UserVerified
}

/// What becomes of one item. A new PDF is registered only by a scan that missed nothing,
/// and only with a verified second copy; every other item is reported as it is.
pub open spec fn batch_item(
    seed: BatchItemSeedView,
    mutation_safe: bool,
    attestation: BackupAttestation,
    capture: CaptureAnswerView,
) -> BatchItemResultView {
    if seed.next_action == NextAction::Add && mutation_safe {
        if attestation != BackupAttestation::UserVerified {
            failed_item(seed, seed.user_state, seed.next_action, backup_required().code)
        } else {
            match capture {
                CaptureAnswerView::Captured { add_outcome, asset_id } => BatchItemResultView {
                    provider_locator: seed.provider_locator,
                    user_state: UserState::Registered,
                    next_action: NextAction::Prepare,
                    asset_id: Some(asset_id),
                    add_outcome: Some(add_outcome),
                    error: None,
                },
                CaptureAnswerView::Refused { failure } => failed_item(
                    seed,
                    seed.user_state,
                    seed.next_action,
                    failure.code,
                ),
                CaptureAnswerView::NoSnapshot => failed_item(
                    seed,
                    seed.user_state,
                    seed.next_action,
                    "provider_scan_incomplete"@,
                ),
            }
        }
    } else if seed.next_action == NextAction::Add {
        failed_item(seed, UserState::Blocked, NextAction::Retry, "provider_scan_incomplete"@)
    } else {
        BatchItemResultView {
            provider_locator: seed.provider_locator,
            user_state: seed.user_state,
            next_action: seed.next_action,
            asset_id: seed.asset_id,
            add_outcome: if seed.asset_id is Some && seed.user_state != UserState::Blocked {
                Some(AddOutcome::Existing)
            } else {
                None
            },
            error: match seed.diagnostic {
                Some(diagnostic) => Some(reviewed_error(diagnostic.code)),
                None => None,
            },
        }
    }
}

/// Whether the caller has to capture the item before the batch is finished.
pub fn capture_needed(
    seed: &BatchItemSeed,
    mutation_safe: bool,
    attestation: BackupAttestation,
) -> (needed: bool)
    ensures
        needed == needs_capture(seed.deep_view(), mutation_safe, attestation),
{
    seed.next_action == NextAction::Add && mutation_safe && attestation
        == BackupAttestation::UserVerified
}

fn batch_error_item(
    seed: &BatchItemSeed,
    user_state: UserState,
    next_action: NextAction,
    code: &str,
) -> (item: BatchItemResult)
    ensures
        item.deep_view() == failed_item(seed.deep_view(), user_state, next_action, code@),
{
    BatchItemResult {
        provider_locator: seed.provider_locator.clone(),
        user_state,
        next_action,
        asset_id: copy_option(&seed.asset_id),
        add_outcome: None,
        error: Some(reviewed_batch_error(code)),
    }
}

fn finish_item(
    seed: &BatchItemSeed,
    mutation_safe: bool,
    attestation: BackupAttestation,
    capture: &CaptureAnswer,
) -> (item: BatchItemResult)
    ensures
        item.deep_view() == batch_item(
            seed.deep_view(),
            mutation_safe,
            attestation,
            capture.deep_view(),
        ),
{
    if seed.next_action == NextAction::Add && mutation_safe {
        if attestation != BackupAttestation::UserVerified {
            let failure = backup_confirmation_required();
            return batch_error_item(seed, seed.user_state, seed.next_action, failure.code());
        }
        match capture {
            CaptureAnswer::Captured { add_outcome, asset_id } => BatchItemResult {
                provider_locator: seed.provider_locator.clone(),
                user_state: UserState::Registered,
                next_action: NextAction::Prepare,
                asset_id: Some(asset_id.clone()),
                add_outcome: Some(*add_outcome),
                error: None,
            },
            CaptureAnswer::Refused { failure } => batch_error_item(
                seed,
                seed.user_state,
                seed.next_action,
                failure.code(),
            ),
            CaptureAnswer::NoSnapshot => batch_error_item(
                seed,
                seed.user_state,
                seed.next_action,
                "provider_scan_incomplete",
            ),
        }
    } else if seed.next_action == NextAction::Add {
        batch_error_item(seed, UserState::Blocked, NextAction::Retry, "provider_scan_incomplete")
    } else {
        BatchItemResult {
            provider_locator: seed.provider_locator.clone(),
            user_state: seed.user_state,
            next_action: seed.next_action,
            asset_id: copy_option(&seed.asset_id),
            add_outcome: if seed.asset_id.is_some() && seed.user_state != UserState::Blocked {
                Some(AddOutcome::Existing)
            } else {
                None
            },
            error: match &seed.diagnostic {
                Some(diagnostic) => Some(reviewed_batch_error(diagnostic.code.as_str())),
                None => None,
            },
        }
    }
}

/// A finished item with the rank of the action that it came with.
#[derive(Clone, Debug, PartialEq, Eq)]
pub struct RankedItem {
    pub priority: u8,
    pub item: BatchItemResult,
}

#[verifier::ext_equal]
pub struct RankedItemView {
    pub priority: u8,
    pub item: BatchItemResultView,
}

impl DeepView for RankedItem {
    type V = RankedItemView;

    open spec fn deep_view(&self) -> RankedItemView {
        RankedItemView {
            priority: self.priority,
            item: self.item.deep_view(),
        }
    }
}

impl Ranked for RankedItem {
    /// By priority, then by the normalized place in the inbox.
    open spec fn leq(left: RankedItemView, right: RankedItemView) -> bool {
        if left.priority != right.priority {
            left.priority < right.priority
        } else {
            text_at_most(nfc(left.item.provider_locator), nfc(right.item.provider_locator))
        }
    }

    proof fn leq_total(left: RankedItemView, right: RankedItemView) {
        text_total(nfc(left.item.provider_locator), nfc(right.item.provider_locator));
    }

    proof fn leq_transitive(a: RankedItemView, b: RankedItemView, c: RankedItemView) {
        if a.priority == b.priority && b.priority == c.priority {
            text_transitive(
                nfc(a.item.provider_locator),
                nfc(b.item.provider_locator),
                nfc(c.item.provider_locator),
            );
        }
    }

    fn ranks_at_most(&self, other: &Self) -> (result: bool) {
        if self.priority != other.priority {
            self.priority < other.priority
        } else {
            let left = to_nfc(self.item.provider_locator.as_str());
            let right = to_nfc(other.item.provider_locator.as_str());
            not_after(left.as_str(), right.as_str())
        }
    }
}

/// Every item of the plan with its result and rank, in the order of the plan.
pub open spec fn ranked_items(plan: BatchPlanView, captures: Seq<CaptureAnswerView>) -> Seq<
    RankedItemView,
> {
    Seq::new(
        plan.seeds.len(),
        |i: int|
            RankedItemView {
                priority: output_priority(plan.seeds[i].next_action),
                item: batch_item(
                    plan.seeds[i],
                    plan.mutation_safe,
                    plan.backup_attestation,
                    captures[i],
                ),
            },
    )
}

/// What the batch reports: the results by the rank of the action each item came with,
/// and whether the whole inbox was covered.
pub open spec fn batch_result(plan: BatchPlanView, captures: Seq<CaptureAnswerView>) -> BatchAddResultView {
    BatchAddResultView {
        scan_complete: plan.scan_complete && plan.mutation_safe && plan.left_out == 0,
        items: stable_sort::<RankedItem>(ranked_items(plan, captures)).map_values(
            |ranked: RankedItemView| ranked.item,
        ),
        remaining: if plan.remaining + plan.left_out > u64::MAX {
            u64::MAX
        } else {
            (plan.remaining + plan.left_out) as u64
        },
    }
}

/// Finishes a batch: `captures` holds what came of each item of the plan that had to be
/// captured, and anything for the others.
pub fn apply_inbox_scan(plan: BatchPlan, captures: &Vec<CaptureAnswer>) -> (result: BatchAddResult)
    requires
        captures.len() == plan.seeds.len(),
    ensures
        result.deep_view() == batch_result(plan.deep_view(), captures.deep_view()),
{
    let ghost view = plan.deep_view();
    let ghost answers = captures.deep_view();
    let ghost expected = ranked_items(view, answers);
    let mut ranked: Vec<RankedItem> = Vec::new();
    let mut i: usize = 0;
    assert(ranked.deep_view() == expected.take(0));
    while i < plan.seeds.len()
        invariant
            i <= plan.seeds.len(),
            captures.len() == plan.seeds.len(),
            view == plan.deep_view(),
            answers == captures.deep_view(),
            expected == ranked_items(view, answers),
            ranked.deep_view() == expected.take(i as int),
        decreases plan.seeds.len() - i,
    {
        let seed = &plan.seeds[i];
        assert(view.seeds[i as int] == seed.deep_view());
        assert(answers[i as int] == captures@[i as int].deep_view());
        let ghost before = ranked.deep_view();
        let entry = RankedItem {
            priority: batch_output_priority(seed.next_action),
            item: finish_item(seed, plan.mutation_safe, plan.backup_attestation, &captures[i]),
        };
        ranked.push(entry);
        assert(ranked.deep_view() == before.push(entry.deep_view()));
        assert(expected.take(i + 1) == expected.take(i as int).push(expected[i as int]));
        i += 1;
    }
    assert(expected.take(i as int) == expected);
    let mut sorted = sort(ranked);
    let ghost order = sorted.deep_view();
    let mut reversed: Vec<RankedItem> = Vec::new();
    reversed_of(&mut sorted, &mut reversed);
    let mut items: Vec<BatchItemResult> = Vec::new();
    let ghost plain = order.map_values(|ranked: RankedItemView| ranked.item);
    let ghost mut done: int = 0;
    assert(items.deep_view() == plain.take(0));
    while reversed.len() > 0
        invariant
            0 <= done <= order.len(),
            reversed.deep_view().reverse() == order.skip(done),
            plain == order.map_values(|ranked: RankedItemView| ranked.item),
            items.deep_view() == plain.take(done),
        decreases reversed.len(),
    {
        let ghost held = reversed.deep_view();
        match reversed.pop() {
            Some(entry) => {
                let ghost before = items.deep_view();
                proof {
                    assert(held.reverse()[0] == entry.deep_view());
                    assert(held.reverse() == order.skip(done));
                    assert(held.reverse().len() > 0);
                    assert(order.skip(done).len() == order.len() - done);
                    assert(order.skip(done)[0] == order[done]);
                    assert(reversed.deep_view().reverse() == held.reverse().skip(1));
                    assert(order.skip(done).skip(1) == order.skip(done + 1));
                    assert(plain.take(done + 1) == plain.take(done).push(plain[done]));
                }
                items.push(entry.item);
                assert(items.deep_view() == before.push(entry.item.deep_view()));
                proof {
                    done = done + 1;
                }
            },
            None => {},
        }
    }
    assert(plain.take(done) == plain);
    BatchAddResult {
        scan_complete: plan.scan_complete && plan.mutation_safe && plan.left_out == 0,
        items,
        remaining: plan.remaining.saturating_add(plan.left_out),
    }
}

/// After a scan that may have missed something, no item is registered.
pub proof fn unsafe_scans_register_nothing(
    seed: BatchItemSeedView,
    attestation: BackupAttestation,
    capture: CaptureAnswerView,
)
    requires
        seed.next_action == NextAction::Add,
    ensures
        !needs_capture(seed, false, attestation),
        batch_item(seed, false, attestation, capture) == failed_item(
            seed,
            UserState::Blocked,
            NextAction::Retry,
            "provider_scan_incomplete"@,
        ),
{
}

/// Without a verified second copy no new item is registered, whatever came of its capture.
pub proof fn batches_need_a_backup(
    seed: BatchItemSeedView,
    mutation_safe: bool,
    capture: CaptureAnswerView,
)
    requires
        seed.next_action == NextAction::Add,
    ensures
        batch_item(
            seed,
            mutation_safe,
            BackupAttestation::OutsideOriginalRetained,
            capture,
        ).add_outcome is None,
{
}

/// No message from inside the program reaches the report: the message of an error is
/// fixed by its code.
pub proof fn reported_messages_are_fixed(
    seed: BatchItemSeedView,
    mutation_safe: bool,
    attestation: BackupAttestation,
    capture: CaptureAnswerView,
)
    ensures
        ({
            let item = batch_item(seed, mutation_safe, attestation, capture);
            item.error is Some ==> item.error->0 == reviewed_error(item.error->0.code)
        }),
{
}

/// Where a new item was captured in a safe scan with a verified second copy, its result
/// carries the Asset and the outcome of that capture. The item is registered, is to be
/// prepared next, and has no error.
pub proof fn captured_items_carry_their_asset(
    seed: BatchItemSeedView,
    add_outcome: AddOutcome,
    asset_id: Seq<char>,
)
    requires
        seed.next_action == NextAction::Add,
    ensures
        needs_capture(seed, true, BackupAttestation::UserVerified),
        ({
            let item = batch_item(
                seed,
                true,
                BackupAttestation::UserVerified,
                CaptureAnswerView::Captured { add_outcome, asset_id },
            );
            &&& item.provider_locator == seed.provider_locator
            &&& item.user_state == UserState::Registered
            &&& item.next_action == NextAction::Prepare
            &&& item.asset_id == Some(asset_id)
            &&& item.add_outcome == Some(add_outcome)
            &&& item.error is None
        }),
{
}

/// A new item whose capture was refused, or that has no readable content, stays as it was
/// found: the error has the code of the refusal, and nothing counts as added.
pub proof fn refused_items_stay_as_they_were(seed: BatchItemSeedView, failure: ErrorView)
    requires
        seed.next_action == NextAction::Add,
    ensures
        ({
            let refused = batch_item(
                seed,
                true,
                BackupAttestation::UserVerified,
                CaptureAnswerView::Refused { failure },
            );
            let unread = batch_item(
                seed,
                true,
                BackupAttestation::UserVerified,
                CaptureAnswerView::NoSnapshot,
            );
            &&& refused.provider_locator == seed.provider_locator
            &&& refused.user_state == seed.user_state
            &&& refused.next_action == NextAction::Add
            &&& refused.asset_id == seed.asset_id
            &&& refused.add_outcome is None
            &&& refused.error is Some
            &&& refused.error->0.code == failure.code
            &&& unread.error is Some
            &&& unread.error->0.code == "provider_scan_incomplete"@
            &&& unread == (BatchItemResultView { error: unread.error, ..refused })
        }),
{
}

/// An item that is not new is reported as it was found, whatever the attestation and
/// whether or not the scan missed something; it counts as existing where it has an Asset
/// and is not blocked.
pub proof fn known_items_are_reported_as_found(
    seed: BatchItemSeedView,
    mutation_safe: bool,
    attestation: BackupAttestation,
    capture: CaptureAnswerView,
)
    requires
        seed.next_action != NextAction::Add,
    ensures
        !needs_capture(seed, mutation_safe, attestation),
        ({
            let item = batch_item(seed, mutation_safe, attestation, capture);
            &&& item.provider_locator == seed.provider_locator
            &&& item.user_state == seed.user_state
            &&& item.next_action == seed.next_action
            &&& item.asset_id == seed.asset_id
            &&& item.add_outcome == Some(AddOutcome::Existing) <==> seed.asset_id is Some
                && seed.user_state != UserState::Blocked
            &&& item.add_outcome is Some ==> item.add_outcome == Some(AddOutcome::Existing)
            &&& item.error is Some <==> seed.diagnostic is Some
            &&& seed.diagnostic is Some ==> item.error->0.code == seed.diagnostic->0.code
        }),
{
}

/// Where a new item may not be registered, its result says why: a scan that missed something
/// is to be run again, and an item without a verified second copy waits for one.
pub proof fn withheld_items_say_why(
    seed: BatchItemSeedView,
    attestation: BackupAttestation,
    capture: CaptureAnswerView,
)
    requires
        seed.next_action == NextAction::Add,
    ensures
        ({
            let item = batch_item(seed, false, attestation, capture);
            &&& item.provider_locator == seed.provider_locator
            &&& item.user_state == UserState::Blocked
            &&& item.next_action == NextAction::Retry
            &&& item.asset_id == seed.asset_id
            &&& item.add_outcome is None
            &&& item.error is Some
            &&& item.error->0.code == "provider_scan_incomplete"@
        }),
        ({
            let item = batch_item(
                seed,
                true,
                BackupAttestation::OutsideOriginalRetained,
                capture,
            );
            &&& item.provider_locator == seed.provider_locator
            &&& item.user_state == seed.user_state
            &&& item.next_action == NextAction::Add
            &&& item.asset_id == seed.asset_id
            &&& item.add_outcome is None
            &&& item.error is Some
            &&& item.error->0.code == "backup_confirmation_required"@
        }),
{
}

/// A batch reports every item of its plan once, each under its own place in the inbox and
/// with its own result.
pub proof fn batches_report_every_item(plan: BatchPlanView, captures: Seq<CaptureAnswerView>)
    requires
        captures.len() == plan.seeds.len(),
    ensures
        ({
            let items = batch_result(plan, captures).items;
            &&& items.len() == plan.seeds.len()
            &&& forall|i: int|
                0 <= i < plan.seeds.len() ==> items.contains(
                    batch_item(
                        #[trigger] plan.seeds[i],
                        plan.mutation_safe,
                        plan.backup_attestation,
                        captures[i],
                    ),
                )
            &&& forall|k: int|
                0 <= k < items.len() ==> exists|i: int|
                    0 <= i < plan.seeds.len() && #[trigger] items[k] == batch_item(
                        #[trigger] plan.seeds[i],
                        plan.mutation_safe,
                        plan.backup_attestation,
                        captures[i],
                    )
            &&& forall|i: int|
                0 <= i < plan.seeds.len() ==> exists|k: int|
                    0 <= k < items.len() && (#[trigger] items[k]).provider_locator == (
                    #[trigger] plan.seeds[i]).provider_locator
        }),
{
    let ranked = ranked_items(plan, captures);
    let sorted = stable_sort::<RankedItem>(ranked);
    let items = batch_result(plan, captures).items;
    sorting_keeps_items::<RankedItem>(ranked);
    ranked.to_multiset_ensures();
    sorted.to_multiset_ensures();
    assert forall|i: int| 0 <= i < plan.seeds.len() implies items.contains(
        batch_item(
            #[trigger] plan.seeds[i],
            plan.mutation_safe,
            plan.backup_attestation,
            captures[i],
        ),
    ) && exists|k: int|
        0 <= k < items.len() && (#[trigger] items[k]).provider_locator
            == plan.seeds[i].provider_locator by {
        let one = ranked[i];
        assert(ranked.contains(one));
        assert(ranked.to_multiset().contains(one));
        assert(sorted.contains(one));
        let k = choose|k: int| 0 <= k < sorted.len() && sorted[k] == one;
        assert(items[k] == one.item);
    }
    assert forall|k: int| 0 <= k < items.len() implies exists|i: int|
        0 <= i < plan.seeds.len() && #[trigger] items[k] == batch_item(
            #[trigger] plan.seeds[i],
            plan.mutation_safe,
            plan.backup_attestation,
            captures[i],
        ) by {
        let one = sorted[k];
        assert(sorted.contains(one));
        assert(sorted.to_multiset().contains(one));
        assert(ranked.contains(one));
        let i = choose|i: int| 0 <= i < ranked.len() && ranked[i] == one;
        assert(items[k] == one.item);
        assert(ranked[i].item == batch_item(
            plan.seeds[i],
            plan.mutation_safe,
            plan.backup_attestation,
            captures[i],
        ));
    }
}

/// What is to be added ranks first, then what is to be prepared, drafted, reviewed, repaired,
/// hydrated, tried again and configured, and what is done last.
pub proof fn actions_are_ranked()
    ensures
        output_priority(NextAction::Add) < output_priority(NextAction::Prepare),
        output_priority(NextAction::Prepare) < output_priority(NextAction::WriteDraft),
        output_priority(NextAction::WriteDraft) < output_priority(NextAction::Review),
        output_priority(NextAction::Review) < output_priority(NextAction::Repair),
        output_priority(NextAction::Repair) < output_priority(NextAction::Hydrate),
        output_priority(NextAction::Hydrate) < output_priority(NextAction::Retry),
        output_priority(NextAction::Retry) < output_priority(NextAction::Configure),
        output_priority(NextAction::Configure) < output_priority(NextAction::Nothing),
{
}

/// The items of a batch come by the rank of the action that each came with, and items of the
/// same rank by their normalized place in the inbox: of two items, the places in the plan
/// that they came from.
pub proof fn batches_come_by_action(
    plan: BatchPlanView,
    captures: Seq<CaptureAnswerView>,
    j: int,
    k: int,
) -> (from: (int, int))
    requires
        captures.len() == plan.seeds.len(),
        0 <= j < k < batch_result(plan, captures).items.len(),
    ensures
        0 <= from.0 < plan.seeds.len(),
        0 <= from.1 < plan.seeds.len(),
        batch_result(plan, captures).items[j] == batch_item(
            plan.seeds[from.0],
            plan.mutation_safe,
            plan.backup_attestation,
            captures[from.0],
        ),
        batch_result(plan, captures).items[k] == batch_item(
            plan.seeds[from.1],
            plan.mutation_safe,
            plan.backup_attestation,
            captures[from.1],
        ),
        output_priority(plan.seeds[from.0].next_action) <= output_priority(
            plan.seeds[from.1].next_action,
        ),
        plan.seeds[from.0].next_action == plan.seeds[from.1].next_action ==> text_at_most(
            nfc(plan.seeds[from.0].provider_locator),
            nfc(plan.seeds[from.1].provider_locator),
        ),
{
    let ranked = ranked_items(plan, captures);
    let sorted = stable_sort::<RankedItem>(ranked);
    let items = batch_result(plan, captures).items;
    sorting_keeps_items::<RankedItem>(ranked);
    sorting_orders::<RankedItem>(ranked);
    ranked.to_multiset_ensures();
    sorted.to_multiset_ensures();
    assert(sorted.contains(sorted[j]) && sorted.contains(sorted[k]));
    assert(sorted.to_multiset().contains(sorted[j]));
    assert(sorted.to_multiset().contains(sorted[k]));
    assert(ranked.contains(sorted[j]) && ranked.contains(sorted[k]));
    let a = choose|a: int| 0 <= a < ranked.len() && ranked[a] == sorted[j];
    let b = choose|b: int| 0 <= b < ranked.len() && ranked[b] == sorted[k];
    assert(items[j] == sorted[j].item && items[k] == sorted[k].item);
    assert(<RankedItem as Ranked>::leq(sorted[j], sorted[k]));
    (a, b)
}

/// A batch covered the inbox only where its scan was complete and safe and no item was left
/// for later; what it left is added to what the scan left.
pub proof fn batches_own_up_to_what_they_left(
    plan: BatchPlanView,
    captures: Seq<CaptureAnswerView>,
)
    ensures
        batch_result(plan, captures).scan_complete <==> plan.scan_complete && plan.mutation_safe
            && plan.left_out == 0,
        plan.remaining + plan.left_out <= u64::MAX ==> batch_result(plan, captures).remaining
            == plan.remaining + plan.left_out,
        batch_result(plan, captures).remaining >= plan.remaining,
        batch_result(plan, captures).remaining >= plan.left_out,
{
}

/// The path of a single PDF, unless the request is for the whole inbox.
pub fn single_source(request: &AddRequest) -> (result: Result<String, MkoError>)
    ensures
        outcome(result) == (match request.input {
            AddInput::File(path) => Ok(path@),
            AddInput::InboxScan => Err(
                error("add_input_invalid"@, "single PDF add requires a file input"@),
            ),
        }),
{
    match &request.input {
        AddInput::File(path) => Ok(path.clone()),
        AddInput::InboxScan => Err(
            MkoError::new("add_input_invalid", "single PDF add requires a file input"),
        ),
    }
}

/// A file name whose extension is that of a PDF, in any case.
pub open spec fn has_pdf_extension(name: Option<Seq<char>>) -> bool {
    match name {
        None => false,
        Some(name) => match name_extension(name) {
            None => false,
            Some(extension) => ascii_lowered(extension) == "pdf"@,
        },
    }
}

/// Refuses a file that is no PDF by its name, which is that of the last step of its path.
pub fn ensure_pdf_extension(name: Option<&str>) -> (result: Result<(), MkoError>)
    ensures
        verdict(result) == (if has_pdf_extension(name.deep_view()) {
            Ok(())
        } else {
            Err(error("unsupported_media_type"@, "add accepts PDF files only"@))
        }),
{
    let accepted = match name {
        None => false,
        Some(name) => match extension_of(name) {
            None => false,
            Some(extension) => same(lowered_ascii(extension.as_str()).as_str(), "pdf"),
        },
    };
    if accepted {
        Ok(())
    } else {
        Err(MkoError::new("unsupported_media_type", "add accepts PDF files only"))
    }
}

/// Refuses to go on after a scan that did not see everything; the first warning says why.
pub fn require_complete_scan(scan_complete: bool, warnings: &Vec<ProviderScanWarning>) -> (result:
    Result<(), MkoError>)
    ensures
        verdict(result) == (if scan_complete {
            Ok(())
        } else {
            Err(
                error(
                    "provider_scan_incomplete"@,
                    "provider scan was incomplete ("@ + (if warnings.len() > 0 {
                        warnings@[0].code@
                    } else {
                        "unknown"@
                    }) + "); retry after resolving the warning"@,
                ),
            )
        }),
{
    if scan_complete {
        return Ok(());
    }
    let reason = if warnings.len() > 0 {
        warnings[0].code.as_str()
    } else {
        "unknown"
    };
    let message = cat3(
        "provider scan was incomplete (",
        reason,
        "); retry after resolving the warning",
    );
    Err(MkoError::new("provider_scan_incomplete", message.as_str()))
}

/// What stands at the place of a registry record.
#[derive(Clone, Debug, PartialEq, Eq)]
pub enum RegistryEntry {
    Absent,
    /// A link, a directory or another thing that is no regular file.
    NotRegular,
    Unreadable { detail: String },
    /// A record, or what is wrong with it.
    Record { record: AssetRecord },
    Broken { failure: MkoError },
}

/// The record is the one of this content, kept by this provider.
pub open spec fn is_record_of(
    asset: AssetRecordView,
    asset_id: Seq<char>,
    snapshot: FileSnapshotView,
    provider_type: Seq<char>,
) -> bool {
    asset.id == asset_id && asset.fingerprint == snapshot.fingerprint && asset.size_bytes
        == snapshot.size_bytes && asset.provider.provider_type == provider_type
}

/// The registered Asset of a PDF, if there is one.
pub fn load_existing_asset(
    entry: RegistryEntry,
    asset_id: &str,
    expected: &FileSnapshot,
    provider_type: &str,
) -> (result: Result<Option<AssetRecord>, MkoError>)
    ensures
        outcome(result) == (match entry {
            RegistryEntry::Absent => Ok(None),
            RegistryEntry::NotRegular => Err(
                error(
                    "registry_destination_invalid"@,
                    "deterministic registry destination is not a regular file"@,
                ),
            ),
            RegistryEntry::Unreadable { detail } => Err(error("registry_unreadable"@, detail@)),
            RegistryEntry::Broken { failure } => Err(failure.deep_view()),
            RegistryEntry::Record { record } => if is_record_of(
                record.deep_view(),
                asset_id@,
                expected.deep_view(),
                provider_type@,
            ) {
                Ok(Some(record.deep_view()))
            } else {
                Err(
                    error(
                        "registry_identity_conflict"@,
                        "the deterministic registry record does not match the requested PDF identity"@,
                    ),
                )
            },
        }),
{
    match entry {
        RegistryEntry::Absent => Ok(None),
        RegistryEntry::NotRegular => Err(
            MkoError::new(
                "registry_destination_invalid",
                "deterministic registry destination is not a regular file",
            ),
        ),
        RegistryEntry::Unreadable { detail } => Err(
            MkoError::new("registry_unreadable", detail.as_str()),
        ),
        RegistryEntry::Broken { failure } => Err(failure),
        RegistryEntry::Record { record } => {
            if !same(record.id.as_str(), asset_id) || !same_fingerprint(
                &record.fingerprint,
                &expected.fingerprint,
            ) || record.size_bytes != expected.size_bytes || !same(
                record.provider.provider_type.as_str(),
                provider_type,
            ) {
                return Err(
                    MkoError::new(
                        "registry_identity_conflict",
                        "the deterministic registry record does not match the requested PDF identity",
                    ),
                );
            }
            Ok(Some(record))
        },
    }
}

/// The place of a file inside the provider: its relative path, and the names on it (none
/// for a name that is not valid UTF-8).
#[derive(Clone, Debug, PartialEq, Eq)]
pub struct InsideFile {
    pub relative_path: String,
    pub names: Vec<Option<String>>,
}

#[verifier::ext_equal]
pub struct InsideFileView {
    pub relative_path: Seq<char>,
    pub names: Seq<Option<Seq<char>>>,
}

impl DeepView for InsideFile {
    type V = InsideFileView;

    open spec fn deep_view(&self) -> InsideFileView {
        InsideFileView {
            relative_path: self.relative_path@,
            names: self.names.deep_view(),
        }
    }
}

/// The normalized locator of a path inside the provider.
pub open spec fn provider_locator(names: Seq<Option<Seq<char>>>) -> Result<Seq<char>, ErrorView> {
    if !all_utf8(names) {
        Err(error("invalid_path"@, "provider path must be valid UTF-8"@))
    } else {
        let locator = join(names.map_values(|name: Option<Seq<char>>| nfc(name->0)), "/"@);
        match portable_path(locator) {
            Ok(_) => Ok(locator),
            Err(failure) => Err(failure),
        }
    }
}

pub fn logical_provider_locator(names: &Vec<Option<String>>) -> (result: Result<String, MkoError>)
    ensures
        outcome(result) == provider_locator(names.deep_view()),
{
    let ghost all = names.deep_view();
    let ghost normal = all.map_values(|name: Option<Seq<char>>| nfc(name->0));
    let mut normalized: Vec<String> = Vec::new();
    let mut i: usize = 0;
    assert(normalized.deep_view() == normal.take(0));
    while i < names.len()
        invariant
            i <= names.len(),
            all == names.deep_view(),
            normal == all.map_values(|name: Option<Seq<char>>| nfc(name->0)),
            normalized.deep_view() == normal.take(i as int),
            forall|k: int| 0 <= k < i ==> (#[trigger] all[k]) is Some,
        decreases names.len() - i,
    {
        match &names[i] {
            None => {
                assert(all[i as int] is None);
                return Err(MkoError::new("invalid_path", "provider path must be valid UTF-8"));
            },
            Some(name) => {
                let ghost before = normalized.deep_view();
                assert(all[i as int] == Some(name@));
                let text = to_nfc(name.as_str());
                normalized.push(text);
                assert(normalized.deep_view() == before.push(text@));
                assert(normal.take(i + 1) == normal.take(i as int).push(normal[i as int]));
            },
        }
        i += 1;
    }
    assert(normal.take(i as int) == normal);
    let locator = join_texts(&normalized, "/");
    match validate_portable_relative_path(locator.as_str()) {
        Ok(_) => Ok(locator),
        Err(failure) => Err(failure),
    }
}

/// The first PDF at a place of the inbox.
pub open spec fn pdf_at(pdfs: Seq<ProviderPdfView>, locator: Seq<char>) -> Option<ProviderPdfView>
    decreases pdfs.len(),
{
    if pdfs.len() == 0 {
        None
    } else if pdfs[0].provider_locator == locator {
        Some(pdfs[0])
    } else {
        pdf_at(pdfs.drop_first(), locator)
    }
}

/// The PDF has the content of the snapshot.
pub open spec fn has_content(pdf: ProviderPdfView, snapshot: FileSnapshotView) -> bool {
    pdf.fingerprint == snapshot.fingerprint && pdf.size_bytes == snapshot.size_bytes
}

/// The first PDF with the content of the snapshot.
pub open spec fn pdf_with_content(pdfs: Seq<ProviderPdfView>, snapshot: FileSnapshotView) -> Option<
    ProviderPdfView,
>
    decreases pdfs.len(),
{
    if pdfs.len() == 0 {
        None
    } else if has_content(pdfs[0], snapshot) {
        Some(pdfs[0])
    } else {
        pdf_with_content(pdfs.drop_first(), snapshot)
    }
}

/// The scan saw this very file, with this content.
pub open spec fn scan_saw(
    pdfs: Seq<ProviderPdfView>,
    relative_path: Seq<char>,
    snapshot: FileSnapshotView,
) -> bool {
    exists|i: int|
        0 <= i < pdfs.len() && (#[trigger] pdfs[i]).relative_path == relative_path && has_content(
            pdfs[i],
            snapshot,
        )
}

fn find_pdf_at(pdfs: &Vec<ProviderPdf>, locator: &str) -> (found: Option<usize>)
    ensures
        match found {
            Some(i) => i < pdfs.len() && pdf_at(pdfs.deep_view(), locator@) == Some(
                pdfs@[i as int].deep_view(),
            ),
            None => pdf_at(pdfs.deep_view(), locator@) is None,
        },
{
    let ghost all = pdfs.deep_view();
    let mut i: usize = 0;
    assert(all.skip(0) == all);
    while i < pdfs.len()
        invariant
            i <= pdfs.len(),
            all == pdfs.deep_view(),
            pdf_at(all, locator@) == pdf_at(all.skip(i as int), locator@),
        decreases pdfs.len() - i,
    {
        assert(all.skip(i as int)[0] == pdfs@[i as int].deep_view());
        assert(all.skip(i as int).drop_first() == all.skip(i + 1));
        if same(pdfs[i].provider_locator.as_str(), locator) {
            return Some(i);
        }
        i += 1;
    }
    None
}

fn content_matches(pdf: &ProviderPdf, snapshot: &FileSnapshot) -> (result: bool)
    ensures
        result == has_content(pdf.deep_view(), snapshot.deep_view()),
{
    same_fingerprint(&pdf.fingerprint, &snapshot.fingerprint) && pdf.size_bytes
        == snapshot.size_bytes
}

fn find_pdf_with_content(pdfs: &Vec<ProviderPdf>, snapshot: &FileSnapshot) -> (found: Option<usize>)
    ensures
        match found {
            Some(i) => i < pdfs.len() && pdf_with_content(pdfs.deep_view(), snapshot.deep_view())
                == Some(pdfs@[i as int].deep_view()),
            None => pdf_with_content(pdfs.deep_view(), snapshot.deep_view()) is None,
        },
{
    let ghost all = pdfs.deep_view();
    let ghost wanted = snapshot.deep_view();
    let mut i: usize = 0;
    assert(all.skip(0) == all);
    while i < pdfs.len()
        invariant
            i <= pdfs.len(),
            all == pdfs.deep_view(),
            wanted == snapshot.deep_view(),
            pdf_with_content(all, wanted) == pdf_with_content(all.skip(i as int), wanted),
        decreases pdfs.len() - i,
    {
        assert(all.skip(i as int)[0] == pdfs@[i as int].deep_view());
        assert(all.skip(i as int).drop_first() == all.skip(i + 1));
        if content_matches(&pdfs[i], snapshot) {
            return Some(i);
        }
        i += 1;
    }
    None
}

fn scan_has_seen(pdfs: &Vec<ProviderPdf>, relative_path: &str, snapshot: &FileSnapshot) -> (found:
    bool)
    ensures
        found == scan_saw(pdfs.deep_view(), relative_path@, snapshot.deep_view()),
{
    let ghost all = pdfs.deep_view();
    let ghost wanted = snapshot.deep_view();
    let mut i: usize = 0;
    while i < pdfs.len()
        invariant
            i <= pdfs.len(),
            all == pdfs.deep_view(),
            wanted == snapshot.deep_view(),
            forall|k: int|
                0 <= k < i ==> !((#[trigger] all[k]).relative_path == relative_path@ && has_content(
                    all[k],
                    wanted,
                )),
        decreases pdfs.len() - i,
    {
        assert(all[i as int] == pdfs@[i as int].deep_view());
        if same(pdfs[i].relative_path.as_str(), relative_path) && content_matches(
            &pdfs[i],
            snapshot,
        ) {
            return true;
        }
        i += 1;
    }
    false
}

/// How a single PDF is added.
#[derive(Clone, Debug, PartialEq, Eq)]
pub enum AddPlan {
    /// Register the file that already stands in the inbox.
    Use { provider_locator: String, relative_path: String, import_outcome: ImportOutcome },
    /// Copy the PDF into the inbox first.
    Import,
}

#[verifier::ext_equal]
pub enum AddPlanView {
    Use { provider_locator: Seq<char>, relative_path: Seq<char>, import_outcome: ImportOutcome },
    Import,
}

impl DeepView for AddPlan {
    type V = AddPlanView;

    open spec fn deep_view(&self) -> AddPlanView {
        match self {
            AddPlan::Use { provider_locator, relative_path, import_outcome } => AddPlanView::Use {
                provider_locator: provider_locator@,
                relative_path: relative_path@,
                import_outcome: *import_outcome,
            },
            AddPlan::Import => AddPlanView::Import,
        }
    }
}

/// The decision on a single PDF: which file of the inbox stands for it, or that it has to
/// be copied there. A temporary file, and a new file that has no original outside the
/// inbox, need a verified second copy.
pub open spec fn add_plan(
    temporary_source: bool,
    attestation: BackupAttestation,
    snapshot: FileSnapshotView,
    inside: Option<InsideFileView>,
    existing: Option<AssetRecordView>,
    pdfs: Seq<ProviderPdfView>,
) -> Result<AddPlanView, ErrorView> {
    if attestation != BackupAttestation::UserVerified && (temporary_source || (inside is Some
        && existing is None)) {
        Err(backup_required())
    } else {
        match (existing, inside) {
            (Some(asset), _) => match pdf_at(pdfs, asset.provider.locator) {
                None => Err(
                    error(
                        "registry_provider_missing"@,
                        "the registered provider locator is missing; inspect and repair the asset"@,
                    ),
                ),
                Some(persisted) => if !has_content(persisted, snapshot) {
                    Err(
                        error(
                            "registry_provider_mismatch"@,
                            "the registered provider locator no longer contains the registered PDF"@,
                        ),
                    )
                } else {
                    Ok(
                        AddPlanView::Use {
                            provider_locator: asset.provider.locator,
                            relative_path: persisted.relative_path,
                            import_outcome: if inside is Some && inside->0.relative_path
                                == persisted.relative_path {
                                ImportOutcome::AlreadyInInbox
                            } else {
                                ImportOutcome::ReusedInboxCopy
                            },
                        },
                    )
                },
            },
            (None, Some(file)) => match provider_locator(file.names) {
                Err(failure) => Err(failure),
                Ok(locator) => if !scan_saw(pdfs, file.relative_path, snapshot) {
                    Err(
                        error(
                            "provider_file_excluded"@,
                            "the Inbox file is hidden, temporary, or changed during scanning"@,
                        ),
                    )
                } else {
                    Ok(
                        AddPlanView::Use {
                            provider_locator: locator,
                            relative_path: file.relative_path,
                            import_outcome: ImportOutcome::AlreadyInInbox,
                        },
                    )
                },
            },
            (None, None) => match pdf_with_content(pdfs, snapshot) {
                Some(pdf) => Ok(
                    AddPlanView::Use {
                        provider_locator: pdf.provider_locator,
                        relative_path: pdf.relative_path,
                        import_outcome: ImportOutcome::ReusedInboxCopy,
                    },
                ),
                None => Ok(AddPlanView::Import),
            },
        }
    }
}

/// Decides how a single PDF is added: `inside` says where in the provider it stands, if
/// it does, and `existing` is its registry record, if it has one.
pub fn add_pdf(
    temporary_source: bool,
    attestation: BackupAttestation,
    snapshot: &FileSnapshot,
    inside: &Option<InsideFile>,
    existing: &Option<AssetRecord>,
    pdfs: &Vec<ProviderPdf>,
) -> (result: Result<AddPlan, MkoError>)
    ensures
        outcome(result) == add_plan(
            temporary_source,
            attestation,
            snapshot.deep_view(),
            inside.deep_view(),
            existing.deep_view(),
            pdfs.deep_view(),
        ),
{
    if temporary_source && attestation != BackupAttestation::UserVerified {
        return Err(backup_confirmation_required());
    }
    if inside.is_some() && existing.is_none() && attestation != BackupAttestation::UserVerified {
        return Err(backup_confirmation_required());
    }
    if let Some(asset) = existing {
        match find_pdf_at(pdfs, asset.provider.locator.as_str()) {
            None => {
                return Err(
                    MkoError::new(
                        "registry_provider_missing",
                        "the registered provider locator is missing; inspect and repair the asset",
                    ),
                );
            },
            Some(at) => {
                let persisted = &pdfs[at];
                if !content_matches(persisted, snapshot) {
                    return Err(
                        MkoError::new(
                            "registry_provider_mismatch",
                            "the registered provider locator no longer contains the registered PDF",
                        ),
                    );
                }
                let import_outcome = match inside {
                    Some(file) => if same(
                        file.relative_path.as_str(),
                        persisted.relative_path.as_str(),
                    ) {
                        ImportOutcome::AlreadyInInbox
                    } else {
                        ImportOutcome::ReusedInboxCopy
                    },
                    None => ImportOutcome::ReusedInboxCopy,
                };
                return Ok(
                    AddPlan::Use {
                        provider_locator: asset.provider.locator.clone(),
                        relative_path: persisted.relative_path.clone(),
                        import_outcome,
                    },
                );
            },
        }
    }
    if let Some(file) = inside {
        let locator = match logical_provider_locator(&file.names) {
            Ok(locator) => locator,
            Err(failure) => {
                return Err(failure);
            },
        };
        if !scan_has_seen(pdfs, file.relative_path.as_str(), snapshot) {
            return Err(
                MkoError::new(
                    "provider_file_excluded",
                    "the Inbox file is hidden, temporary, or changed during scanning",
                ),
            );
        }
        return Ok(
            AddPlan::Use {
                provider_locator: locator,
                relative_path: file.relative_path.clone(),
                import_outcome: ImportOutcome::AlreadyInInbox,
            },
        );
    }
    match find_pdf_with_content(pdfs, snapshot) {
        Some(at) => Ok(
            AddPlan::Use {
                provider_locator: pdfs[at].provider_locator.clone(),
                relative_path: pdfs[at].relative_path.clone(),
                import_outcome: ImportOutcome::ReusedInboxCopy,
            },
        ),
        None => Ok(AddPlan::Import),
    }
}

/// The outcome that a capture names.
pub open spec fn capture_outcome(result: Seq<char>) -> Result<AddOutcome, ErrorView> {
    if result == "created"@ {
        Ok(AddOutcome::Created)
    } else if result == "existing"@ {
        Ok(AddOutcome::Existing)
    } else {
        Err(error("capture_result_invalid"@, "capture returned an unknown result"@))
    }
}

pub fn parse_capture_outcome(result: &str) -> (outcome: Result<AddOutcome, MkoError>)
    ensures
        match outcome {
            Ok(value) => capture_outcome(result@) == Ok::<AddOutcome, ErrorView>(value),
            Err(failure) => capture_outcome(result@) == Err::<AddOutcome, ErrorView>(
                failure.deep_view(),
            ),
        },
{
    if same(result, "created") {
        Ok(AddOutcome::Created)
    } else if same(result, "existing") {
        Ok(AddOutcome::Existing)
    } else {
        Err(MkoError::new("capture_result_invalid", "capture returned an unknown result"))
    }
}

/// Finishes a single add: the captured Asset must be the one that was selected.
pub fn finish_add(
    selected_id: &str,
    captured_id: String,
    capture_result: &str,
    registry_path: String,
    provider_locator: String,
    import_outcome: ImportOutcome,
    repository: String,
) -> (result: Result<AddResult, MkoError>)
    ensures
        outcome(result) == (if captured_id@ != selected_id@ {
            Err(
                error(
                    "fingerprint_changed"@,
                    "captured PDF identity differs from the source selected for add"@,
                ),
            )
        } else {
            match capture_outcome(capture_result@) {
                Err(failure) => Err(failure),
                Ok(add_outcome) => Ok(
                    AddResultView {
                        add_outcome,
                        import_outcome,
                        repository: repository@,
                        asset_id: captured_id@,
                        registry_path: registry_path@,
                        provider_locator: provider_locator@,
                    },
                ),
            }
        }),
{
    if !same(captured_id.as_str(), selected_id) {
        return Err(
            MkoError::new(
                "fingerprint_changed",
                "captured PDF identity differs from the source selected for add",
            ),
        );
    }
    match parse_capture_outcome(capture_result) {
        Ok(add_outcome) => Ok(
            AddResult {
                add_outcome,
                import_outcome,
                repository,
                asset_id: captured_id,
                registry_path,
                provider_locator,
            },
        ),
        Err(failure) => Err(failure),
    }
}

/// The checks on a discovered item before it is captured: its place must be portable,
/// the scan must have read it, and it must not have changed since.
pub open spec fn discovered_item_check(
    locator: Seq<char>,
    expected: Option<FileSnapshotView>,
    actual: FileSnapshotView,
) -> Result<(), ErrorView> {
    match portable_path(locator) {
        Err(failure) => Err(failure),
        Ok(_) => match expected {
            None => Err(
                error(
                    "provider_scan_incomplete"@,
                    "The discovered inbox item has no readable content snapshot."@,
                ),
            ),
            Some(snapshot) => if same_content(actual, snapshot) {
                Ok(())
            } else {
                Err(
                    error(
                        "fingerprint_changed"@,
                        "The inbox item changed after discovery and was not registered."@,
                    ),
                )
            },
        },
    }
}

pub fn capture_discovered_item(
    locator: &str,
    expected: &Option<FileSnapshot>,
    actual: &FileSnapshot,
) -> (result: Result<(), MkoError>)
    ensures
        verdict(result) == discovered_item_check(
            locator@,
            expected.deep_view(),
            actual.deep_view(),
        ),
{
    match validate_portable_relative_path(locator) {
        Ok(_) => {},
        Err(failure) => {
            return Err(failure);
        },
    }
    match expected {
        None => Err(
            MkoError::new(
                "provider_scan_incomplete",
                "The discovered inbox item has no readable content snapshot.",
            ),
        ),
        Some(snapshot) => {
            if has_same_content(actual, snapshot) {
                Ok(())
            } else {
                Err(
                    MkoError::new(
                        "fingerprint_changed",
                        "The inbox item changed after discovery and was not registered.",
                    ),
                )
            }
        },
    }
}

/// The first digits of the hash in a fingerprint.
pub open spec fn hash_prefix(fingerprint: FingerprintView, len: int) -> Seq<char> {
    after_prefix(fingerprint.value, "sha256:"@)->0.take(len)
}

fn hash_prefix_of(fingerprint: &Fingerprint, len: usize) -> (prefix: String)
    requires
        asset_id_of(fingerprint.deep_view()) is Ok,
        len <= 64,
    ensures
        prefix@ == hash_prefix(fingerprint.deep_view(), len as int),
{
    match strip_prefix(fingerprint.value.as_str(), "sha256:") {
        Some(hash) => {
            let prefix = hash.substring_char(0, len);
            assert(prefix@ == hash@.take(len as int));
            prefix.to_owned()
        },
        None => String::new(),
    }
}

/// The name under which a PDF from outside comes into the inbox: its own, normalized, or
/// one made of its hash where scans pass over its own.
pub open spec fn import_name(
    file_name: Option<Seq<char>>,
    excluded: bool,
    fingerprint: FingerprintView,
) -> Result<Seq<char>, ErrorView> {
    match file_name {
        None => Err(error("invalid_path"@, "PDF filename must be valid UTF-8"@)),
        Some(own) => {
            let name = if excluded {
                "import-"@ + hash_prefix(fingerprint, 12) + ".pdf"@
            } else {
                nfc(own)
            };
            match portable_path(name) {
                Ok(_) => Ok(name),
                Err(failure) => Err(failure),
            }
        },
    }
}

/// `excluded` says whether a scan passes over the normalized name.
pub fn import_source_name(
    file_name: Option<&str>,
    excluded: bool,
    fingerprint: &Fingerprint,
) -> (result: Result<String, MkoError>)
    requires
        asset_id_of(fingerprint.deep_view()) is Ok,
    ensures
        outcome(result) == import_name(file_name.deep_view(), excluded, fingerprint.deep_view()),
{
    match file_name {
        None => Err(MkoError::new("invalid_path", "PDF filename must be valid UTF-8")),
        Some(own) => {
            let name = if excluded {
                let prefix = hash_prefix_of(fingerprint, 12);
                cat3("import-", prefix.as_str(), ".pdf")
            } else {
                to_nfc(own)
            };
            match validate_portable_relative_path(name.as_str()) {
                Ok(_) => Ok(name),
                Err(failure) => Err(failure),
            }
        },
    }
}

/// The entry of the inbox that a name would collide with.
pub open spec fn colliding_entry(names: Seq<Option<Seq<char>>>, candidate: Seq<char>) -> Result<
    Option<Seq<char>>,
    ErrorView,
> {
    if !all_utf8(names) {
        Err(error("invalid_path"@, "provider filename must be valid UTF-8"@))
    } else {
        let found = matching_names(names, candidate);
        if found.len() > 1 {
            Err(
                error(
                    "path_collision"@,
                    "provider contains a case or Unicode-normalization filename collision"@,
                ),
            )
        } else if found.len() == 1 {
            Ok(Some(found[0]))
        } else {
            Ok(None)
        }
    }
}

pub fn collision_entry(names: &Vec<Option<String>>, candidate: &str) -> (result: Result<
    Option<String>,
    MkoError,
>)
    ensures
        outcome(result) == colliding_entry(names.deep_view(), candidate@),
{
    match find_matching_names(names, candidate) {
        None => Err(MkoError::new("invalid_path", "provider filename must be valid UTF-8")),
        Some(matches) => {
            let mut matches = matches;
            let ghost found = matches.deep_view();
            if matches.len() > 1 {
                return Err(
                    MkoError::new(
                        "path_collision",
                        "provider contains a case or Unicode-normalization filename collision",
                    ),
                );
            }
            match matches.pop() {
                Some(name) => {
                    assert(found[0] == name@);
                    Ok(Some(name))
                },
                None => Ok(None),
            }
        },
    }
}

/// A name can be used when nothing collides with it, or only a file with the very content.
pub open spec fn usable_name(
    names: Seq<Option<Seq<char>>>,
    identical: Seq<Seq<char>>,
    candidate: Seq<char>,
) -> Result<bool, ErrorView> {
    match colliding_entry(names, candidate) {
        Err(failure) => Err(failure),
        Ok(None) => Ok(true),
        Ok(Some(existing)) => Ok(lists(identical, existing)),
    }
}

fn name_is_usable(names: &Vec<Option<String>>, identical: &Vec<String>, candidate: &str) -> (result:
    Result<bool, MkoError>)
    ensures
        outcome(result) == usable_name(names.deep_view(), identical.deep_view(), candidate@),
{
    match collision_entry(names, candidate) {
        Err(failure) => Err(failure),
        Ok(None) => Ok(true),
        Ok(Some(existing)) => Ok(is_listed(identical, existing.as_str())),
    }
}

/// The first usable name that is made of the stem and a longer and longer part of the
/// hash, from `len` digits on.
pub open spec fn hashed_name(
    names: Seq<Option<Seq<char>>>,
    identical: Seq<Seq<char>>,
    stem: Seq<char>,
    fingerprint: FingerprintView,
    len: int,
) -> Result<Seq<char>, ErrorView>
    decreases 68 - len,
{
    if len > 64 {
        Err(
            error("path_collision"@, "all deterministic PDF import destinations are occupied"@),
        )
    } else {
        let candidate = stem + "-"@ + hash_prefix(fingerprint, len) + ".pdf"@;
        match portable_path(candidate) {
            Err(failure) => Err(failure),
            Ok(_) => match usable_name(names, identical, candidate) {
                Err(failure) => Err(failure),
                Ok(usable) => if usable {
                    Ok(candidate)
                } else {
                    hashed_name(names, identical, stem, fingerprint, len + 4)
                },
            },
        }
    }
}

/// The name under which a PDF is copied into the inbox.
pub open spec fn destination_name(
    names: Seq<Option<Seq<char>>>,
    identical: Seq<Seq<char>>,
    source_name: Seq<char>,
    fingerprint: FingerprintView,
) -> Result<Seq<char>, ErrorView> {
    match usable_name(names, identical, source_name) {
        Err(failure) => Err(failure),
        Ok(usable) => if usable {
            Ok(source_name)
        } else {
            match file_name(source_name) {
                None => Err(error("invalid_path"@, "PDF filename has no valid stem"@)),
                Some(name) => hashed_name(names, identical, name_stem(name), fingerprint, 12),
            }
        },
    }
}

fn stem_of(name: &str) -> (stem: String)
    ensures
        stem@ == name_stem(name@),
{
    match extension_of(name) {
        None => name.to_owned(),
        Some(extension) => {
            proof {
                extension_is_short(name@);
            }
            let len: usize = name.unicode_len();
            let cut: usize = extension.as_str().unicode_len();
            let stem = name.substring_char(0, len - cut - 1);
            assert(stem@ == name@.take(len - cut - 1));
            stem.to_owned()
        },
    }
}

proof fn extension_is_short(name: Seq<char>)
    requires
        name_extension(name) is Some,
    ensures
        name_extension(name)->0.len() + 1 <= name.len(),
{
    split_last_is_short(name, '.');
}

proof fn split_last_is_short(text: Seq<char>, separator: char)
    ensures
        crate::text::split(text, separator).len() >= 1,
        crate::text::split(text, separator).last().len() + crate::text::split(text, separator).len()
            <= text.len() + 1,
    decreases text.len(),
{
    if text.len() > 0 {
        split_last_is_short(text.drop_last(), separator);
    }
}

/// `names` lists the inbox (nothing for a name that is not valid UTF-8), and `identical`
/// those of its regular files that hold the very content.
pub fn available_destination_name(
    names: &Vec<Option<String>>,
    identical: &Vec<String>,
    source_name: &str,
    fingerprint: &Fingerprint,
) -> (result: Result<String, MkoError>)
    requires
        asset_id_of(fingerprint.deep_view()) is Ok,
    ensures
        outcome(result) == destination_name(
            names.deep_view(),
            identical.deep_view(),
            source_name@,
            fingerprint.deep_view(),
        ),
{
    match name_is_usable(names, identical, source_name) {
        Err(failure) => {
            return Err(failure);
        },
        Ok(usable) => {
            if usable {
                return Ok(source_name.to_owned());
            }
        },
    }
    let stem = match file_name_of(source_name) {
        None => {
            return Err(MkoError::new("invalid_path", "PDF filename has no valid stem"));
        },
        Some(name) => stem_of(name.as_str()),
    };
    let ghost listing = names.deep_view();
    let ghost same_files = identical.deep_view();
    let ghost identity = fingerprint.deep_view();
    let mut len: usize = 12;
    while len <= 64
        invariant
            12 <= len <= 68,
            asset_id_of(fingerprint.deep_view()) is Ok,
            listing == names.deep_view(),
            same_files == identical.deep_view(),
            identity == fingerprint.deep_view(),
            destination_name(listing, same_files, source_name@, identity) == hashed_name(
                listing,
                same_files,
                stem@,
                identity,
                len as int,
            ),
        decreases 68 - len,
    {
        let prefix = hash_prefix_of(fingerprint, len);
        let candidate = cat4(stem.as_str(), "-", prefix.as_str(), ".pdf");
        match validate_portable_relative_path(candidate.as_str()) {
            Ok(_) => {},
            Err(failure) => {
                return Err(failure);
            },
        }
        match name_is_usable(names, identical, candidate.as_str()) {
            Err(failure) => {
                return Err(failure);
            },
            Ok(usable) => {
                if usable {
                    return Ok(candidate);
                }
            },
        }
        len += 4;
    }
    Err(MkoError::new("path_collision", "all deterministic PDF import destinations are occupied"))
}

/// Refuses a copy of another size than the source had.
pub fn copy_exact_snapshot(copied: u64, expected_size: u64) -> (result: Result<(), MkoError>)
    ensures
        verdict(result) == (if copied == expected_size {
            Ok(())
        } else {
            Err(error("fingerprint_changed"@, "source PDF size changed during import"@))
        }),
{
    if copied != expected_size {
        return Err(MkoError::new("fingerprint_changed", "source PDF size changed during import"));
    }
    Ok(())
}

/// Refuses an inbox file that is not a regular file with the expected content.
pub fn validate_existing_pdf(
    regular_file: bool,
    actual: &FileSnapshot,
    expected: &FileSnapshot,
) -> (result: Result<(), MkoError>)
    ensures
        verdict(result) == (if !regular_file {
            Err(
                error(
                    "provider_destination_invalid"@,
                    "PDF import destination must be a regular non-link file"@,
                ),
            )
        } else if same_content(actual.deep_view(), expected.deep_view()) {
            Ok(())
        } else {
            Err(
                error(
                    "provider_destination_conflict"@,
                    "PDF import destination contains different content"@,
                ),
            )
        }),
{
    if !regular_file {
        return Err(
            MkoError::new(
                "provider_destination_invalid",
                "PDF import destination must be a regular non-link file",
            ),
        );
    }
    if !has_same_content(actual, expected) {
        return Err(
            MkoError::new(
                "provider_destination_conflict",
                "PDF import destination contains different content",
            ),
        );
    }
    Ok(())
}

/// The original outside the inbox must still be there: `original` is what stands at its
/// place, if it could be opened as the same path, or why that could not be read as a PDF.
pub open spec fn original_check(
    original: Option<Result<FileSnapshotView, ErrorView>>,
    expected: FileSnapshotView,
) -> Result<(), ErrorView> {
    match original {
        None => Err(backup_required()),
        Some(Err(failure)) => Err(failure),
        Some(Ok(kept)) => if same_content(kept, expected) {
            Ok(())
        } else {
            Err(backup_required())
        },
    }
}

/// What was found at the place of an original.
pub open spec fn found_original(original: Option<Result<FileSnapshot, MkoError>>) -> Option<
    Result<FileSnapshotView, ErrorView>,
> {
    match original {
        Some(found) => Some(outcome(found)),
        None => None,
    }
}

fn validate_outside_original(
    original: Option<Result<FileSnapshot, MkoError>>,
    expected: &FileSnapshot,
) -> (result: Result<(), MkoError>)
    ensures
        verdict(result) == original_check(found_original(original), expected.deep_view()),
{
    match original {
        None => Err(backup_confirmation_required()),
        Some(Err(failure)) => Err(failure),
        Some(Ok(kept)) => {
            if has_same_content(&kept, expected) {
                Ok(())
            } else {
                Err(backup_confirmation_required())
            }
        },
    }
}

/// The last look before a copy is published.
pub open spec fn import_check(
    source_after: FileSnapshotView,
    copy: Result<(), ErrorView>,
    attestation: BackupAttestation,
    original: Option<Result<FileSnapshotView, ErrorView>>,
    expected: FileSnapshotView,
) -> Result<(), ErrorView> {
    if source_after != expected {
        Err(
            error(
                "fingerprint_changed"@,
                "source PDF changed during import; no destination was published"@,
            ),
        )
    } else if copy is Err {
        copy
    } else if attestation == BackupAttestation::OutsideOriginalRetained {
        original_check(original, expected)
    } else {
        Ok(())
    }
}

/// The last look before a copy is published: the source must be as it was, the copy must
/// have passed its own check, and unless a second copy was verified, the original outside
/// the inbox must still be there.
pub fn import_outside_pdf(
    source_after: &FileSnapshot,
    copy: Result<(), MkoError>,
    attestation: BackupAttestation,
    original: Option<Result<FileSnapshot, MkoError>>,
    expected: &FileSnapshot,
) -> (result: Result<(), MkoError>)
    ensures
        verdict(result) == import_check(
            source_after.deep_view(),
            verdict(copy),
            attestation,
            found_original(original),
            expected.deep_view(),
        ),
{
    if !same_snapshot(source_after, expected) {
        return Err(
            MkoError::new(
                "fingerprint_changed",
                "source PDF changed during import; no destination was published",
            ),
        );
    }
    match copy {
        Ok(_) => {},
        Err(failure) => {
            return Err(failure);
        },
    }
    if attestation == BackupAttestation::OutsideOriginalRetained {
        return validate_outside_original(original, expected);
    }
    Ok(())
}

/// What is done next to bring a PDF into the inbox.
#[derive(Clone, Debug, PartialEq, Eq)]
pub enum ImportStep {
    /// Choose a name, as nothing may be overwritten.
    Choose,
    /// Make a copy to publish under the name.
    Copy { name: String },
    /// The PDF stands under the name.
    Done { name: String },
}

#[verifier::ext_equal]
pub enum ImportStepView {
    Choose,
    Copy { name: Seq<char> },
    Done { name: Seq<char> },
}

impl DeepView for ImportStep {
    type V = ImportStepView;

    open spec fn deep_view(&self) -> ImportStepView {
        match self {
            ImportStep::Choose => ImportStepView::Choose,
            ImportStep::Copy { name } => ImportStepView::Copy { name: name@ },
            ImportStep::Done { name } => ImportStepView::Done { name: name@ },
        }
    }
}

/// The step after a name was chosen: `standing` says of what stands under it, if anything
/// does, whether it is the PDF.
pub open spec fn step_after_name(name: Seq<char>, standing: Option<Result<(), ErrorView>>) -> ImportStepView {
    match standing {
        None => ImportStepView::Copy { name },
        Some(Ok(_)) => ImportStepView::Done { name },
        Some(Err(_)) => ImportStepView::Choose,
    }
}

pub fn after_name(name: String, standing: Option<Result<(), MkoError>>) -> (step: ImportStep)
    ensures
        step.deep_view() == step_after_name(
            name@,
            match standing {
                Some(checked) => Some(verdict(checked)),
                None => None,
            },
        ),
{
    match standing {
        None => ImportStep::Copy { name },
        Some(Ok(_)) => ImportStep::Done { name },
        Some(Err(_)) => ImportStep::Choose,
    }
}

/// How a copy was given its name in the inbox.
#[derive(Clone, Debug, PartialEq, Eq)]
pub enum Linking {
    Linked,
    /// Something else had taken the name.
    Occupied,
    Failed { detail: String },
}

/// The step after a copy was to get its name; `checked` says of what stands there now
/// whether it is the PDF.
pub open spec fn step_after_link(
    name: Seq<char>,
    linking: Linking,
    checked: Result<(), ErrorView>,
) -> Result<ImportStepView, ErrorView> {
    match linking {
        Linking::Linked => match checked {
            Ok(_) => Ok(ImportStepView::Done { name }),
            Err(failure) => Err(failure),
        },
        Linking::Occupied => match checked {
            Ok(_) => Ok(ImportStepView::Done { name }),
            Err(_) => Ok(ImportStepView::Choose),
        },
        Linking::Failed { detail } => Err(error("provider_import_failed"@, detail@)),
    }
}

pub fn after_link(name: String, linking: &Linking, checked: Result<(), MkoError>) -> (result: Result<
    ImportStep,
    MkoError,
>)
    ensures
        outcome(result) == step_after_link(name@, *linking, verdict(checked)),
{
    match linking {
        Linking::Linked => match checked {
            Ok(_) => Ok(ImportStep::Done { name }),
            Err(failure) => Err(failure),
        },
        Linking::Occupied => match checked {
            Ok(_) => Ok(ImportStep::Done { name }),
            Err(_) => Ok(ImportStep::Choose),
        },
        Linking::Failed { detail } => Err(
            MkoError::new("provider_import_failed", detail.as_str()),
        ),
    }
}

/// An import ends only where what stands under the name was checked to be the PDF, and it
/// never takes a name under which something else stands.
pub proof fn finished_imports_hold_the_pdf(
    name: Seq<char>,
    standing: Option<Result<(), ErrorView>>,
    linking: Linking,
    checked: Result<(), ErrorView>,
)
    ensures
        step_after_name(name, standing) is Done ==> standing is Some && standing->0 is Ok,
        step_after_name(name, standing) is Copy ==> standing is None,
        step_after_link(name, linking, checked) matches Ok(step) && step is Done
            ==> checked is Ok,
{
}

/// What stands at a path that the library keeps to itself.
#[derive(Clone, Copy, Debug, PartialEq, Eq, Structural)]
pub enum ReservedEntry {
    Absent,
    /// A directory, for a directory path; a regular file, for a file path.
    Expected,
    /// Anything else, links among it.
    Foreign,
}

/// How the reserved directory for temporary files is made ready.
#[derive(Clone, Copy, Debug, PartialEq, Eq, Structural)]
pub struct TempRootPlan {
    pub publish_claim: bool,
    pub replace_invalid_claim: bool,
    pub remove_root: bool,
}

/// The reserved directory is reset only when it can be told to be ours: by the claim
/// beside it, or by the marker inside it.
pub fn reset_reserved_temp_root(
    root: ReservedEntry,
    claim_valid: bool,
    root_marker_valid: bool,
) -> (result: Result<TempRootPlan, MkoError>)
    ensures
        match result {
            Ok(plan) => {
                &&& root != ReservedEntry::Foreign
                &&& root == ReservedEntry::Expected ==> claim_valid || root_marker_valid
                &&& plan.publish_claim == !claim_valid
                &&& plan.replace_invalid_claim == (root == ReservedEntry::Expected
                    && root_marker_valid)
                &&& plan.remove_root == (root == ReservedEntry::Expected)
            },
            Err(failure) => {
                ||| root == ReservedEntry::Foreign && failure.deep_view() == error(
                    "provider_import_failed"@,
                    "reserved import temp path must be a non-link directory"@,
                )
                ||| root == ReservedEntry::Expected && !claim_valid && !root_marker_valid
                    && failure.deep_view() == error(
                    "provider_import_failed"@,
                    "reserved import temp directory is not attributable to Core"@,
                )
            },
        },
{
    let root_exists = match root {
        ReservedEntry::Foreign => {
            return Err(
                MkoError::new(
                    "provider_import_failed",
                    "reserved import temp path must be a non-link directory",
                ),
            );
        },
        ReservedEntry::Expected => true,
        ReservedEntry::Absent => false,
    };
    let marker = root_exists && root_marker_valid;
    if root_exists && !claim_valid && !marker {
        return Err(
            MkoError::new(
                "provider_import_failed",
                "reserved import temp directory is not attributable to Core",
            ),
        );
    }
    Ok(
        TempRootPlan {
            publish_claim: !claim_valid,
            replace_invalid_claim: marker,
            remove_root: root_exists,
        },
    )
}

/// Whether the file in the way of an owner claim is removed first; a file that may not be
/// replaced, and anything that is no regular file, is refused.
pub fn publish_owner_claim(entry: ReservedEntry, replace_invalid_claim: bool) -> (result: Result<
    bool,
    MkoError,
>)
    ensures
        outcome(result) == (if entry == ReservedEntry::Absent {
            Ok(false)
        } else if entry == ReservedEntry::Expected && replace_invalid_claim {
            Ok(true)
        } else {
            Err(
                error(
                    "provider_import_failed"@,
                    "import temp owner claim must be a regular non-link file"@,
                ),
            )
        }),
{
    match entry {
        ReservedEntry::Absent => Ok(false),
        _ => {
            if entry == ReservedEntry::Expected && replace_invalid_claim {
                Ok(true)
            } else {
                Err(
                    MkoError::new(
                        "provider_import_failed",
                        "import temp owner claim must be a regular non-link file",
                    ),
                )
            }
        },
    }
}

/// What an ownership marker must hold to be ours.
pub const IMPORT_TEMP_MARKER: &'static str = "mko-import-temp-v1\n";

/// What the claim beside the reserved directory must hold to be ours.
pub const IMPORT_TEMP_OWNER_CLAIM: &'static str = "mko-import-temp-owner-v1\n";

/// Whether a marker is there and holds what it must; `content` is what a regular file
/// holds. Anything but a regular file is refused.
pub fn ownership_marker_matches(entry: ReservedEntry, content: &str, expected: &str) -> (result:
    Result<bool, MkoError>)
    ensures
        outcome(result) == (match entry {
            ReservedEntry::Absent => Ok(false),
            ReservedEntry::Expected => Ok(content@ == expected@),
            ReservedEntry::Foreign => Err(
                error(
                    "provider_import_failed"@,
                    "import temp ownership marker must be a regular non-link file"@,
                ),
            ),
        }),
{
    match entry {
        ReservedEntry::Absent => Ok(false),
        ReservedEntry::Expected => Ok(same(content, expected)),
        ReservedEntry::Foreign => Err(
            MkoError::new(
                "provider_import_failed",
                "import temp ownership marker must be a regular non-link file",
            ),
        ),
    }
}

/// The file that a path led to is added only where it is a regular file, and still the one
/// that stands at the resolved path.
pub fn check_opened_source(is_regular: bool, is_link: bool, still_there: bool) -> (result: Result<
    (),
    MkoError,
>)
    ensures
        verdict(result) == (if !is_regular || is_link {
            Err(error("file_unreadable"@, "add input must be a regular non-link file"@))
        } else if !still_there {
            Err(error("file_unreadable"@, "add input changed while it was being opened"@))
        } else {
            Ok(())
        }),
{
    if !is_regular || is_link {
        return Err(MkoError::new("file_unreadable", "add input must be a regular non-link file"));
    }
    if !still_there {
        return Err(
            MkoError::new("file_unreadable", "add input changed while it was being opened"),
        );
    }
    Ok(())
}

/// The lock on names in the inbox is held through the file that stands at its path, and
/// that is a regular one.
pub fn validate_retained_import_lock(
    retained_is_regular: bool,
    current_is_regular: bool,
    same_file: bool,
) -> (result: Result<(), MkoError>)
    ensures
        verdict(result) == (if retained_is_regular && current_is_regular && same_file {
            Ok(())
        } else {
            Err(
                error(
                    "provider_import_locked"@,
                    "provider import lock must remain the intended regular non-link file"@,
                ),
            )
        }),
{
    if !retained_is_regular || !current_is_regular || !same_file {
        return Err(
            MkoError::new(
                "provider_import_locked",
                "provider import lock must remain the intended regular non-link file",
            ),
        );
    }
    Ok(())
}

/// How a try at the lock on names in the inbox went.
#[derive(Clone, Debug, PartialEq, Eq)]
pub enum ImportLockTry {
    Taken,
    /// Someone else holds it; `expired` once the time to wait is over.
    Held { expired: bool },
    Failed { detail: String },
}

/// Whether the lock is taken; while it is not, it is tried again until the time is over.
pub fn import_lock_taken(attempt: &ImportLockTry) -> (result: Result<bool, MkoError>)
    ensures
        outcome(result) == (match *attempt {
            ImportLockTry::Taken => Ok(true),
            ImportLockTry::Held { expired } => if expired {
                Err(
                    error(
                        "provider_import_locked"@,
                        "another PDF import still owns the provider naming lock"@,
                    ),
                )
            } else {
                Ok(false)
            },
            ImportLockTry::Failed { detail } => Err(error("provider_import_locked"@, detail@)),
        }),
{
    match attempt {
        ImportLockTry::Taken => Ok(true),
        ImportLockTry::Held { expired } => {
            if *expired {
                Err(
                    MkoError::new(
                        "provider_import_locked",
                        "another PDF import still owns the provider naming lock",
                    ),
                )
            } else {
                Ok(false)
            }
        },
        ImportLockTry::Failed { detail } => Err(
            MkoError::new("provider_import_locked", detail.as_str()),
        ),
    }
}

/// The token of an import: the process and a number that it gives out once.
pub fn import_owner_token(process_id: u32, number: u64) -> (token: String)
    ensures
        token@ == decimal_digits(process_id as nat) + "-"@ + decimal_digits(number as nat),
{
    cat3(decimal(process_id as u64).as_str(), "-", decimal(number).as_str())
}

/// The name of the copy that is made before an import is published.
pub fn import_temporary_name(destination_name: &str, number: u64) -> (name: String)
    ensures
        name@ == destination_name@ + "."@ + decimal_digits(number as nat) + ".import.tmp"@,
{
    cat4(destination_name, ".", decimal(number).as_str(), ".import.tmp")
}

/// What an import lock says of its owner.
pub fn import_lock_record(process_id: u32, host: &str, token: &str) -> (record: String)
    ensures
        record@ == "pid="@ + decimal_digits(process_id as nat) + "\nhost="@ + host@
            + "\ntoken="@ + token@ + "\n"@,
{
    let id = decimal(process_id as u64);
    let mut record = cat5("pid=", id.as_str(), "\nhost=", host, "\ntoken=");
    record.append(token);
    record.append("\n");
    record
}

proof fn pdf_at_is_listed(pdfs: Seq<ProviderPdfView>, locator: Seq<char>)
    requires
        pdf_at(pdfs, locator) is Some,
    ensures
        pdfs.contains(pdf_at(pdfs, locator)->0),
        pdf_at(pdfs, locator)->0.provider_locator == locator,
    decreases pdfs.len(),
{
    if pdfs[0].provider_locator == locator {
        assert(pdfs[0] == pdf_at(pdfs, locator)->0);
    } else {
        pdf_at_is_listed(pdfs.drop_first(), locator);
        let rest = pdfs.drop_first();
        let k = choose|k: int| 0 <= k < rest.len() && rest[k] == pdf_at(pdfs, locator)->0;
        assert(pdfs[k + 1] == rest[k]);
    }
}

proof fn pdf_with_content_is_listed(pdfs: Seq<ProviderPdfView>, snapshot: FileSnapshotView)
    requires
        pdf_with_content(pdfs, snapshot) is Some,
    ensures
        pdfs.contains(pdf_with_content(pdfs, snapshot)->0),
        has_content(pdf_with_content(pdfs, snapshot)->0, snapshot),
    decreases pdfs.len(),
{
    if has_content(pdfs[0], snapshot) {
        assert(pdfs[0] == pdf_with_content(pdfs, snapshot)->0);
    } else {
        pdf_with_content_is_listed(pdfs.drop_first(), snapshot);
        let rest = pdfs.drop_first();
        let k = choose|k: int|
            0 <= k < rest.len() && rest[k] == pdf_with_content(pdfs, snapshot)->0;
        assert(pdfs[k + 1] == rest[k]);
    }
}

/// Whatever file of the inbox is registered for a PDF, the scan saw it with the very
/// content of the PDF.
pub proof fn registered_files_have_the_content(
    temporary_source: bool,
    attestation: BackupAttestation,
    snapshot: FileSnapshotView,
    inside: Option<InsideFileView>,
    existing: Option<AssetRecordView>,
    pdfs: Seq<ProviderPdfView>,
)
    ensures
        add_plan(temporary_source, attestation, snapshot, inside, existing, pdfs) matches Ok(
            AddPlanView::Use { relative_path, .. },
        ) ==> scan_saw(pdfs, relative_path, snapshot),
{
    match (existing, inside) {
        (Some(asset), _) => {
            if pdf_at(pdfs, asset.provider.locator) is Some {
                pdf_at_is_listed(pdfs, asset.provider.locator);
                let persisted = pdf_at(pdfs, asset.provider.locator)->0;
                let k = choose|k: int| 0 <= k < pdfs.len() && pdfs[k] == persisted;
                assert(pdfs[k].relative_path == persisted.relative_path);
            }
        },
        (None, Some(file)) => {},
        (None, None) => {
            if pdf_with_content(pdfs, snapshot) is Some {
                pdf_with_content_is_listed(pdfs, snapshot);
                let pdf = pdf_with_content(pdfs, snapshot)->0;
                let k = choose|k: int| 0 <= k < pdfs.len() && pdfs[k] == pdf;
                assert(pdfs[k].relative_path == pdf.relative_path);
            }
        },
    }
}

/// A PDF that has no copy but the one in the inbox, and a temporary one, are not added
/// before a person has verified a second copy.
pub proof fn only_copies_need_a_backup(
    temporary_source: bool,
    snapshot: FileSnapshotView,
    inside: Option<InsideFileView>,
    existing: Option<AssetRecordView>,
    pdfs: Seq<ProviderPdfView>,
)
    requires
        temporary_source || (inside is Some && existing is None),
    ensures
        add_plan(
            temporary_source,
            BackupAttestation::OutsideOriginalRetained,
            snapshot,
            inside,
            existing,
            pdfs,
        ) == Err::<AddPlanView, ErrorView>(backup_required()),
{
}

/// A PDF whose content the inbox already holds is not copied a second time.
pub proof fn known_content_is_not_copied(
    temporary_source: bool,
    attestation: BackupAttestation,
    snapshot: FileSnapshotView,
    inside: Option<InsideFileView>,
    existing: Option<AssetRecordView>,
    pdfs: Seq<ProviderPdfView>,
    k: int,
)
    requires
        0 <= k < pdfs.len(),
        has_content(pdfs[k], snapshot),
    ensures
        add_plan(temporary_source, attestation, snapshot, inside, existing, pdfs) != Ok::<
            AddPlanView,
            ErrorView,
        >(AddPlanView::Import),
{
    if inside is None && existing is None {
        content_is_found(pdfs, snapshot, k);
    }
}

proof fn content_is_found(pdfs: Seq<ProviderPdfView>, snapshot: FileSnapshotView, k: int)
    requires
        0 <= k < pdfs.len(),
        has_content(pdfs[k], snapshot),
    ensures
        pdf_with_content(pdfs, snapshot) is Some,
    decreases pdfs.len(),
{
    if !has_content(pdfs[0], snapshot) {
        assert(pdfs.drop_first()[k - 1] == pdfs[k]);
        content_is_found(pdfs.drop_first(), snapshot, k - 1);
    }
}

/// Whatever name an import takes, no other content stands under it or under a name that
/// some file system takes for the same.
pub proof fn imports_never_overwrite(
    names: Seq<Option<Seq<char>>>,
    identical: Seq<Seq<char>>,
    source_name: Seq<char>,
    fingerprint: FingerprintView,
)
    ensures
        destination_name(names, identical, source_name, fingerprint) matches Ok(name)
            ==> usable_name(names, identical, name) == Ok::<bool, ErrorView>(true),
{
    if usable_name(names, identical, source_name) == Ok::<bool, ErrorView>(false) && file_name(
        source_name,
    ) is Some {
        hashed_names_are_usable(
            names,
            identical,
            name_stem(file_name(source_name)->0),
            fingerprint,
            12,
        );
    }
}

proof fn hashed_names_are_usable(
    names: Seq<Option<Seq<char>>>,
    identical: Seq<Seq<char>>,
    stem: Seq<char>,
    fingerprint: FingerprintView,
    len: int,
)
    ensures
        hashed_name(names, identical, stem, fingerprint, len) matches Ok(name) ==> usable_name(
            names,
            identical,
            name,
        ) == Ok::<bool, ErrorView>(true),
    decreases 68 - len,
{
    if len <= 64 {
        hashed_names_are_usable(names, identical, stem, fingerprint, len + 4);
    }
}

} // verus!

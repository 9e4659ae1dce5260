//! The first version of the machine-readable command results.

use crate::text::copy_option;
use vstd::prelude::*;

verus! {

/// The command that a result answers.
#[derive(Clone, Copy, Debug, PartialEq, Eq, Structural)]
pub enum JsonV1Command {
    Add,
    SourcePrepare,
    SourceWriteDraft,
    Check,
    Inbox,
    Status,
    Doctor,
}

#[derive(Clone, Copy, Debug, PartialEq, Eq, Structural)]
pub enum SuccessResult {
    Succeeded,
}

#[derive(Clone, Copy, Debug, PartialEq, Eq, Structural)]
pub enum FailureResult {
    Error,
}

/// Whether an Asset was registered by this call or before it.
#[derive(Clone, Copy, Debug, PartialEq, Eq, Structural)]
pub enum AddOutcome {
    Created,
    Existing,
}

/// How a PDF came to stand in the inbox.
#[derive(Clone, Copy, Debug, PartialEq, Eq, Structural)]
pub enum ImportOutcome {
    Copied,
    AlreadyInInbox,
    ReusedInboxCopy,
}

/// Where an inbox item stands, as a person sees it.
#[derive(Clone, Copy, Debug, PartialEq, Eq, PartialOrd, Ord, Structural)]
pub enum UserState {
    New,
    Registered,
    Incomplete,
    ReviewPending,
    Processed,
    Blocked,
}

/// What to do next.
#[derive(Clone, Copy, Debug, PartialEq, Eq, Structural)]
pub enum NextAction {
    Nothing,
    Configure,
    Hydrate,
    Add,
    Prepare,
    WriteDraft,
    Review,
    Repair,
    Retry,
}

#[derive(Clone, Copy, Debug, PartialEq, Eq, Structural)]
pub enum DraftOutcome {
    Created,
    Existing,
    Replaced,
}

/// The kind of help that a failed operation needs.
#[derive(Clone, Copy, Debug, PartialEq, Eq, Structural)]
pub enum RecoveryKind {
    Configure,
    Hydrate,
    VerifyBackup,
    FixPermissions,
    ResolveHookConflict,
    Retry,
    Repair,
}

#[derive(Clone, Copy, Debug, PartialEq, Eq, Structural)]
pub enum DoctorCheckStatus {
    Healthy,
    Warning,
    Blocked,
}

#[derive(Clone, Copy, Debug, PartialEq, Eq, Structural)]
pub struct Recovery {
    pub kind: RecoveryKind,
}

#[derive(Clone, Debug, PartialEq, Eq)]
pub struct AddData {
    pub add_outcome: AddOutcome,
    pub import_outcome: ImportOutcome,
    pub repository: String,
    pub asset_id: String,
    pub registry_path: String,
    pub provider_locator: String,
}

#[verifier::ext_equal]
pub struct AddDataView {
    pub add_outcome: AddOutcome,
    pub import_outcome: ImportOutcome,
    pub repository: Seq<char>,
    pub asset_id: Seq<char>,
    pub registry_path: Seq<char>,
    pub provider_locator: Seq<char>,
}

impl DeepView for AddData {
    type V = AddDataView;

    open spec fn deep_view(&self) -> AddDataView {
        AddDataView {
            add_outcome: self.add_outcome,
            import_outcome: self.import_outcome,
            repository: self.repository@,
            asset_id: self.asset_id@,
            registry_path: self.registry_path@,
            provider_locator: self.provider_locator@,
        }
    }
}

/// A failure as it is reported.
#[derive(Clone, Debug, PartialEq, Eq)]
pub struct JsonV1Error {
    pub code: String,
    pub message: String,
    pub recovery: Option<Recovery>,
}

#[verifier::ext_equal]
pub struct JsonV1ErrorView {
    pub code: Seq<char>,
    pub message: Seq<char>,
    pub recovery: Option<Recovery>,
}

impl DeepView for JsonV1Error {
    type V = JsonV1ErrorView;

    open spec fn deep_view(&self) -> JsonV1ErrorView {
        JsonV1ErrorView {
            code: self.code@,
            message: self.message@,
            recovery: self.recovery,
        }
    }
}

#[derive(Clone, Debug, PartialEq, Eq)]
pub struct BatchItemData {
    pub provider_locator: String,
    pub user_state: UserState,
    pub next_action: NextAction,
    pub asset_id: Option<String>,
    pub add_outcome: Option<AddOutcome>,
    pub error: Option<JsonV1Error>,
}

#[verifier::ext_equal]
pub struct BatchItemDataView {
    pub provider_locator: Seq<char>,
    pub user_state: UserState,
    pub next_action: NextAction,
    pub asset_id: Option<Seq<char>>,
    pub add_outcome: Option<AddOutcome>,
    pub error: Option<JsonV1ErrorView>,
}

impl DeepView for BatchItemData {
    type V = BatchItemDataView;

    open spec fn deep_view(&self) -> BatchItemDataView {
        BatchItemDataView {
            provider_locator: self.provider_locator@,
            user_state: self.user_state,
            next_action: self.next_action,
            asset_id: self.asset_id.deep_view(),
            add_outcome: self.add_outcome,
            error: self.error.deep_view(),
        }
    }
}

#[derive(Clone, Debug, PartialEq, Eq)]
pub struct BatchAddData {
    pub scan_complete: bool,
    pub items: Vec<BatchItemData>,
    pub remaining: u64,
}

#[verifier::ext_equal]
pub struct BatchAddDataView {
    pub scan_complete: bool,
    pub items: Seq<BatchItemDataView>,
    pub remaining: u64,
}

impl DeepView for BatchAddData {
    type V = BatchAddDataView;

    open spec fn deep_view(&self) -> BatchAddDataView {
        BatchAddDataView {
            scan_complete: self.scan_complete,
            items: self.items.deep_view(),
            remaining: self.remaining,
        }
    }
}

#[derive(Clone, Debug, PartialEq, Eq)]
pub enum AddPayload {
    Single(AddData),
    Batch(BatchAddData),
}

#[derive(Clone, Debug, PartialEq, Eq)]
pub struct PrepareData {
    pub asset_id: String,
    pub source_id: String,
    pub bundle_path: String,
}

#[verifier::ext_equal]
pub struct PrepareDataView {
    pub asset_id: Seq<char>,
    pub source_id: Seq<char>,
    pub bundle_path: Seq<char>,
}

impl DeepView for PrepareData {
    type V = PrepareDataView;

    open spec fn deep_view(&self) -> PrepareDataView {
        PrepareDataView {
            asset_id: self.asset_id@,
            source_id: self.source_id@,
            bundle_path: self.bundle_path@,
        }
    }
}

#[derive(Clone, Debug, PartialEq, Eq)]
pub struct WriteDraftData {
    pub draft_outcome: DraftOutcome,
    pub source_id: String,
    pub source_path: String,
    pub content_revision: String,
}

#[verifier::ext_equal]
pub struct WriteDraftDataView {
    pub draft_outcome: DraftOutcome,
    pub source_id: Seq<char>,
    pub source_path: Seq<char>,
    pub content_revision: Seq<char>,
}

impl DeepView for WriteDraftData {
    type V = WriteDraftDataView;

    open spec fn deep_view(&self) -> WriteDraftDataView {
        WriteDraftDataView {
            draft_outcome: self.draft_outcome,
            source_id: self.source_id@,
            source_path: self.source_path@,
            content_revision: self.content_revision@,
        }
    }
}

/// A finding about one path, or about none in particular.
#[derive(Clone, Debug, PartialEq, Eq)]
pub struct DiagnosticData {
    pub code: String,
    pub message: String,
    pub path: Option<String>,
}

#[verifier::ext_equal]
pub struct DiagnosticDataView {
    pub code: Seq<char>,
    pub message: Seq<char>,
    pub path: Option<Seq<char>>,
}

impl DeepView for DiagnosticData {
    type V = DiagnosticDataView;

    open spec fn deep_view(&self) -> DiagnosticDataView {
        DiagnosticDataView {
            code: self.code@,
            message: self.message@,
            path: self.path.deep_view(),
        }
    }
}

impl DiagnosticData {
    /// A copy that holds the same.
    pub(crate) fn duplicate(&self) -> (copy: Self)
        ensures
            copy.deep_view() == self.deep_view(),
    {
        DiagnosticData {
            code: self.code.clone(),
            message: self.message.clone(),
            path: copy_option(&self.path),
        }
    }
}

#[derive(Clone, Debug, PartialEq, Eq)]
pub struct CheckData {
    pub valid: bool,
    pub errors: Vec<DiagnosticData>,
    pub warnings: Vec<DiagnosticData>,
}

#[verifier::ext_equal]
pub struct CheckDataView {
    pub valid: bool,
    pub errors: Seq<DiagnosticDataView>,
    pub warnings: Seq<DiagnosticDataView>,
}

impl DeepView for CheckData {
    type V = CheckDataView;

    open spec fn deep_view(&self) -> CheckDataView {
        CheckDataView {
            valid: self.valid,
            errors: self.errors.deep_view(),
            warnings: self.warnings.deep_view(),
        }
    }
}

#[derive(Clone, Debug, PartialEq, Eq)]
pub struct DoctorCheckData {
    pub code: String,
    pub status: DoctorCheckStatus,
    pub message: String,
    pub path: Option<String>,
    pub recovery: Option<Recovery>,
}

#[verifier::ext_equal]
pub struct DoctorCheckDataView {
    pub code: Seq<char>,
    pub status: DoctorCheckStatus,
    pub message: Seq<char>,
    pub path: Option<Seq<char>>,
    pub recovery: Option<Recovery>,
}

impl DeepView for DoctorCheckData {
    type V = DoctorCheckDataView;

    open spec fn deep_view(&self) -> DoctorCheckDataView {
        DoctorCheckDataView {
            code: self.code@,
            status: self.status,
            message: self.message@,
            path: self.path.deep_view(),
            recovery: self.recovery,
        }
    }
}

#[derive(Clone, Debug, PartialEq, Eq)]
pub struct DoctorData {
    pub healthy: bool,
    pub checks: Vec<DoctorCheckData>,
    pub next_action: NextAction,
}

#[verifier::ext_equal]
pub struct DoctorDataView {
    pub healthy: bool,
    pub checks: Seq<DoctorCheckDataView>,
    pub next_action: NextAction,
}

impl DeepView for DoctorData {
    type V = DoctorDataView;

    open spec fn deep_view(&self) -> DoctorDataView {
        DoctorDataView {
            healthy: self.healthy,
            checks: self.checks.deep_view(),
            next_action: self.next_action,
        }
    }
}

/// The bounds that a scan of the inbox ran under.
#[derive(Clone, Copy, Debug, PartialEq, Eq, Structural)]
pub struct ScanLimitsData {
    pub max_entries: u64,
    pub max_total_bytes: u64,
    pub max_elapsed_ms: u64,
    pub max_depth: u64,
    pub max_batch_items: u64,
}

/// How many items stand in each state.
#[derive(Clone, Copy, Debug, PartialEq, Eq, Structural)]
pub struct StateCounts {
    pub fresh: u64,
    pub registered: u64,
    pub incomplete: u64,
    pub review_pending: u64,
    pub processed: u64,
    pub blocked: u64,
}

#[derive(Clone, Debug, PartialEq, Eq)]
pub struct InboxItemData {
    pub provider_locator: String,
    pub user_state: UserState,
    pub asset_id: Option<String>,
    pub next_action: NextAction,
}

#[verifier::ext_equal]
pub struct InboxItemDataView {
    pub provider_locator: Seq<char>,
    pub user_state: UserState,
    pub asset_id: Option<Seq<char>>,
    pub next_action: NextAction,
}

impl DeepView for InboxItemData {
    type V = InboxItemDataView;

    open spec fn deep_view(&self) -> InboxItemDataView {
        InboxItemDataView {
            provider_locator: self.provider_locator@,
            user_state: self.user_state,
            asset_id: self.asset_id.deep_view(),
            next_action: self.next_action,
        }
    }
}

#[derive(Clone, Debug, PartialEq, Eq)]
pub struct InboxData {
    pub scan_complete: bool,
    pub scan_limits: ScanLimitsData,
    pub items: Vec<InboxItemData>,
    pub errors: Vec<DiagnosticData>,
    pub warnings: Vec<DiagnosticData>,
}

#[verifier::ext_equal]
pub struct InboxDataView {
    pub scan_complete: bool,
    pub scan_limits: ScanLimitsData,
    pub items: Seq<InboxItemDataView>,
    pub errors: Seq<DiagnosticDataView>,
    pub warnings: Seq<DiagnosticDataView>,
}

impl DeepView for InboxData {
    type V = InboxDataView;

    open spec fn deep_view(&self) -> InboxDataView {
        InboxDataView {
            scan_complete: self.scan_complete,
            scan_limits: self.scan_limits,
            items: self.items.deep_view(),
            errors: self.errors.deep_view(),
            warnings: self.warnings.deep_view(),
        }
    }
}

#[derive(Clone, Debug, PartialEq, Eq)]
pub struct StatusData {
    pub healthy: bool,
    pub counts: StateCounts,
    pub primary_blocker: Option<DiagnosticData>,
    pub next_action: NextAction,
}

#[verifier::ext_equal]
pub struct StatusDataView {
    pub healthy: bool,
    pub counts: StateCounts,
    pub primary_blocker: Option<DiagnosticDataView>,
    pub next_action: NextAction,
}

impl DeepView for StatusData {
    type V = StatusDataView;

    open spec fn deep_view(&self) -> StatusDataView {
        StatusDataView {
            healthy: self.healthy,
            counts: self.counts,
            primary_blocker: self.primary_blocker.deep_view(),
            next_action: self.next_action,
        }
    }
}

#[derive(Clone, Debug, PartialEq, Eq)]
pub enum JsonV1Success {
    Add { schema_version: u32, result: SuccessResult, data: AddPayload },
    SourcePrepare { schema_version: u32, result: SuccessResult, data: PrepareData },
    SourceWriteDraft { schema_version: u32, result: SuccessResult, data: WriteDraftData },
    Check { schema_version: u32, result: SuccessResult, data: CheckData },
    Inbox { schema_version: u32, result: SuccessResult, data: InboxData },
    Status { schema_version: u32, result: SuccessResult, data: StatusData },
    Doctor { schema_version: u32, result: SuccessResult, data: DoctorData },
}

#[derive(Clone, Debug, PartialEq, Eq)]
pub struct JsonV1Failure {
    pub schema_version: u32,
    pub command: JsonV1Command,
    pub result: FailureResult,
    pub error: JsonV1Error,
}

/// The version of every answer of this form.
pub const JSON_SCHEMA_VERSION_V1: u32 = 1;

/// The version of an answer that is read must be the one of this form.
pub fn accept_schema_version(version: u32) -> (result: Result<u32, String>)
    ensures
        match result {
            Ok(accepted) => accepted == version && version == JSON_SCHEMA_VERSION_V1,
            Err(message) => version != JSON_SCHEMA_VERSION_V1 && message@
                == "schema_version must be 1"@,
        },
{
    if version == JSON_SCHEMA_VERSION_V1 {
        Ok(version)
    } else {
        Err("schema_version must be 1".to_owned())
    }
}

} // verus!

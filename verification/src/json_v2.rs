//! The answers of the command line, in their second form.

use vstd::prelude::*;

verus! {

/// The version that every answer carries.
pub const JSON_SCHEMA_VERSION_V2: u32 = 2;

#[derive(Clone, Copy, Debug, PartialEq, Eq, Structural)]
pub enum JsonV2Command {
    CaptureValidate,
    CaptureRoute,
    TelegramStatus,
    SetupPlan,
    SetupApply,
    Add,
    SourcePrepare,
    SourceWrite,
    KnowledgeWrite,
    Check,
    Status,
    Queue,
    Show,
    ReviewOpen,
    ReviewFeedback,
    Dashboard,
    Doctor,
    SyncStatus,
}

#[derive(Clone, Copy, Debug, PartialEq, Eq, Structural)]
pub enum JsonV2SuccessResult {
    Succeeded,
}

#[derive(Clone, Copy, Debug, PartialEq, Eq, Structural)]
pub enum JsonV2FailureResult {
    Error,
}

#[derive(Clone, Copy, Debug, PartialEq, Eq, Structural)]
pub enum QueueItemTypeV2 {
    Source,
    Knowledge,
    Combined,
}

#[derive(Clone, Copy, Debug, PartialEq, Eq, Structural)]
pub enum QueueItemStateV2 {
    Unreviewed,
    Deferred,
    ChangesRequested,
    RevisedUnreviewed,
    Blocked,
}

#[derive(Clone, Copy, Debug, PartialEq, Eq, Structural)]
pub enum QueueNextActionV2 {
    Display,
    Regenerate,
    Diagnose,
}

#[derive(Clone, Debug, PartialEq, Eq)]
pub struct QueueItemV2 {
    pub item_id: String,
    pub target_ids: Vec<String>,
    pub title: String,
    pub item_type: QueueItemTypeV2,
    pub state: QueueItemStateV2,
    pub revisions: Vec<String>,
    pub next_action: QueueNextActionV2,
}

#[derive(Clone, Debug, PartialEq, Eq)]
pub struct QueueDataV2 {
    pub items: Vec<QueueItemV2>,
    pub scan_complete: bool,
    pub remaining: u64,
    pub next_cursor: Option<String>,
}

#[derive(Clone, Copy, Debug, PartialEq, Eq, Structural)]
pub enum ReviewTargetStateV2 {
    Unreviewed,
    Deferred,
    ChangesRequested,
    RevisedUnreviewed,
    Approved,
    Blocked,
}

#[derive(Clone, Debug, PartialEq, Eq)]
pub struct ShowTargetV2 {
    pub record_id: String,
    pub displayed_revision: String,
    pub review_head_id: Option<String>,
    pub state: ReviewTargetStateV2,
}

#[derive(Clone, Debug, PartialEq, Eq)]
pub struct ShowDataV2 {
    pub item_id: String,
    pub card_markdown: String,
    pub card_digest: String,
    pub effect_digest: String,
    pub targets: Vec<ShowTargetV2>,
}

#[derive(Clone, Debug, PartialEq, Eq)]
pub struct ReviewFeedbackDataV2 {
    pub review_id: String,
    pub target_ids: Vec<String>,
}

#[derive(Clone, Copy, Debug, PartialEq, Eq, Structural)]
pub enum AddOutcomeV2 {
    Created,
    Existing,
}

#[derive(Clone, Debug, PartialEq, Eq)]
pub struct AddSingleDataV2 {
    pub asset_id: String,
    pub outcome: AddOutcomeV2,
    pub registry_path: String,
    pub logical_locator: String,
}

#[derive(Clone, Debug, PartialEq, Eq)]
pub struct AddBatchItemErrorV2 {
    pub code: String,
    pub message: String,
    pub next_action: NextActionV2,
}

#[derive(Clone, Debug, PartialEq, Eq)]
pub struct AddBatchItemV2 {
    pub logical_locator: String,
    pub asset_id: Option<String>,
    pub outcome: Option<AddOutcomeV2>,
    pub error: Option<AddBatchItemErrorV2>,
}

#[derive(Clone, Debug, PartialEq, Eq)]
pub struct AddBatchWarningV2 {
    pub code: String,
    pub message: String,
    pub logical_locator: Option<String>,
}

#[derive(Clone, Debug, PartialEq, Eq)]
pub struct AddBatchDataV2 {
    pub items: Vec<AddBatchItemV2>,
    pub scan_complete: bool,
    pub remaining: u64,
    pub warnings: Vec<AddBatchWarningV2>,
}

#[derive(Clone, Debug, PartialEq, Eq)]
pub enum AddDataV2 {
    Single(AddSingleDataV2),
    Batch(AddBatchDataV2),
}

#[derive(Clone, Copy, Debug, PartialEq, Eq, Structural)]
pub enum SourcePrepareOutcomeV2 {
    Created,
    Existing,
}

#[derive(Clone, Debug, PartialEq, Eq)]
pub struct SourcePrepareDataV2 {
    pub asset_id: String,
    pub bundle_id: String,
    pub content_digest: String,
    pub bundle_path: String,
    pub outcome: SourcePrepareOutcomeV2,
}

#[derive(Clone, Copy, Debug, PartialEq, Eq, Structural)]
pub enum SemanticWriteOutcomeV2 {
    Created,
    Existing,
    Replaced,
}

#[derive(Clone, Copy, Debug, PartialEq, Eq, Structural)]
pub enum ProjectionStateV2 {
    Current,
    RepairRequired,
    Stale,
}

#[derive(Clone, Debug, PartialEq, Eq)]
pub struct RecordWriteDataV2 {
    pub record_id: String,
    pub revision: String,
    pub revision_path: String,
    pub current_path: String,
    pub outcome: SemanticWriteOutcomeV2,
    pub projection_state: ProjectionStateV2,
}

#[derive(Clone, Copy, Debug, PartialEq, Eq, Structural)]
pub enum NextActionV2 {
    Nothing,
    Configure,
    Hydrate,
    Add,
    Prepare,
    WriteSource,
    WriteKnowledge,
    Review,
    Repair,
    PreserveUserEdit,
    Retry,
    Sync,
    ConfirmRouting,
}

#[derive(Clone, Copy, Debug, PartialEq, Eq, Structural)]
pub enum CaptureChannelV2 {
    Telegram,
}

#[derive(Clone, Copy, Debug, PartialEq, Eq, Structural)]
pub enum CaptureInputTypeV2 {
    TelegramPdf,
    Youtube,
    Text,
}

#[derive(Clone, Copy, Debug, PartialEq, Eq, Structural)]
pub enum CaptureScopeV2 {
    General,
    Finance,
}

#[derive(Clone, Copy, Debug, PartialEq, Eq, Structural)]
pub enum CaptureRouteOutcomeV2 {
    ReadyGeneral,
    ReadyFinance,
    GeneralConfirmationRequired,
    FinanceConfirmationRequired,
    RoutingConfirmationRequired,
    Rejected,
}

#[derive(Clone, Copy, Debug, PartialEq, Eq, Structural)]
pub enum CaptureRoutingAuthorityV2 {
    UserSelected,
    UserConfirmedProposal,
}

#[derive(Clone, Copy, Debug, PartialEq, Eq, Structural)]
pub enum CaptureRoutingRejectionV2 {
    ConfirmationRequiresProposal,
    ConfirmationDoesNotMatchProposal,
    ConfirmationCannotResolveMixedOrConflictingProposal,
}

#[derive(Clone, Copy, Debug, PartialEq, Eq, Structural)]
pub enum TelegramConnectionStateV2 {
    Disconnected,
    Connected,
    Incomplete,
}

#[derive(Clone, Debug, PartialEq, Eq)]
pub struct TelegramStatusDataV2 {
    pub profile_id: String,
    pub state: TelegramConnectionStateV2,
    pub bot_username: Option<String>,
    pub primary_device_id: Option<String>,
    pub next_action: NextActionV2,
}

#[derive(Clone, Debug, PartialEq, Eq)]
pub struct CaptureProposalDataV2 {
    pub proposed_scope: CaptureScopeV2,
    pub confidence: u8,
    pub mixed_subjects: bool,
    pub conflicting: bool,
}

#[derive(Clone, Debug, PartialEq, Eq)]
pub struct CaptureValidateDataV2 {
    pub capture_id: String,
    pub channel: CaptureChannelV2,
    pub input_type: CaptureInputTypeV2,
    pub selected_scope: Option<CaptureScopeV2>,
}

#[derive(Clone, Debug, PartialEq, Eq)]
pub struct CaptureRouteDataV2 {
    pub capture_id: String,
    pub outcome: CaptureRouteOutcomeV2,
    pub confirmed_scope: Option<CaptureScopeV2>,
    pub routing_authority: Option<CaptureRoutingAuthorityV2>,
    pub proposal: Option<CaptureProposalDataV2>,
    pub next_action: NextActionV2,
    pub rejection_reason: Option<CaptureRoutingRejectionV2>,
}

#[derive(Clone, Copy, Debug, PartialEq, Eq, Structural)]
pub enum DashboardCanonicalStateDataV2 {
    Ready,
    Blocked,
}

#[derive(Clone, Copy, Debug, PartialEq, Eq, Structural)]
pub enum DashboardProjectionStateDataV2 {
    Current,
    RepairRequired,
}

#[derive(Clone, Copy, Debug, PartialEq, Eq, Structural)]
pub enum DashboardFileKindDataV2 {
    ViewDefinition,
    RecordProjection,
}

#[derive(Clone, Copy, Debug, PartialEq, Eq, Structural)]
pub enum DashboardFileStateDataV2 {
    Current,
    Missing,
    Stale,
    UserModified,
    Unowned,
    Orphaned,
}

#[derive(Clone, Debug, PartialEq, Eq)]
pub struct DashboardFileDataV2 {
    pub path: String,
    pub kind: DashboardFileKindDataV2,
    pub manifest_owned: bool,
    pub state: DashboardFileStateDataV2,
    pub next_action: NextActionV2,
}

#[derive(Clone, Debug, PartialEq, Eq)]
pub struct DashboardDataV2 {
    pub canonical_state: DashboardCanonicalStateDataV2,
    pub projection_state: DashboardProjectionStateDataV2,
    pub manifest_owned_drift: bool,
    pub next_action: NextActionV2,
    pub items: Vec<DashboardFileDataV2>,
    pub scan_complete: bool,
    pub remaining: u64,
    pub next_cursor: Option<String>,
}

#[derive(Clone, Debug, PartialEq, Eq)]
pub struct SetupApplyDataV2 {
    pub plan_id: String,
    pub repository_root: String,
    pub provider_root: String,
    pub profile_changed: bool,
}

#[derive(Clone, Debug, PartialEq, Eq)]
pub struct ErrorDetailsV2 {}

#[derive(Clone, Debug, PartialEq, Eq)]
pub struct JsonV2Error {
    pub code: String,
    pub message: String,
    pub retryable: bool,
    pub next_action: NextActionV2,
    pub details: ErrorDetailsV2,
}

#[derive(Clone, Debug, PartialEq, Eq)]
pub struct JsonV2Failure {
    pub schema_version: u32,
    pub command: JsonV2Command,
    pub result: JsonV2FailureResult,
    pub error: JsonV2Error,
}

/// A successful answer, by its command.
#[derive(Clone, Debug, PartialEq, Eq)]
pub enum JsonV2Success {
    CaptureValidate { schema_version: u32, result: JsonV2SuccessResult, data: CaptureValidateDataV2 },
    CaptureRoute { schema_version: u32, result: JsonV2SuccessResult, data: CaptureRouteDataV2 },
    TelegramStatus { schema_version: u32, result: JsonV2SuccessResult, data: TelegramStatusDataV2 },
    SetupApply { schema_version: u32, result: JsonV2SuccessResult, data: SetupApplyDataV2 },
    Add { schema_version: u32, result: JsonV2SuccessResult, data: AddDataV2 },
    SourcePrepare { schema_version: u32, result: JsonV2SuccessResult, data: SourcePrepareDataV2 },
    SourceWrite { schema_version: u32, result: JsonV2SuccessResult, data: RecordWriteDataV2 },
    KnowledgeWrite { schema_version: u32, result: JsonV2SuccessResult, data: RecordWriteDataV2 },
    Queue { schema_version: u32, result: JsonV2SuccessResult, data: QueueDataV2 },
    Show { schema_version: u32, result: JsonV2SuccessResult, data: ShowDataV2 },
    ReviewFeedback { schema_version: u32, result: JsonV2SuccessResult, data: ReviewFeedbackDataV2 },
    Dashboard { schema_version: u32, result: JsonV2SuccessResult, data: DashboardDataV2 },
}

impl JsonV2Success {
    pub fn capture_validate(data: CaptureValidateDataV2) -> (success: Self)
        ensures
            success == (JsonV2Success::CaptureValidate {
                schema_version: JSON_SCHEMA_VERSION_V2,
                result: JsonV2SuccessResult::Succeeded,
                data,
            }),
    {
        JsonV2Success::CaptureValidate {
            schema_version: JSON_SCHEMA_VERSION_V2,
            result: JsonV2SuccessResult::Succeeded,
            data,
        }
    }

    pub fn capture_route(data: CaptureRouteDataV2) -> (success: Self)
        ensures
            success == (JsonV2Success::CaptureRoute {
                schema_version: JSON_SCHEMA_VERSION_V2,
                result: JsonV2SuccessResult::Succeeded,
                data,
            }),
    {
        JsonV2Success::CaptureRoute {
            schema_version: JSON_SCHEMA_VERSION_V2,
            result: JsonV2SuccessResult::Succeeded,
            data,
        }
    }

    pub fn telegram_status(data: TelegramStatusDataV2) -> (success: Self)
        ensures
            success == (JsonV2Success::TelegramStatus {
                schema_version: JSON_SCHEMA_VERSION_V2,
                result: JsonV2SuccessResult::Succeeded,
                data,
            }),
    {
        JsonV2Success::TelegramStatus {
            schema_version: JSON_SCHEMA_VERSION_V2,
            result: JsonV2SuccessResult::Succeeded,
            data,
        }
    }

    pub fn setup_apply(data: SetupApplyDataV2) -> (success: Self)
        ensures
            success == (JsonV2Success::SetupApply {
                schema_version: JSON_SCHEMA_VERSION_V2,
                result: JsonV2SuccessResult::Succeeded,
                data,
            }),
    {
        JsonV2Success::SetupApply {
            schema_version: JSON_SCHEMA_VERSION_V2,
            result: JsonV2SuccessResult::Succeeded,
            data,
        }
    }

    pub fn add(data: AddDataV2) -> (success: Self)
        ensures
            success == (JsonV2Success::Add {
                schema_version: JSON_SCHEMA_VERSION_V2,
                result: JsonV2SuccessResult::Succeeded,
                data,
            }),
    {
        JsonV2Success::Add {
            schema_version: JSON_SCHEMA_VERSION_V2,
            result: JsonV2SuccessResult::Succeeded,
            data,
        }
    }

    pub fn source_prepare(data: SourcePrepareDataV2) -> (success: Self)
        ensures
            success == (JsonV2Success::SourcePrepare {
                schema_version: JSON_SCHEMA_VERSION_V2,
                result: JsonV2SuccessResult::Succeeded,
                data,
            }),
    {
        JsonV2Success::SourcePrepare {
            schema_version: JSON_SCHEMA_VERSION_V2,
            result: JsonV2SuccessResult::Succeeded,
            data,
        }
    }

    pub fn source_write(data: RecordWriteDataV2) -> (success: Self)
        ensures
            success == (JsonV2Success::SourceWrite {
                schema_version: JSON_SCHEMA_VERSION_V2,
                result: JsonV2SuccessResult::Succeeded,
                data,
            }),
    {
        JsonV2Success::SourceWrite {
            schema_version: JSON_SCHEMA_VERSION_V2,
            result: JsonV2SuccessResult::Succeeded,
            data,
        }
    }

    pub fn knowledge_write(data: RecordWriteDataV2) -> (success: Self)
        ensures
            success == (JsonV2Success::KnowledgeWrite {
                schema_version: JSON_SCHEMA_VERSION_V2,
                result: JsonV2SuccessResult::Succeeded,
                data,
            }),
    {
        JsonV2Success::KnowledgeWrite {
            schema_version: JSON_SCHEMA_VERSION_V2,
            result: JsonV2SuccessResult::Succeeded,
            data,
        }
    }

    pub fn queue(data: QueueDataV2) -> (success: Self)
        ensures
            success == (JsonV2Success::Queue {
                schema_version: JSON_SCHEMA_VERSION_V2,
                result: JsonV2SuccessResult::Succeeded,
                data,
            }),
    {
        JsonV2Success::Queue {
            schema_version: JSON_SCHEMA_VERSION_V2,
            result: JsonV2SuccessResult::Succeeded,
            data,
        }
    }

    pub fn show(data: ShowDataV2) -> (success: Self)
        ensures
            success == (JsonV2Success::Show {
                schema_version: JSON_SCHEMA_VERSION_V2,
                result: JsonV2SuccessResult::Succeeded,
                data,
            }),
    {
        JsonV2Success::Show {
            schema_version: JSON_SCHEMA_VERSION_V2,
            result: JsonV2SuccessResult::Succeeded,
            data,
        }
    }

    pub fn review_feedback(data: ReviewFeedbackDataV2) -> (success: Self)
        ensures
            success == (JsonV2Success::ReviewFeedback {
                schema_version: JSON_SCHEMA_VERSION_V2,
                result: JsonV2SuccessResult::Succeeded,
                data,
            }),
    {
        JsonV2Success::ReviewFeedback {
            schema_version: JSON_SCHEMA_VERSION_V2,
            result: JsonV2SuccessResult::Succeeded,
            data,
        }
    }

    pub fn dashboard(data: DashboardDataV2) -> (success: Self)
        ensures
            success == (JsonV2Success::Dashboard {
                schema_version: JSON_SCHEMA_VERSION_V2,
                result: JsonV2SuccessResult::Succeeded,
                data,
            }),
    {
        JsonV2Success::Dashboard {
            schema_version: JSON_SCHEMA_VERSION_V2,
            result: JsonV2SuccessResult::Succeeded,
            data,
        }
    }
}

/// The version of an answer that is read must be the one of this form.
pub fn accept_schema_version(version: u32) -> (result: Result<u32, String>)
    ensures
        match result {
            Ok(accepted) => accepted == version && version == JSON_SCHEMA_VERSION_V2,
            Err(message) => version != JSON_SCHEMA_VERSION_V2 && message@
                == "schema_version must be 2"@,
        },
{
    if version == JSON_SCHEMA_VERSION_V2 {
        Ok(version)
    } else {
        Err("schema_version must be 2".to_owned())
    }
}

} // verus!

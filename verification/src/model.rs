//! The records of the first repository format.

use crate::text::{copy_list, copy_option, copy_plain};
use vstd::prelude::*;

verus! {

/// How far the work on an Asset has come.
#[derive(Clone, Copy, Debug, PartialEq, Eq, Structural)]
pub enum AssetStatus {
    Registered,
    Extracted,
    ReviewPending,
    Processed,
    Changed,
    Missing,
    Superseded,
    Failed,
}

#[derive(Clone, Copy, Debug, PartialEq, Eq, Structural)]
pub enum ReviewStatus {
    Pending,
    Approved,
    Rejected,
}

#[derive(Clone, Copy, Debug, PartialEq, Eq, Structural)]
pub enum Classification {
    Public,
    Personal,
}

#[derive(Clone, Copy, Debug, PartialEq, Eq, Structural)]
pub enum SourceStatus {
    ReviewPending,
    Approved,
    Rejected,
    Stale,
    Archived,
}

#[derive(Clone, Copy, Debug, PartialEq, Eq, Structural)]
pub enum LastSuccessfulStep {
    Registered,
    Extracted,
    Drafted,
    Reviewed,
}

/// A moment in coordinated universal time: seconds since the start of 1970, and the
/// nanoseconds into that second.
#[derive(Clone, Copy, Debug, PartialEq, Eq, Structural)]
pub struct Timestamp {
    pub seconds: i64,
    pub nanos: u32,
}

/// A day of the calendar.
#[derive(Clone, Copy, Debug, PartialEq, Eq, Structural)]
pub struct CalendarDate {
    pub year: i32,
    pub month: u32,
    pub day: u32,
}

/// Where the bytes of an Asset are kept.
#[derive(Clone, Debug, PartialEq, Eq)]
pub struct Provider {
    pub provider_type: String,
    pub locator: String,
    pub revision: Option<String>,
}

#[verifier::ext_equal]
pub struct ProviderView {
    pub provider_type: Seq<char>,
    pub locator: Seq<char>,
    pub revision: Option<Seq<char>>,
}

impl DeepView for Provider {
    type V = ProviderView;

    open spec fn deep_view(&self) -> ProviderView {
        ProviderView {
            provider_type: self.provider_type@,
            locator: self.locator@,
            revision: self.revision.deep_view(),
        }
    }
}

impl Provider {
    /// A copy that holds the same.
    pub(crate) fn duplicate(&self) -> (copy: Self)
        ensures
            copy.deep_view() == self.deep_view(),
    {
        Provider {
            provider_type: self.provider_type.clone(),
            locator: self.locator.clone(),
            revision: copy_option(&self.revision),
        }
    }
}

/// The content identity of a file.
#[derive(Clone, Debug, PartialEq, Eq)]
pub struct Fingerprint {
    pub method: String,
    pub value: String,
}

#[verifier::ext_equal]
pub struct FingerprintView {
    pub method: Seq<char>,
    pub value: Seq<char>,
}

impl DeepView for Fingerprint {
    type V = FingerprintView;

    open spec fn deep_view(&self) -> FingerprintView {
        FingerprintView {
            method: self.method@,
            value: self.value@,
        }
    }
}

impl Fingerprint {
    /// A copy that holds the same.
    pub(crate) fn duplicate(&self) -> (copy: Self)
        ensures
            copy.deep_view() == self.deep_view(),
    {
        Fingerprint {
            method: self.method.clone(),
            value: self.value.clone(),
        }
    }
}

#[derive(Clone, Debug, PartialEq, Eq)]
pub struct LastError {
    pub code: Option<String>,
    pub retryable: bool,
}

#[verifier::ext_equal]
pub struct LastErrorView {
    pub code: Option<Seq<char>>,
    pub retryable: bool,
}

impl DeepView for LastError {
    type V = LastErrorView;

    open spec fn deep_view(&self) -> LastErrorView {
        LastErrorView {
            code: self.code.deep_view(),
            retryable: self.retryable,
        }
    }
}

impl LastError {
    /// A copy that holds the same.
    pub(crate) fn duplicate(&self) -> (copy: Self)
        ensures
            copy.deep_view() == self.deep_view(),
    {
        LastError {
            code: copy_option(&self.code),
            retryable: self.retryable,
        }
    }
}

/// The registry record of one Asset.
#[derive(Clone, Debug, PartialEq, Eq)]
pub struct AssetRecord {
    pub id: String,
    pub record_type: String,
    pub schema_version: u32,
    pub scope: String,
    pub title: String,
    pub classification: Classification,
    pub asset_class: String,
    pub media_type: String,
    pub provider: Provider,
    pub size_bytes: u64,
    pub modified_at: Timestamp,
    pub fingerprint: Fingerprint,
    pub asset_status: AssetStatus,
    pub durable_state_history: Vec<AssetStatus>,
    pub supersedes: Option<String>,
    pub last_successful_step: LastSuccessfulStep,
    pub last_error: LastError,
    pub created_at: Timestamp,
    pub updated_at: Timestamp,
}

#[verifier::ext_equal]
pub struct AssetRecordView {
    pub id: Seq<char>,
    pub record_type: Seq<char>,
    pub schema_version: u32,
    pub scope: Seq<char>,
    pub title: Seq<char>,
    pub classification: Classification,
    pub asset_class: Seq<char>,
    pub media_type: Seq<char>,
    pub provider: ProviderView,
    pub size_bytes: u64,
    pub modified_at: Timestamp,
    pub fingerprint: FingerprintView,
    pub asset_status: AssetStatus,
    pub durable_state_history: Seq<AssetStatus>,
    pub supersedes: Option<Seq<char>>,
    pub last_successful_step: LastSuccessfulStep,
    pub last_error: LastErrorView,
    pub created_at: Timestamp,
    pub updated_at: Timestamp,
}

impl DeepView for AssetRecord {
    type V = AssetRecordView;

    open spec fn deep_view(&self) -> AssetRecordView {
        AssetRecordView {
            id: self.id@,
            record_type: self.record_type@,
            schema_version: self.schema_version,
            scope: self.scope@,
            title: self.title@,
            classification: self.classification,
            asset_class: self.asset_class@,
            media_type: self.media_type@,
            provider: self.provider.deep_view(),
            size_bytes: self.size_bytes,
            modified_at: self.modified_at,
            fingerprint: self.fingerprint.deep_view(),
            asset_status: self.asset_status,
            durable_state_history: self.durable_state_history@,
            supersedes: self.supersedes.deep_view(),
            last_successful_step: self.last_successful_step,
            last_error: self.last_error.deep_view(),
            created_at: self.created_at,
            updated_at: self.updated_at,
        }
    }
}

impl AssetRecord {
    /// A copy that holds the same.
    pub(crate) fn duplicate(&self) -> (copy: Self)
        ensures
            copy.deep_view() == self.deep_view(),
    {
        AssetRecord {
            id: self.id.clone(),
            record_type: self.record_type.clone(),
            schema_version: self.schema_version,
            scope: self.scope.clone(),
            title: self.title.clone(),
            classification: self.classification,
            asset_class: self.asset_class.clone(),
            media_type: self.media_type.clone(),
            provider: self.provider.duplicate(),
            size_bytes: self.size_bytes,
            modified_at: self.modified_at,
            fingerprint: self.fingerprint.duplicate(),
            asset_status: self.asset_status,
            durable_state_history: copy_plain(&self.durable_state_history),
            supersedes: copy_option(&self.supersedes),
            last_successful_step: self.last_successful_step,
            last_error: self.last_error.duplicate(),
            created_at: self.created_at,
            updated_at: self.updated_at,
        }
    }
}

#[derive(Clone, Debug, PartialEq, Eq)]
pub struct Relations {
    pub asset_ids: Vec<String>,
}

#[verifier::ext_equal]
pub struct RelationsView {
    pub asset_ids: Seq<Seq<char>>,
}

impl DeepView for Relations {
    type V = RelationsView;

    open spec fn deep_view(&self) -> RelationsView {
        RelationsView {
            asset_ids: self.asset_ids.deep_view(),
        }
    }
}

impl Relations {
    /// A copy that holds the same.
    pub(crate) fn duplicate(&self) -> (copy: Self)
        ensures
            copy.deep_view() == self.deep_view(),
    {
        Relations {
            asset_ids: copy_list(&self.asset_ids),
        }
    }
}

#[derive(Clone, Debug, PartialEq, Eq)]
pub struct Generation {
    pub extractor_name: String,
    pub extractor_version: String,
    pub core_version: String,
    pub processor_version: String,
    pub prompt_version: String,
    pub asset_fingerprint: String,
}

#[verifier::ext_equal]
pub struct GenerationView {
    pub extractor_name: Seq<char>,
    pub extractor_version: Seq<char>,
    pub core_version: Seq<char>,
    pub processor_version: Seq<char>,
    pub prompt_version: Seq<char>,
    pub asset_fingerprint: Seq<char>,
}

impl DeepView for Generation {
    type V = GenerationView;

    open spec fn deep_view(&self) -> GenerationView {
        GenerationView {
            extractor_name: self.extractor_name@,
            extractor_version: self.extractor_version@,
            core_version: self.core_version@,
            processor_version: self.processor_version@,
            prompt_version: self.prompt_version@,
            asset_fingerprint: self.asset_fingerprint@,
        }
    }
}

impl Generation {
    /// A copy that holds the same.
    pub(crate) fn duplicate(&self) -> (copy: Self)
        ensures
            copy.deep_view() == self.deep_view(),
    {
        Generation {
            extractor_name: self.extractor_name.clone(),
            extractor_version: self.extractor_version.clone(),
            core_version: self.core_version.clone(),
            processor_version: self.processor_version.clone(),
            prompt_version: self.prompt_version.clone(),
            asset_fingerprint: self.asset_fingerprint.clone(),
        }
    }
}

#[derive(Clone, Debug, PartialEq, Eq)]
pub struct Review {
    pub status: ReviewStatus,
    pub approved_revision: Option<String>,
    pub reviewed_at: Option<Timestamp>,
}

#[verifier::ext_equal]
pub struct ReviewView {
    pub status: ReviewStatus,
    pub approved_revision: Option<Seq<char>>,
    pub reviewed_at: Option<Timestamp>,
}

impl DeepView for Review {
    type V = ReviewView;

    open spec fn deep_view(&self) -> ReviewView {
        ReviewView {
            status: self.status,
            approved_revision: self.approved_revision.deep_view(),
            reviewed_at: self.reviewed_at,
        }
    }
}

impl Review {
    /// A copy that holds the same.
    pub(crate) fn duplicate(&self) -> (copy: Self)
        ensures
            copy.deep_view() == self.deep_view(),
    {
        Review {
            status: self.status,
            approved_revision: copy_option(&self.approved_revision),
            reviewed_at: self.reviewed_at,
        }
    }
}

#[derive(Clone, Debug, PartialEq, Eq)]
pub struct SourceMetadata {
    pub authors: Vec<String>,
    pub publication_date: Option<CalendarDate>,
    pub doi: Option<String>,
}

#[verifier::ext_equal]
pub struct SourceMetadataView {
    pub authors: Seq<Seq<char>>,
    pub publication_date: Option<CalendarDate>,
    pub doi: Option<Seq<char>>,
}

impl DeepView for SourceMetadata {
    type V = SourceMetadataView;

    open spec fn deep_view(&self) -> SourceMetadataView {
        SourceMetadataView {
            authors: self.authors.deep_view(),
            publication_date: self.publication_date,
            doi: self.doi.deep_view(),
        }
    }
}

impl SourceMetadata {
    /// A copy that holds the same.
    pub(crate) fn duplicate(&self) -> (copy: Self)
        ensures
            copy.deep_view() == self.deep_view(),
    {
        SourceMetadata {
            authors: copy_list(&self.authors),
            publication_date: self.publication_date,
            doi: copy_option(&self.doi),
        }
    }
}

/// The record of one Source: what was written about an Asset.
#[derive(Clone, Debug, PartialEq, Eq)]
pub struct SourceRecord {
    pub id: String,
    pub record_type: String,
    pub schema_version: u32,
    pub scope: String,
    pub title: String,
    pub status: SourceStatus,
    pub created_at: Timestamp,
    pub updated_at: Timestamp,
    pub tags: Vec<String>,
    pub domain: Vec<String>,
    pub ai_assisted: bool,
    pub relations: Relations,
    pub generation: Generation,
    pub content_revision: String,
    pub review: Review,
    pub source_metadata: SourceMetadata,
}

#[verifier::ext_equal]
pub struct SourceRecordView {
    pub id: Seq<char>,
    pub record_type: Seq<char>,
    pub schema_version: u32,
    pub scope: Seq<char>,
    pub title: Seq<char>,
    pub status: SourceStatus,
    pub created_at: Timestamp,
    pub updated_at: Timestamp,
    pub tags: Seq<Seq<char>>,
    pub domain: Seq<Seq<char>>,
    pub ai_assisted: bool,
    pub relations: RelationsView,
    pub generation: GenerationView,
    pub content_revision: Seq<char>,
    pub review: ReviewView,
    pub source_metadata: SourceMetadataView,
}

impl DeepView for SourceRecord {
    type V = SourceRecordView;

    open spec fn deep_view(&self) -> SourceRecordView {
        SourceRecordView {
            id: self.id@,
            record_type: self.record_type@,
            schema_version: self.schema_version,
            scope: self.scope@,
            title: self.title@,
            status: self.status,
            created_at: self.created_at,
            updated_at: self.updated_at,
            tags: self.tags.deep_view(),
            domain: self.domain.deep_view(),
            ai_assisted: self.ai_assisted,
            relations: self.relations.deep_view(),
            generation: self.generation.deep_view(),
            content_revision: self.content_revision@,
            review: self.review.deep_view(),
            source_metadata: self.source_metadata.deep_view(),
        }
    }
}

impl SourceRecord {
    /// A copy that holds the same.
    pub(crate) fn duplicate(&self) -> (copy: Self)
        ensures
            copy.deep_view() == self.deep_view(),
    {
        SourceRecord {
            id: self.id.clone(),
            record_type: self.record_type.clone(),
            schema_version: self.schema_version,
            scope: self.scope.clone(),
            title: self.title.clone(),
            status: self.status,
            created_at: self.created_at,
            updated_at: self.updated_at,
            tags: copy_list(&self.tags),
            domain: copy_list(&self.domain),
            ai_assisted: self.ai_assisted,
            relations: self.relations.duplicate(),
            generation: self.generation.duplicate(),
            content_revision: self.content_revision.clone(),
            review: self.review.duplicate(),
            source_metadata: self.source_metadata.duplicate(),
        }
    }
}

#[derive(Clone, Debug, PartialEq, Eq)]
pub struct SemanticResponse {
    pub title: String,
    pub source_metadata: SourceMetadata,
    pub tags: Vec<String>,
    pub domain: Vec<String>,
    pub one_sentence_summary: String,
    pub problem: String,
    pub method: String,
    pub contributions: String,
    pub reported_evidence: String,
    pub stated_limitations: String,
    pub domain_perspective: String,
    pub implementation_considerations: String,
    pub questions_and_unknowns: String,
    pub related_knowledge: String,
}

#[verifier::ext_equal]
pub struct SemanticResponseView {
    pub title: Seq<char>,
    pub source_metadata: SourceMetadataView,
    pub tags: Seq<Seq<char>>,
    pub domain: Seq<Seq<char>>,
    pub one_sentence_summary: Seq<char>,
    pub problem: Seq<char>,
    pub method: Seq<char>,
    pub contributions: Seq<char>,
    pub reported_evidence: Seq<char>,
    pub stated_limitations: Seq<char>,
    pub domain_perspective: Seq<char>,
    pub implementation_considerations: Seq<char>,
    pub questions_and_unknowns: Seq<char>,
    pub related_knowledge: Seq<char>,
}

impl DeepView for SemanticResponse {
    type V = SemanticResponseView;

    open spec fn deep_view(&self) -> SemanticResponseView {
        SemanticResponseView {
            title: self.title@,
            source_metadata: self.source_metadata.deep_view(),
            tags: self.tags.deep_view(),
            domain: self.domain.deep_view(),
            one_sentence_summary: self.one_sentence_summary@,
            problem: self.problem@,
            method: self.method@,
            contributions: self.contributions@,
            reported_evidence: self.reported_evidence@,
            stated_limitations: self.stated_limitations@,
            domain_perspective: self.domain_perspective@,
            implementation_considerations: self.implementation_considerations@,
            questions_and_unknowns: self.questions_and_unknowns@,
            related_knowledge: self.related_knowledge@,
        }
    }
}

} // verus!

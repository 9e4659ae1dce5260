//! The records of the second repository format.

use crate::model::{CalendarDate, Timestamp};
use crate::order::Plain;
use vstd::prelude::*;

verus! {

#[derive(Clone, Copy, Debug, PartialEq, Eq, Structural)]
pub enum PreparedArtifactTypeV2 {
    PreparedContent,
}

#[derive(Clone, Copy, Debug, PartialEq, Eq, Structural)]
pub enum PreparedTrustV2 {
    UntrustedDocumentContent,
}

#[derive(Clone, Debug, PartialEq, Eq)]
pub struct ExtractorIdentityV2 {
    pub name: String,
    pub version: String,
}

#[derive(Clone, Debug, PartialEq, Eq)]
pub struct PreparedMetadataV2 {
    pub title: Option<String>,
    pub authors: Vec<String>,
    pub created_at: Option<Timestamp>,
}

#[derive(Clone, Debug, PartialEq, Eq)]
pub enum TableScalarV2 {
    Text(String),
    /// A number as JSON writes it.
    Number(String),
    Boolean(bool),
    Null,
}

#[derive(Clone, Debug, PartialEq, Eq)]
pub enum ContentBlockV2 {
    Text {
        id: String,
        locator: String,
        text: String,
    },
    Table {
        id: String,
        locator: String,
        columns: Vec<String>,
        rows: Vec<Vec<TableScalarV2>>,
    },
    Image {
        id: String,
        locator: String,
        alt_text: Option<String>,
        artifact_id: String,
    },
    Transcript {
        id: String,
        locator: String,
        speaker: Option<String>,
        text: String,
    },
}

#[derive(Clone, Debug, PartialEq, Eq)]
pub struct PreparedArtifactV2 {
    pub id: String,
    pub media_type: String,
    pub content_digest: String,
    pub size_bytes: u64,
    pub provider_locator: String,
}

#[derive(Clone, Debug, PartialEq, Eq)]
pub struct PreparedContentV2 {
    pub schema_version: u32,
    pub artifact_type: PreparedArtifactTypeV2,
    pub bundle_id: String,
    pub content_digest: String,
    pub asset_id: String,
    pub asset_fingerprint: String,
    pub media_type: String,
    pub trust: PreparedTrustV2,
    pub extractor: ExtractorIdentityV2,
    pub metadata: PreparedMetadataV2,
    pub content_blocks: Vec<ContentBlockV2>,
    pub artifacts: Vec<PreparedArtifactV2>,
}

#[derive(Clone, Copy, Debug, PartialEq, Eq, Structural)]
pub struct TextSpanUtf8V2 {
    pub start: u64,
    pub end: u64,
}

#[derive(Clone, Copy, Debug, PartialEq, Eq, Structural)]
pub struct TableRangeV2 {
    pub row_start: u64,
    pub row_end: u64,
    pub column_start: u64,
    pub column_end: u64,
}

#[derive(Clone, Debug, PartialEq, Eq)]
pub struct EvidenceRefV2 {
    pub block_id: String,
    pub locator: String,
    pub text_span_utf8: Option<TextSpanUtf8V2>,
    pub table_range: Option<TableRangeV2>,
}

#[derive(Clone, Debug, PartialEq, Eq)]
pub struct SourceClaimV2 {
    pub text: String,
    pub evidence_refs: Vec<EvidenceRefV2>,
}

#[derive(Clone, Copy, Debug, PartialEq, Eq, Structural)]
pub enum LimitationBasisV2 {
    Stated,
    ObservedMissingEvidence,
}

#[derive(Clone, Debug, PartialEq, Eq)]
pub struct SourceLimitationV2 {
    pub text: String,
    pub basis: LimitationBasisV2,
    pub evidence_refs: Vec<EvidenceRefV2>,
}

#[derive(Clone, Copy, Debug, PartialEq, Eq, Structural)]
pub enum KnowledgeRecommendationOutcomeV2 {
    Recommend,
    ReferenceOnly,
    Archive,
}

#[derive(Clone, Debug, PartialEq, Eq)]
pub struct KnowledgeRecommendationV2 {
    pub outcome: KnowledgeRecommendationOutcomeV2,
    pub reasons: Vec<String>,
}

#[derive(Clone, Debug, PartialEq, Eq)]
pub struct SourceResponseV2 {
    pub schema_version: u32,
    pub title: String,
    pub authors: Vec<String>,
    pub publication_date: Option<CalendarDate>,
    pub one_sentence_summary: String,
    pub general_summary: String,
    pub key_claims: Vec<SourceClaimV2>,
    pub limitations: Vec<SourceLimitationV2>,
    pub tags: Vec<String>,
    pub knowledge_recommendation: KnowledgeRecommendationV2,
}

#[derive(Clone, Copy, Debug, PartialEq, Eq, Structural)]
pub enum KnowledgeUnitKindV2 {
    Fact,
    Definition,
    Formula,
    Result,
    Interpretation,
    Hypothesis,
    Counterargument,
    Uncertainty,
    OpenQuestion,
    /// What the model knows that the document does not say.
    ///
    /// Kept apart from the grounded kinds so a reader can always tell the
    /// document's own words from what was supplied around them.
    Background,
}

impl Plain for KnowledgeUnitKindV2 {
    fn is_same(self, other: Self) -> (result: bool) {
        self == other
    }
}

#[derive(Clone, Copy, Debug, PartialEq, Eq, Structural)]
pub enum ConfidenceV2 {
    High,
    Medium,
    Low,
}

#[derive(Clone, Copy, Debug, PartialEq, Eq, Structural)]
pub enum KnowledgeBasisV2 {
    Evidence,
    MissingEvidence,
    ConflictingEvidence,
    /// The model supplied this, and the document does not support it.
    ModelKnowledge,
}

#[derive(Clone, Debug, PartialEq, Eq)]
pub struct KnowledgeUnitV2 {
    pub kind: KnowledgeUnitKindV2,
    pub title: String,
    pub body: String,
    pub confidence: ConfidenceV2,
    pub basis: KnowledgeBasisV2,
    pub evidence_refs: Vec<EvidenceRefV2>,
    pub tags: Vec<String>,
}

#[derive(Clone, Debug, PartialEq, Eq)]
pub struct KnowledgeResponseV2 {
    pub schema_version: u32,
    pub synthesis: String,
    pub units: Vec<KnowledgeUnitV2>,
}

#[derive(Clone, Copy, Debug, PartialEq, Eq, Structural)]
pub enum ReviewRecordTypeV2 {
    Review,
}

#[derive(Clone, Copy, Debug, PartialEq, Eq, Structural)]
pub enum ReviewTargetTypeV2 {
    Source,
    Knowledge,
}

#[derive(Clone, Copy, Debug, PartialEq, Eq, Structural)]
pub enum ReviewDecisionV2 {
    Approve,
    RequestChanges,
    Defer,
}

#[derive(Clone, Debug, PartialEq, Eq)]
pub struct ReviewTargetV2 {
    pub record_type: ReviewTargetTypeV2,
    pub record_id: String,
    pub displayed_revision: String,
    pub decision: ReviewDecisionV2,
    pub feedback: Option<String>,
    pub supersedes_review_id: Option<String>,
}

#[derive(Clone, Debug, PartialEq, Eq)]
pub struct ReviewRecordV2 {
    pub schema_version: u32,
    pub id: String,
    pub record_type: ReviewRecordTypeV2,
    pub targets: Vec<ReviewTargetV2>,
    pub created_at: Timestamp,
}

#[derive(Clone, Copy, Debug, PartialEq, Eq, Structural)]
pub enum ReviewResolutionRecordTypeV2 {
    ReviewResolution,
}

#[derive(Clone, Debug, PartialEq, Eq)]
pub struct ReviewResolutionV2 {
    pub schema_version: u32,
    pub id: String,
    pub record_type: ReviewResolutionRecordTypeV2,
    pub review_id: String,
    pub target_record_id: String,
    pub requested_revision: String,
    pub resulting_revision: String,
    pub bundle_id: String,
    pub created_at: Timestamp,
}

impl EvidenceRefV2 {
    /// A reference to a block, narrowed to a span of its text or to a range of its table,
    /// but not to both.
    pub fn new(
        block_id: String,
        locator: String,
        text_span_utf8: Option<TextSpanUtf8V2>,
        table_range: Option<TableRangeV2>,
    ) -> (result: Result<Self, String>)
        ensures
            match result {
                Ok(reference) => {
                    &&& text_span_utf8 is None || table_range is None
                    &&& reference == (EvidenceRefV2 {
                        block_id,
                        locator,
                        text_span_utf8,
                        table_range,
                    })
                },
                Err(message) => text_span_utf8 is Some && table_range is Some && message@
                    == "evidence reference may use at most one narrowing form"@,
            },
    {
        if text_span_utf8.is_some() && table_range.is_some() {
            return Err("evidence reference may use at most one narrowing form".to_owned());
        }
        Ok(EvidenceRefV2 { block_id, locator, text_span_utf8, table_range })
    }
}

} // verus!

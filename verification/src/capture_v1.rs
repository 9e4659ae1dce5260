//! Captures from a channel, and the route that a person or a classifier gives them. Nothing
//! here fetches or writes anything.

use crate::error::{error, outcome, verdict, ErrorView, MkoError};
use crate::fingerprint::MAX_ASSET_BYTES;
use crate::model::Timestamp;
use crate::slug::is_ascii_word_char;
use crate::text::{after_prefix, all_digits, byte_len, cat2, same, strip_prefix, to_chars};
use vstd::prelude::*;
use vstd::utf8::encode_utf8;

verus! {

pub const MAX_CAPTURE_ENVELOPE_BYTES_V1: usize = 65_536;

pub const MAX_TEXT_INPUT_BYTES_V1: usize = 16_384;

pub const MAX_CLASSIFIER_PROPOSAL_BYTES_V1: usize = 16_384;

pub const MAX_PDF_DECLARED_BYTES_V1: u64 = MAX_ASSET_BYTES;

/// The confidence from which a proposal only needs to be confirmed.
pub const HIGH_CONFIDENCE_MINIMUM_V1: u8 = 80;

#[derive(Clone, Copy, Debug, PartialEq, Eq, Structural)]
pub enum CaptureChannelV1 {
    Telegram,
}

#[derive(Clone, Copy, Debug, PartialEq, Eq, Structural)]
pub enum SubjectScopeV1 {
    General,
    Finance,
}

#[derive(Clone, Debug, PartialEq, Eq)]
pub struct ChannelIdentityV1 {
    pub profile_id: String,
    pub chat_id: String,
    pub sender_id: String,
    pub update_id: String,
    pub message_id: String,
}

#[derive(Clone, Debug, PartialEq, Eq)]
pub enum CaptureInputV1 {
    TelegramPdf {
        file_id: String,
        file_unique_id: String,
        declared_size_bytes: u64,
        mime_type: String,
    },
    Youtube { video_id: String, canonical_url: String },
    Text { text: String },
}

#[derive(Clone, Debug, PartialEq, Eq)]
pub struct CaptureEnvelopeV1 {
    pub schema_version: u32,
    pub capture_id: String,
    pub channel: CaptureChannelV1,
    pub channel_identity: ChannelIdentityV1,
    pub input: CaptureInputV1,
    pub selected_scope: Option<SubjectScopeV1>,
    pub received_at: Timestamp,
}

#[derive(Clone, Copy, Debug, PartialEq, Eq, Structural)]
pub struct ClassifierProposalV1 {
    pub proposed_scope: SubjectScopeV1,
    pub confidence: u8,
    pub mixed_subjects: bool,
    pub conflicting: bool,
}

#[derive(Clone, Copy, Debug, PartialEq, Eq, Structural)]
pub enum RoutingAuthorityV1 {
    UserSelected,
    UserConfirmedProposal,
}

#[derive(Clone, Copy, Debug, PartialEq, Eq, Structural)]
pub enum RouteOutcomeKindV1 {
    ReadyGeneral,
    ReadyFinance,
    GeneralConfirmationRequired,
    FinanceConfirmationRequired,
    RoutingConfirmationRequired,
    Rejected,
}

#[derive(Clone, Copy, Debug, PartialEq, Eq, Structural)]
pub enum RoutingNextActionV1 {
    ConfirmGeneral,
    ConfirmFinance,
    ChooseScope,
}

#[derive(Clone, Copy, Debug, PartialEq, Eq, Structural)]
pub enum RouteRejectionReasonV1 {
    ConfirmationRequiresProposal,
    ConfirmationDoesNotMatchProposal,
    ConfirmationCannotResolveMixedOrConflictingProposal,
}

#[derive(Clone, Copy, Debug, PartialEq, Eq)]
pub struct RouteOutcomeV1 {
    pub outcome: RouteOutcomeKindV1,
    pub confirmed_scope: Option<SubjectScopeV1>,
    pub routing_authority: Option<RoutingAuthorityV1>,
    pub proposal: Option<ClassifierProposalV1>,
    pub next_action: Option<RoutingNextActionV1>,
    pub rejection_reason: Option<RouteRejectionReasonV1>,
}

/// A lowercase letter, a digit, an underscore or a hyphen.
pub open spec fn is_identifier_char(c: char) -> bool {
    ('a' <= c <= 'z') || ('0' <= c <= '9') || c == '_' || c == '-'
}

pub open spec fn is_lower_identifier(text: Seq<char>) -> bool {
    &&& text.len() > 0
    &&& forall|i: int| 0 <= i < text.len() ==> is_identifier_char(#[trigger] text[i])
}

pub open spec fn is_capture_id(text: Seq<char>) -> bool {
    after_prefix(text, "cap_"@) matches Some(suffix) && encode_utf8(suffix).len() <= 127
        && is_lower_identifier(suffix)
}

pub open spec fn is_profile_id(text: Seq<char>) -> bool {
    &&& encode_utf8(text).len() <= 64
    &&& is_lower_identifier(text)
    &&& 'a' <= text[0] <= 'z'
}

/// Digits that do not start with a zero.
pub open spec fn is_positive_number(digits: Seq<char>) -> bool {
    &&& digits.len() > 0
    &&& digits[0] != '0'
    &&& all_digits(digits)
}

/// A number of Telegram; for a chat a minus sign may stand before it.
pub open spec fn is_telegram_id(text: Seq<char>, allow_negative: bool) -> bool {
    encode_utf8(text).len() <= 20 && is_positive_number(
        if allow_negative && text.len() > 0 && text[0] == '-' {
            text.drop_first()
        } else {
            text
        },
    )
}

/// Letters, digits, underscores and hyphens of ASCII.
pub open spec fn is_reference_text(text: Seq<char>) -> bool {
    forall|i: int|
        0 <= i < text.len() ==> is_ascii_word_char(#[trigger] text[i]) || text[i] == '_' || text[i]
            == '-'
}

pub open spec fn is_opaque_reference(text: Seq<char>) -> bool {
    text.len() > 0 && encode_utf8(text).len() <= 256 && is_reference_text(text)
}

pub open spec fn is_youtube_video_id(text: Seq<char>) -> bool {
    encode_utf8(text).len() == 11 && is_reference_text(text)
}

fn lower_identifier(text: &str) -> (result: bool)
    ensures
        result == is_lower_identifier(text@),
{
    let chars = to_chars(text);
    let mut i: usize = 0;
    while i < chars.len()
        invariant
            i <= chars.len(),
            chars@ == text@,
            forall|k: int| 0 <= k < i ==> is_identifier_char(#[trigger] text@[k]),
        decreases chars.len() - i,
    {
        let c = chars[i];
        if !(('a' <= c && c <= 'z') || ('0' <= c && c <= '9') || c == '_' || c == '-') {
            assert(!is_identifier_char(text@[i as int]));
            return false;
        }
        i += 1;
    }
    chars.len() > 0
}

fn capture_id(text: &str) -> (result: bool)
    ensures
        result == is_capture_id(text@),
{
    match strip_prefix(text, "cap_") {
        Some(suffix) => byte_len(suffix) <= 127 && lower_identifier(suffix),
        None => false,
    }
}

fn profile_id(text: &str) -> (result: bool)
    ensures
        result == is_profile_id(text@),
{
    if byte_len(text) > 64 || !lower_identifier(text) {
        return false;
    }
    let first = text.get_char(0);
    'a' <= first && first <= 'z'
}

#[verifier::loop_isolation(false)]
fn telegram_id(text: &str, allow_negative: bool) -> (result: bool)
    ensures
        result == is_telegram_id(text@, allow_negative),
{
    if byte_len(text) > 20 {
        return false;
    }
    let chars = to_chars(text);
    let start: usize = if allow_negative && chars.len() > 0 && chars[0] == '-' {
        1
    } else {
        0
    };
    let ghost digits = if start == 1 {
        text@.drop_first()
    } else {
        text@
    };
    assert(digits == chars@.skip(start as int));
    if start == chars.len() || chars[start] == '0' {
        assert(start < chars.len() ==> digits[0] == '0');
        return false;
    }
    assert(digits[0] == chars@[start as int]);
    let mut i: usize = start;
    while i < chars.len()
        invariant
            start <= i <= chars.len(),
            digits == chars@.skip(start as int),
            forall|k: int| 0 <= k < i - start ==> '0' <= #[trigger] digits[k] <= '9',
        decreases chars.len() - i,
    {
        let c = chars[i];
        assert(digits[i - start] == c);
        if !('0' <= c && c <= '9') {
            assert(!all_digits(digits));
            return false;
        }
        i += 1;
    }
    true
}

fn reference_text(text: &str) -> (result: bool)
    ensures
        result == is_reference_text(text@),
{
    let chars = to_chars(text);
    let mut i: usize = 0;
    while i < chars.len()
        invariant
            i <= chars.len(),
            chars@ == text@,
            forall|k: int|
                0 <= k < i ==> is_ascii_word_char(#[trigger] text@[k]) || text@[k] == '_' || text@[k]
                    == '-',
        decreases chars.len() - i,
    {
        let c = chars[i];
        if !(('0' <= c && c <= '9') || ('a' <= c && c <= 'z') || ('A' <= c && c <= 'Z') || c == '_'
            || c == '-') {
            assert(!is_ascii_word_char(text@[i as int]));
            return false;
        }
        i += 1;
    }
    true
}

fn opaque_reference(text: &str) -> (result: bool)
    ensures
        result == is_opaque_reference(text@),
{
    !text.is_empty() && byte_len(text) <= 256 && reference_text(text)
}

fn youtube_video_id(text: &str) -> (result: bool)
    ensures
        result == is_youtube_video_id(text@),
{
    byte_len(text) == 11 && reference_text(text)
}

/// What an envelope is refused as.
pub open spec fn envelope_failure(message: Seq<char>) -> Result<(), ErrorView> {
    Err(error("capture_envelope_invalid"@, message))
}

pub open spec fn identity_check(identity: ChannelIdentityV1) -> Result<(), ErrorView> {
    if !is_profile_id(identity.profile_id@) || !is_telegram_id(identity.chat_id@, true)
        || !is_telegram_id(identity.sender_id@, false) || !is_telegram_id(
        identity.update_id@,
        false,
    ) || !is_telegram_id(identity.message_id@, false) {
        envelope_failure("channel identity is not a bounded Telegram identity"@)
    } else {
        Ok(())
    }
}

pub open spec fn input_check(input: CaptureInputV1) -> Result<(), ErrorView> {
    match input {
        CaptureInputV1::TelegramPdf { file_id, file_unique_id, declared_size_bytes, mime_type } => {
            if !is_opaque_reference(file_id@) || !is_opaque_reference(file_unique_id@)
                || declared_size_bytes == 0 || declared_size_bytes > MAX_PDF_DECLARED_BYTES_V1
                || mime_type@ != "application/pdf"@ {
                envelope_failure("Telegram PDF reference violates the bounded v1 contract"@)
            } else {
                Ok(())
            }
        },
        CaptureInputV1::Youtube { video_id, canonical_url } => if !is_youtube_video_id(video_id@)
            || canonical_url@ != "https://www.youtube.com/watch?v="@ + video_id@ {
            envelope_failure("YouTube input must use its canonical v1 URL and video ID"@)
        } else {
            Ok(())
        },
        CaptureInputV1::Text { text } => if text@.len() == 0 || encode_utf8(text@).len()
            > MAX_TEXT_INPUT_BYTES_V1 {
            envelope_failure("text input exceeds the bounded v1 size"@)
        } else {
            Ok(())
        },
    }
}

/// The rules on an envelope.
pub open spec fn envelope_check(envelope: CaptureEnvelopeV1) -> Result<(), ErrorView> {
    if envelope.schema_version != 1 {
        envelope_failure("CaptureEnvelope schema_version must be 1"@)
    } else if !is_capture_id(envelope.capture_id@) {
        envelope_failure("capture_id must be a bounded cap_ identifier"@)
    } else {
        match identity_check(envelope.channel_identity) {
            Err(failure) => Err(failure),
            Ok(_) => input_check(envelope.input),
        }
    }
}

pub open spec fn proposal_check(proposal: ClassifierProposalV1) -> Result<(), ErrorView> {
    if proposal.confidence > 100 {
        Err(
            error(
                "routing_proposal_invalid"@,
                "classifier confidence must be between 0 and 100"@,
            ),
        )
    } else {
        Ok(())
    }
}

fn validate_channel_identity(identity: &ChannelIdentityV1) -> (result: Result<(), MkoError>)
    ensures
        verdict(result) == identity_check(*identity),
{
    if !profile_id(identity.profile_id.as_str()) || !telegram_id(identity.chat_id.as_str(), true)
        || !telegram_id(identity.sender_id.as_str(), false) || !telegram_id(
        identity.update_id.as_str(),
        false,
    ) || !telegram_id(identity.message_id.as_str(), false) {
        return Err(
            MkoError::new(
                "capture_envelope_invalid",
                "channel identity is not a bounded Telegram identity",
            ),
        );
    }
    Ok(())
}

fn validate_capture_input(input: &CaptureInputV1) -> (result: Result<(), MkoError>)
    ensures
        verdict(result) == input_check(*input),
{
    match input {
        CaptureInputV1::TelegramPdf { file_id, file_unique_id, declared_size_bytes, mime_type } => {
            if !opaque_reference(file_id.as_str()) || !opaque_reference(file_unique_id.as_str())
                || *declared_size_bytes == 0 || *declared_size_bytes > MAX_PDF_DECLARED_BYTES_V1
                || !same(mime_type.as_str(), "application/pdf") {
                return Err(
                    MkoError::new(
                        "capture_envelope_invalid",
                        "Telegram PDF reference violates the bounded v1 contract",
                    ),
                );
            }
        },
        CaptureInputV1::Youtube { video_id, canonical_url } => {
            let expected = cat2("https://www.youtube.com/watch?v=", video_id.as_str());
            if !youtube_video_id(video_id.as_str()) || !same(
                canonical_url.as_str(),
                expected.as_str(),
            ) {
                return Err(
                    MkoError::new(
                        "capture_envelope_invalid",
                        "YouTube input must use its canonical v1 URL and video ID",
                    ),
                );
            }
        },
        CaptureInputV1::Text { text } => {
            if text.as_str().is_empty() || byte_len(text.as_str()) > MAX_TEXT_INPUT_BYTES_V1 {
                return Err(
                    MkoError::new(
                        "capture_envelope_invalid",
                        "text input exceeds the bounded v1 size",
                    ),
                );
            }
        },
    }
    Ok(())
}

impl CaptureEnvelopeV1 {
    pub fn validate(&self) -> (result: Result<(), MkoError>)
        ensures
            verdict(result) == envelope_check(*self),
    {
        if self.schema_version != 1 {
            return Err(
                MkoError::new(
                    "capture_envelope_invalid",
                    "CaptureEnvelope schema_version must be 1",
                ),
            );
        }
        if !capture_id(self.capture_id.as_str()) {
            return Err(
                MkoError::new(
                    "capture_envelope_invalid",
                    "capture_id must be a bounded cap_ identifier",
                ),
            );
        }
        match validate_channel_identity(&self.channel_identity) {
            Ok(_) => {},
            Err(failure) => {
                return Err(failure);
            },
        }
        validate_capture_input(&self.input)
    }
}

impl ClassifierProposalV1 {
    pub fn validate(&self) -> (result: Result<(), MkoError>)
        ensures
            verdict(result) == proposal_check(*self),
    {
        if self.confidence > 100 {
            return Err(
                MkoError::new(
                    "routing_proposal_invalid",
                    "classifier confidence must be between 0 and 100",
                ),
            );
        }
        Ok(())
    }
}

/// Takes up an envelope of the given size: `parsed` is what its reader made of it, or what
/// it objected to.
pub fn parse_capture_envelope_v1(len: usize, parsed: Result<CaptureEnvelopeV1, String>) -> (result:
    Result<CaptureEnvelopeV1, MkoError>)
    ensures
        match result {
            Ok(envelope) => {
                &&& len <= MAX_CAPTURE_ENVELOPE_BYTES_V1
                &&& parsed == Ok::<CaptureEnvelopeV1, String>(envelope)
                &&& envelope_check(envelope) is Ok
            },
            Err(failure) => failure.deep_view() == (if len > MAX_CAPTURE_ENVELOPE_BYTES_V1 {
                error(
                    "capture_envelope_too_large"@,
                    "CaptureEnvelope exceeds the bounded v1 input size"@,
                )
            } else {
                match parsed {
                    Err(detail) => error("capture_envelope_invalid"@, detail@),
                    Ok(envelope) => envelope_check(envelope)->Err_0,
                }
            }),
        },
        (len <= MAX_CAPTURE_ENVELOPE_BYTES_V1 && (parsed matches Ok(envelope) && envelope_check(
            envelope,
        ) is Ok)) ==> result is Ok,
{
    if len > MAX_CAPTURE_ENVELOPE_BYTES_V1 {
        return Err(
            MkoError::new(
                "capture_envelope_too_large",
                "CaptureEnvelope exceeds the bounded v1 input size",
            ),
        );
    }
    match parsed {
        Err(detail) => Err(MkoError::new("capture_envelope_invalid", detail.as_str())),
        Ok(envelope) => match envelope.validate() {
            Ok(_) => Ok(envelope),
            Err(failure) => Err(failure),
        },
    }
}

/// Takes up the proposal of a classifier, which is not trusted.
pub fn parse_classifier_proposal_v1(len: usize, parsed: Result<ClassifierProposalV1, String>) -> (result:
    Result<ClassifierProposalV1, MkoError>)
    ensures
        match result {
            Ok(proposal) => {
                &&& len <= MAX_CLASSIFIER_PROPOSAL_BYTES_V1
                &&& parsed == Ok::<ClassifierProposalV1, String>(proposal)
                &&& proposal_check(proposal) is Ok
            },
            Err(failure) => failure.deep_view() == (if len > MAX_CLASSIFIER_PROPOSAL_BYTES_V1 {
                error(
                    "routing_proposal_too_large"@,
                    "classifier proposal exceeds the bounded v1 input size"@,
                )
            } else {
                match parsed {
                    Err(detail) => error("routing_proposal_invalid"@, detail@),
                    Ok(proposal) => proposal_check(proposal)->Err_0,
                }
            }),
        },
        (len <= MAX_CLASSIFIER_PROPOSAL_BYTES_V1 && (parsed matches Ok(proposal) && proposal_check(
            proposal,
        ) is Ok)) ==> result is Ok,
{
    if len > MAX_CLASSIFIER_PROPOSAL_BYTES_V1 {
        return Err(
            MkoError::new(
                "routing_proposal_too_large",
                "classifier proposal exceeds the bounded v1 input size",
            ),
        );
    }
    match parsed {
        Err(detail) => Err(MkoError::new("routing_proposal_invalid", detail.as_str())),
        Ok(proposal) => match proposal.validate() {
            Ok(_) => Ok(proposal),
            Err(failure) => Err(failure),
        },
    }
}

/// A route that is settled.
pub open spec fn settled(scope: SubjectScopeV1, authority: RoutingAuthorityV1) -> RouteOutcomeV1 {
    RouteOutcomeV1 {
        outcome: match scope {
            SubjectScopeV1::General => RouteOutcomeKindV1::ReadyGeneral,
            SubjectScopeV1::Finance => RouteOutcomeKindV1::ReadyFinance,
        },
        confirmed_scope: Some(scope),
        routing_authority: Some(authority),
        proposal: None,
        next_action: None,
        rejection_reason: None,
    }
}

/// A route that a person has yet to confirm or to choose.
pub open spec fn unsettled(
    outcome: RouteOutcomeKindV1,
    proposal: Option<ClassifierProposalV1>,
    next_action: RoutingNextActionV1,
) -> RouteOutcomeV1 {
    RouteOutcomeV1 {
        outcome,
        confirmed_scope: None,
        routing_authority: None,
        proposal,
        next_action: Some(next_action),
        rejection_reason: None,
    }
}

/// A confirmation that settles nothing.
pub open spec fn refused(reason: RouteRejectionReasonV1) -> RouteOutcomeV1 {
    RouteOutcomeV1 {
        outcome: RouteOutcomeKindV1::Rejected,
        confirmed_scope: None,
        routing_authority: None,
        proposal: None,
        next_action: None,
        rejection_reason: Some(reason),
    }
}

/// The route of a valid capture. What a person selected decides, then what a person
/// confirmed, and a classifier never decides alone.
pub open spec fn route(
    selected: Option<SubjectScopeV1>,
    proposal: Option<ClassifierProposalV1>,
    confirmed: Option<SubjectScopeV1>,
) -> RouteOutcomeV1 {
    match (selected, confirmed, proposal) {
        (Some(scope), _, _) => settled(scope, RoutingAuthorityV1::UserSelected),
        (None, Some(_), None) => refused(RouteRejectionReasonV1::ConfirmationRequiresProposal),
        (None, Some(scope), Some(proposed)) => if proposed.mixed_subjects || proposed.conflicting {
            refused(
                RouteRejectionReasonV1::ConfirmationCannotResolveMixedOrConflictingProposal,
            )
        } else if proposed.proposed_scope != scope {
            refused(RouteRejectionReasonV1::ConfirmationDoesNotMatchProposal)
        } else {
            settled(scope, RoutingAuthorityV1::UserConfirmedProposal)
        },
        (None, None, None) => unsettled(
            RouteOutcomeKindV1::RoutingConfirmationRequired,
            None,
            RoutingNextActionV1::ChooseScope,
        ),
        (None, None, Some(proposed)) => if proposed.mixed_subjects || proposed.conflicting
            || proposed.confidence < HIGH_CONFIDENCE_MINIMUM_V1 {
            unsettled(
                RouteOutcomeKindV1::RoutingConfirmationRequired,
                proposal,
                RoutingNextActionV1::ChooseScope,
            )
        } else {
            match proposed.proposed_scope {
                SubjectScopeV1::Finance => unsettled(
                    RouteOutcomeKindV1::FinanceConfirmationRequired,
                    proposal,
                    RoutingNextActionV1::ConfirmFinance,
                ),
                SubjectScopeV1::General => unsettled(
                    RouteOutcomeKindV1::GeneralConfirmationRequired,
                    proposal,
                    RoutingNextActionV1::ConfirmGeneral,
                ),
            }
        },
    }
}

/// What keeps a capture from being routed.
pub open spec fn routing_check(envelope: CaptureEnvelopeV1, proposal: Option<ClassifierProposalV1>) -> Result<
    (),
    ErrorView,
> {
    match envelope_check(envelope) {
        Err(failure) => Err(failure),
        Ok(_) => match proposal {
            Some(proposed) => proposal_check(proposed),
            None => Ok(()),
        },
    }
}

fn ready(scope: SubjectScopeV1, authority: RoutingAuthorityV1) -> (outcome: RouteOutcomeV1)
    ensures
        outcome == settled(scope, authority),
{
    RouteOutcomeV1 {
        outcome: match scope {
            SubjectScopeV1::General => RouteOutcomeKindV1::ReadyGeneral,
            SubjectScopeV1::Finance => RouteOutcomeKindV1::ReadyFinance,
        },
        confirmed_scope: Some(scope),
        routing_authority: Some(authority),
        proposal: None,
        next_action: None,
        rejection_reason: None,
    }
}

fn confirmation_required(
    outcome: RouteOutcomeKindV1,
    proposal: Option<ClassifierProposalV1>,
    next_action: RoutingNextActionV1,
) -> (result: RouteOutcomeV1)
    ensures
        result == unsettled(outcome, proposal, next_action),
{
    RouteOutcomeV1 {
        outcome,
        confirmed_scope: None,
        routing_authority: None,
        proposal,
        next_action: Some(next_action),
        rejection_reason: None,
    }
}

fn rejected(reason: RouteRejectionReasonV1) -> (outcome: RouteOutcomeV1)
    ensures
        outcome == refused(reason),
{
    RouteOutcomeV1 {
        outcome: RouteOutcomeKindV1::Rejected,
        confirmed_scope: None,
        routing_authority: None,
        proposal: None,
        next_action: None,
        rejection_reason: Some(reason),
    }
}

/// Resolves the route of a capture, and does nothing else.
pub fn resolve_route_v1(
    envelope: &CaptureEnvelopeV1,
    classifier_proposal: Option<ClassifierProposalV1>,
    confirmed_proposal_scope: Option<SubjectScopeV1>,
) -> (result: Result<RouteOutcomeV1, MkoError>)
    ensures
        match routing_check(*envelope, classifier_proposal) {
            Err(failure) => result matches Err(told) && told.deep_view() == failure,
            Ok(_) => result == Ok::<RouteOutcomeV1, MkoError>(
                route(envelope.selected_scope, classifier_proposal, confirmed_proposal_scope),
            ),
        },
{
    match envelope.validate() {
        Ok(_) => {},
        Err(failure) => {
            return Err(failure);
        },
    }
    if let Some(proposal) = classifier_proposal {
        match proposal.validate() {
            Ok(_) => {},
            Err(failure) => {
                return Err(failure);
            },
        }
    }
    if let Some(scope) = envelope.selected_scope {
        return Ok(ready(scope, RoutingAuthorityV1::UserSelected));
    }
    if let Some(confirmed_scope) = confirmed_proposal_scope {
        return match classifier_proposal {
            None => Ok(rejected(RouteRejectionReasonV1::ConfirmationRequiresProposal)),
            Some(proposal) => if proposal.mixed_subjects || proposal.conflicting {
                Ok(
                    rejected(
                        RouteRejectionReasonV1::ConfirmationCannotResolveMixedOrConflictingProposal,
                    ),
                )
            } else if proposal.proposed_scope != confirmed_scope {
                Ok(rejected(RouteRejectionReasonV1::ConfirmationDoesNotMatchProposal))
            } else {
                Ok(ready(confirmed_scope, RoutingAuthorityV1::UserConfirmedProposal))
            },
        };
    }
    match classifier_proposal {
        None => Ok(
            confirmation_required(
                RouteOutcomeKindV1::RoutingConfirmationRequired,
                None,
                RoutingNextActionV1::ChooseScope,
            ),
        ),
        Some(proposal) => {
            if proposal.mixed_subjects || proposal.conflicting || proposal.confidence
                < HIGH_CONFIDENCE_MINIMUM_V1 {
                return Ok(
                    confirmation_required(
                        RouteOutcomeKindV1::RoutingConfirmationRequired,
                        classifier_proposal,
                        RoutingNextActionV1::ChooseScope,
                    ),
                );
            }
            match proposal.proposed_scope {
                SubjectScopeV1::Finance => Ok(
                    confirmation_required(
                        RouteOutcomeKindV1::FinanceConfirmationRequired,
                        classifier_proposal,
                        RoutingNextActionV1::ConfirmFinance,
                    ),
                ),
                SubjectScopeV1::General => Ok(
                    confirmation_required(
                        RouteOutcomeKindV1::GeneralConfirmationRequired,
                        classifier_proposal,
                        RoutingNextActionV1::ConfirmGeneral,
                    ),
                ),
            }
        },
    }
}

/// No classifier settles a route: whatever it proposes, a scope is confirmed only by what a
/// person selected or confirmed.
pub proof fn only_people_settle_routes(
    selected: Option<SubjectScopeV1>,
    proposal: Option<ClassifierProposalV1>,
    confirmed: Option<SubjectScopeV1>,
)
    ensures
        ({
            let outcome = route(selected, proposal, confirmed);
            &&& outcome.confirmed_scope is Some ==> outcome.confirmed_scope == selected
                || outcome.confirmed_scope == confirmed
            &&& selected is Some ==> outcome.confirmed_scope == selected
            &&& selected is None && confirmed is None ==> outcome.confirmed_scope is None
            &&& outcome.confirmed_scope is Some <==> outcome.routing_authority is Some
        }),
{
}

/// A proposal that is mixed or in conflict never settles a route, and is never confirmed.
pub proof fn doubtful_proposals_settle_nothing(
    proposal: ClassifierProposalV1,
    confirmed: Option<SubjectScopeV1>,
)
    requires
        proposal.mixed_subjects || proposal.conflicting,
    ensures
        route(None, Some(proposal), confirmed).confirmed_scope is None,
{
}

} // verus!

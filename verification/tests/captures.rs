use mko_core::capture_v1::{
    parse_capture_envelope_v1, parse_classifier_proposal_v1, resolve_route_v1, CaptureChannelV1,
    CaptureEnvelopeV1, CaptureInputV1, ChannelIdentityV1, ClassifierProposalV1,
    RouteOutcomeKindV1, RouteRejectionReasonV1, RoutingAuthorityV1, RoutingNextActionV1,
    SubjectScopeV1, MAX_CAPTURE_ENVELOPE_BYTES_V1, MAX_CLASSIFIER_PROPOSAL_BYTES_V1,
    MAX_PDF_DECLARED_BYTES_V1, MAX_TEXT_INPUT_BYTES_V1,
};
use mko_core::error::MkoError;
use mko_core::model::Timestamp;

fn envelope() -> CaptureEnvelopeV1 {
    CaptureEnvelopeV1 {
        schema_version: 1,
        capture_id: "cap_1".into(),
        channel: CaptureChannelV1::Telegram,
        channel_identity: ChannelIdentityV1 {
            profile_id: "personal".into(),
            chat_id: "-100".into(),
            sender_id: "7".into(),
            update_id: "8".into(),
            message_id: "9".into(),
        },
        input: CaptureInputV1::Text { text: "note".into() },
        selected_scope: None,
        received_at: Timestamp { seconds: 0, nanos: 0 },
    }
}

fn proposal(proposed_scope: SubjectScopeV1, confidence: u8) -> ClassifierProposalV1 {
    ClassifierProposalV1 { proposed_scope, confidence, mixed_subjects: false, conflicting: false }
}

fn code<T: std::fmt::Debug>(result: Result<T, MkoError>) -> String {
    result.unwrap_err().code().to_string()
}

fn refused(edit: impl FnOnce(&mut CaptureEnvelopeV1)) -> String {
    let mut changed = envelope();
    edit(&mut changed);
    let failure = changed.validate().unwrap_err();
    assert_eq!(failure.code(), "capture_envelope_invalid");
    failure.message().to_string()
}

#[test]
fn envelopes_are_bounded() {
    assert!(parse_capture_envelope_v1(MAX_CAPTURE_ENVELOPE_BYTES_V1, Ok(envelope())).is_ok());
    assert_eq!(
        code(parse_capture_envelope_v1(MAX_CAPTURE_ENVELOPE_BYTES_V1 + 1, Ok(envelope()))),
        "capture_envelope_too_large"
    );
    assert_eq!(parse_capture_envelope_v1(1, Err("m".into())).unwrap_err().message(), "m");
    let mut other = envelope();
    other.schema_version = 2;
    assert_eq!(code(parse_capture_envelope_v1(1, Ok(other))), "capture_envelope_invalid");
    let given = || proposal(SubjectScopeV1::General, 100);
    assert!(parse_classifier_proposal_v1(MAX_CLASSIFIER_PROPOSAL_BYTES_V1, Ok(given())).is_ok());
    assert_eq!(
        code(parse_classifier_proposal_v1(MAX_CLASSIFIER_PROPOSAL_BYTES_V1 + 1, Ok(given()))),
        "routing_proposal_too_large"
    );
    assert_eq!(
        code(parse_classifier_proposal_v1(1, Ok(proposal(SubjectScopeV1::General, 101)))),
        "routing_proposal_invalid"
    );
}

#[test]
fn identities_are_those_of_telegram() {
    assert!(envelope().validate().is_ok());
    assert_eq!(refused(|e| e.schema_version = 2), "CaptureEnvelope schema_version must be 1");
    for id in ["cap_", "cap_A", "x_1", &format!("cap_{}", "a".repeat(128))] {
        assert_eq!(
            refused(|e| e.capture_id = id.into()),
            "capture_id must be a bounded cap_ identifier"
        );
    }
    let told = "channel identity is not a bounded Telegram identity";
    for id in ["", "1a", "A", &"a".repeat(65)] {
        assert_eq!(refused(|e| e.channel_identity.profile_id = id.into()), told);
    }
    for id in ["", "-", "0", "-01", "1x", "123456789012345678901"] {
        assert_eq!(refused(|e| e.channel_identity.chat_id = id.into()), told);
    }
    assert_eq!(refused(|e| e.channel_identity.sender_id = "-1".into()), told);
    assert_eq!(refused(|e| e.channel_identity.update_id = "".into()), told);
    assert_eq!(refused(|e| e.channel_identity.message_id = "01".into()), told);
}

#[test]
fn inputs_hold_references_or_text() {
    let pdf = |file_id: &str, declared_size_bytes, mime_type: &str| CaptureInputV1::TelegramPdf {
        file_id: file_id.into(),
        file_unique_id: "u".into(),
        declared_size_bytes,
        mime_type: mime_type.into(),
    };
    let accepts = |input| {
        let mut changed = envelope();
        changed.input = input;
        changed.validate().is_ok()
    };
    assert!(accepts(pdf("a_B-9", MAX_PDF_DECLARED_BYTES_V1, "application/pdf")));
    assert!(!accepts(pdf("a b", 1, "application/pdf")));
    assert!(!accepts(pdf("a", 0, "application/pdf")));
    assert!(!accepts(pdf("a", MAX_PDF_DECLARED_BYTES_V1 + 1, "application/pdf")));
    assert!(!accepts(pdf("a", 1, "text/plain")));
    assert!(!accepts(pdf(&"a".repeat(257), 1, "application/pdf")));
    let video = |id: &str, url: &str| CaptureInputV1::Youtube {
        video_id: id.into(),
        canonical_url: url.into(),
    };
    assert!(accepts(video("abcdefghij_", "https://www.youtube.com/watch?v=abcdefghij_")));
    assert!(!accepts(video("abcdefghij_", "https://youtu.be/abcdefghij_")));
    assert!(!accepts(video("short", "https://www.youtube.com/watch?v=short")));
    let text = |text: String| CaptureInputV1::Text { text };
    assert!(accepts(text("x".repeat(MAX_TEXT_INPUT_BYTES_V1))));
    assert!(!accepts(text("x".repeat(MAX_TEXT_INPUT_BYTES_V1 + 1))));
    assert!(!accepts(text(String::new())));
    assert!(!accepts(text("\u{ac00}".repeat(5462))));
}

#[test]
fn people_settle_the_route() {
    let mut chosen = envelope();
    chosen.selected_scope = Some(SubjectScopeV1::Finance);
    let doubtful = ClassifierProposalV1 {
        conflicting: true,
        ..proposal(SubjectScopeV1::General, 100)
    };
    let route = resolve_route_v1(&chosen, Some(doubtful), None).unwrap();
    assert_eq!(route.outcome, RouteOutcomeKindV1::ReadyFinance);
    assert_eq!(route.routing_authority, Some(RoutingAuthorityV1::UserSelected));
    assert_eq!(route.confirmed_scope, Some(SubjectScopeV1::Finance));
    let confirmed = resolve_route_v1(
        &envelope(),
        Some(proposal(SubjectScopeV1::General, 1)),
        Some(SubjectScopeV1::General),
    )
    .unwrap();
    assert_eq!(confirmed.outcome, RouteOutcomeKindV1::ReadyGeneral);
    assert_eq!(confirmed.routing_authority, Some(RoutingAuthorityV1::UserConfirmedProposal));
}

#[test]
fn proposals_alone_settle_nothing() {
    let route = |given| resolve_route_v1(&envelope(), given, None).unwrap();
    let none = route(None);
    assert_eq!(none.outcome, RouteOutcomeKindV1::RoutingConfirmationRequired);
    assert_eq!(none.next_action, Some(RoutingNextActionV1::ChooseScope));
    let sure = route(Some(proposal(SubjectScopeV1::Finance, 80)));
    assert_eq!(sure.outcome, RouteOutcomeKindV1::FinanceConfirmationRequired);
    assert_eq!(sure.next_action, Some(RoutingNextActionV1::ConfirmFinance));
    let general = route(Some(proposal(SubjectScopeV1::General, 80)));
    assert_eq!(general.outcome, RouteOutcomeKindV1::GeneralConfirmationRequired);
    let unsure = route(Some(proposal(SubjectScopeV1::General, 79)));
    assert_eq!(unsure.outcome, RouteOutcomeKindV1::RoutingConfirmationRequired);
    assert_eq!(unsure.proposal, Some(proposal(SubjectScopeV1::General, 79)));
    let mixed = ClassifierProposalV1 {
        mixed_subjects: true,
        ..proposal(SubjectScopeV1::Finance, 99)
    };
    assert_eq!(
        route(Some(mixed)).outcome,
        RouteOutcomeKindV1::RoutingConfirmationRequired
    );
    assert!(none.confirmed_scope.is_none() && sure.confirmed_scope.is_none());
}

#[test]
fn confirmations_need_a_clear_proposal() {
    let rejected = |given, scope| {
        let route = resolve_route_v1(&envelope(), given, Some(scope)).unwrap();
        assert_eq!(route.outcome, RouteOutcomeKindV1::Rejected);
        route.rejection_reason.unwrap()
    };
    let general = SubjectScopeV1::General;
    assert_eq!(
        rejected(None, general),
        RouteRejectionReasonV1::ConfirmationRequiresProposal
    );
    assert_eq!(
        rejected(Some(proposal(SubjectScopeV1::Finance, 99)), general),
        RouteRejectionReasonV1::ConfirmationDoesNotMatchProposal
    );
    let mixed = ClassifierProposalV1 { mixed_subjects: true, ..proposal(general, 99) };
    assert_eq!(
        rejected(Some(mixed), general),
        RouteRejectionReasonV1::ConfirmationCannotResolveMixedOrConflictingProposal
    );
    assert_eq!(
        code(resolve_route_v1(&envelope(), Some(proposal(general, 101)), None)),
        "routing_proposal_invalid"
    );
    let mut broken = envelope();
    broken.capture_id = "x".into();
    assert_eq!(code(resolve_route_v1(&broken, None, None)), "capture_envelope_invalid");
}

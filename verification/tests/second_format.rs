use mko_core::asset_v2::{
    apply_inbox_catalog_v2, canonical_real_directory, check_bounded_content, check_bounded_file,
    check_opened_file, check_provider_step, check_record_size, draft_asset_record,
    inspect_inbox_pdf_assets_v2, inspect_provider_file, page_inbox_catalog_v2,
    provider_file_steps, read_asset_v2, register_pdf_asset_v2, registry_path_of,
    require_hydration_confirmation, require_registry_directory, revalidate_provider_snapshot,
    validate_asset_id, validate_asset_record_v2, validate_existing_asset,
    validated_disjoint_roots, AssetRecordV2, AssetRegistrationOutcomeV2, HydrationConfirmationV2,
    InboxAssetInspectionV2, InboxCatalogEntryV2, InspectedInboxEntryV2, ProviderFile,
    ProviderStep, RegistryEntryState, RegistryWriteV2,
};
use mko_core::atomic::AtomicWriteResult;
use mko_core::attempt_v2::{
    attempt_path, latest_preparation_attempt_v2, names_attempt, record_preparation_attempt_v2,
    unnamed_attempt, PreparationAttemptV2, PreparationOutcomeV2, StuckReasonV2,
};
use mko_core::config_v2::{DomainPolicyV2, KnowledgeConfigV2, PerspectiveV2};
use mko_core::dashboard_v2::{
    check_existing_dashboard, ensure_dashboard_v2, generated_files, require_real_views,
    DashboardOutcomeV2, ExistingDashboardFile,
};
use mko_core::error::MkoError;
use mko_core::fingerprint::{FileSnapshot, MAX_ASSET_BYTES};
use mko_core::home::{
    detect_repository_generation, inspect_home, legacy_home, HomeNextAction, HomeQueueSummary,
    HomeReport, KnownTitle, RepositoryGeneration, V3HomeReport,
};
use mko_core::json_v1::StateCounts;
use mko_core::json_v2::{
    accept_schema_version, JsonV2Success, QueueDataV2, JSON_SCHEMA_VERSION_V2,
};
use mko_core::local_path::{LocalPath, PathStep};
use mko_core::model::{Fingerprint, Timestamp};
use mko_core::model_v2::{EvidenceRefV2, KnowledgeUnitKindV2, TableRangeV2, TextSpanUtf8V2};
use mko_core::perspective_v2::{
    confirm_perspective_card, prepare_perspective_confirmation_v2,
    publish_perspective_confirmation_v2, select_perspectives, write_perspective_card, CurrentKnowledgeRevisionV2,
};
use mko_core::provider_scan::ProviderScanWarning;

fn at(seconds: i64) -> Timestamp {
    Timestamp { seconds, nanos: 0 }
}

fn asset_id(digit: &str) -> String {
    format!("personal-asset-{}", digit.repeat(64))
}

fn snapshot(digit: &str) -> FileSnapshot {
    FileSnapshot {
        fingerprint: Fingerprint {
            method: "sha256".into(),
            value: format!("sha256:{}", digit.repeat(64)),
        },
        size_bytes: 9,
        modified_at: at(1),
    }
}

fn record(digit: &str) -> AssetRecordV2 {
    draft_asset_record("papers/a.pdf", "google-drive-filesystem", 9, &snapshot(digit)).unwrap()
}

fn code<T: std::fmt::Debug>(result: Result<T, MkoError>) -> String {
    result.unwrap_err().code().to_string()
}

fn warning(code: &str, locator: Option<&str>) -> ProviderScanWarning {
    ProviderScanWarning {
        code: code.into(),
        message: "m".into(),
        provider_locator: locator.map(|locator| locator.into()),
    }
}

fn readable(locator: &str) -> InboxCatalogEntryV2 {
    InboxCatalogEntryV2::Readable { provider_locator: locator.into() }
}

fn posix(text: &str) -> LocalPath {
    let mut steps: Vec<PathStep> = Vec::new();
    if text.starts_with('/') {
        steps.push(PathStep::Root);
    }
    for (index, name) in text.split('/').enumerate() {
        match name {
            "" => {}
            "." if index > 0 => {}
            "." => steps.push(PathStep::Current),
            ".." => steps.push(PathStep::Parent),
            _ => steps.push(PathStep::Name(name.into())),
        }
    }
    LocalPath {
        text: text.into(),
        drive: String::new(),
        separator: '/',
        is_verbatim: false,
        is_absolute: text.starts_with('/'),
        steps,
    }
}

fn windows(drive: &str, rest: &str) -> LocalPath {
    let mut steps: Vec<PathStep> = Vec::new();
    if !drive.is_empty() {
        steps.push(PathStep::Prefix(drive.to_uppercase()));
    }
    if rest.starts_with('\\') {
        steps.push(PathStep::Root);
    }
    for (index, name) in rest.split(&['\\', '/'][..]).enumerate() {
        match name {
            "" => {}
            "." if index > 0 => {}
            "." => steps.push(PathStep::Current),
            ".." => steps.push(PathStep::Parent),
            _ => steps.push(PathStep::Name(name.into())),
        }
    }
    LocalPath {
        text: format!("{drive}{rest}"),
        drive: drive.into(),
        separator: '\\',
        is_verbatim: drive.starts_with("\\\\?\\"),
        is_absolute: !drive.is_empty() && rest.starts_with('\\'),
        steps,
    }
}

#[test]
fn placeholder_is_an_item_and_time_limit_stays_a_global_warning() {
    let page = page_inbox_catalog_v2(
        false,
        &vec![InboxCatalogEntryV2::Placeholder { provider_locator: "offline.pdf".into() }],
        &vec![ProviderScanWarning {
            code: "scan_time_limit".into(),
            message: "provider scan reached the time limit".into(),
            provider_locator: None,
        }],
        20,
    );
    let result = apply_inbox_catalog_v2(page, vec![]);
    assert!(!result.scan_complete);
    assert_eq!(result.remaining, 0);
    assert_eq!(result.items.len(), 1);
    assert_eq!(result.items[0].logical_locator, "offline.pdf");
    assert_eq!(result.items[0].error.as_ref().unwrap().code(), "asset_not_hydrated");
    assert_eq!(result.warnings.len(), 1);
    assert_eq!(result.warnings[0].code, "scan_time_limit");
}

#[test]
fn inbox_pages_are_bounded_and_ordered() {
    let entries: Vec<InboxCatalogEntryV2> =
        ["c.pdf", "a.pdf", "b.pdf"].into_iter().map(readable).collect();
    let page = page_inbox_catalog_v2(true, &entries, &vec![warning("invalid_pdf", Some("0.pdf"))], 2);
    let names: Vec<&str> = page.candidates.iter().map(|item| item.locator.as_str()).collect();
    assert_eq!(names, ["0.pdf", "a.pdf"]);
    assert_eq!((page.remaining, page.scan_complete), (2, false));
    assert_eq!(
        page.warnings[0].message,
        "2 additional discovered Inbox item(s) remain outside this bounded batch"
    );
    let result = apply_inbox_catalog_v2(page, vec![Err(MkoError::new("x", "m"))]);
    assert_eq!(result.items[0].error.as_ref().unwrap().code(), "invalid_pdf");
    assert_eq!(result.items[1].error.as_ref().unwrap().code(), "x");

    let local = page_inbox_catalog_v2(false, &entries, &vec![warning("invalid_pdf", Some("d"))], 9);
    assert!(local.scan_complete);
    let hidden = page_inbox_catalog_v2(false, &entries, &vec![warning("scan_entry_limit", None)], 9);
    assert!(!hidden.scan_complete);
    let known = page_inbox_catalog_v2(true, &entries, &vec![warning("z", Some("a.pdf"))], 9);
    assert_eq!((known.candidates.len(), known.warnings.len()), (3, 1));
}

#[test]
fn inbox_entries_are_counted() {
    let entry = |digit: &str, registry| InspectedInboxEntryV2::Readable {
        fingerprint: snapshot(digit).fingerprint,
        registry,
    };
    let found = inspect_inbox_pdf_assets_v2(
        true,
        &vec![
            InspectedInboxEntryV2::Placeholder,
            entry("a", RegistryEntryState::Absent),
            entry("b", RegistryEntryState::Valid),
            entry("c", RegistryEntryState::Invalid),
            entry("d", RegistryEntryState::Unreadable),
        ],
        2,
    )
    .unwrap();
    assert_eq!((found.new_count, found.registered_count, found.blocked_count), (1, 1, 5));
    assert_eq!(found.registered_asset_ids, [asset_id("b")]);
    let foreign = InspectedInboxEntryV2::Readable {
        fingerprint: Fingerprint { method: "md5".into(), value: "x".into() },
        registry: RegistryEntryState::Absent,
    };
    assert_eq!(
        code(inspect_inbox_pdf_assets_v2(true, &vec![foreign], 0)),
        "fingerprint_invalid"
    );
}

#[test]
fn records_are_made_of_their_content() {
    let made = record("a");
    assert_eq!(made.id, asset_id("a"));
    assert_eq!(made.title_fallback, "a.pdf");
    assert_eq!(made.provider.logical_locator, "papers/a.pdf");
    assert_eq!(made.provider.modified_at, Some(at(1)));
    assert!(validate_asset_record_v2(&made).is_ok());
    let change: Vec<fn(&mut AssetRecordV2)> = vec![
        |r| r.schema_version = 1,
        |r| r.fingerprint = "sha256:0".into(),
        |r| r.title_fallback = "".into(),
        |r| r.title_fallback = "x".repeat(4097),
        |r| r.media_type = "text/plain".into(),
        |r| r.provider.provider_type = "local".into(),
        |r| r.provider.size_bytes = MAX_ASSET_BYTES + 1,
        |r| r.provider.logical_locator = "/a".into(),
    ];
    for edit in change {
        let mut changed = record("a");
        edit(&mut changed);
        assert_eq!(code(validate_asset_record_v2(&changed)), "asset_record_invalid");
    }
    assert_eq!(code(validate_asset_id("personal-asset-A")), "asset_id_invalid");
    assert_eq!(
        code(draft_asset_record("a.pdf", "google-drive-filesystem", 8, &snapshot("a"))),
        "registered_asset_changed"
    );
    assert!(check_record_size(32_768).is_ok());
    assert_eq!(code(check_record_size(32_769)), "asset_record_invalid");
}

#[test]
fn content_keeps_its_first_record() {
    let made = register_pdf_asset_v2(record("a"), RegistryWriteV2::Created).unwrap();
    assert_eq!(made.outcome, AssetRegistrationOutcomeV2::Created);
    assert_eq!(made.registry_path, registry_path_of(&asset_id("a")));
    let mut first = record("a");
    first.provider.logical_locator = "first.pdf".into();
    let again = register_pdf_asset_v2(
        record("a"),
        RegistryWriteV2::Existing { standing: Ok(first.clone()) },
    )
    .unwrap();
    assert_eq!((again.outcome, again.asset), (AssetRegistrationOutcomeV2::Existing, first.clone()));
    let failed = register_pdf_asset_v2(
        record("a"),
        RegistryWriteV2::Existing { standing: Err(MkoError::new("x", "m")) },
    );
    assert_eq!(code(failed), "x");
    assert!(validate_existing_asset(&Some(first), false, &record("a")).is_ok());
    assert_eq!(
        code(validate_existing_asset(&Some(record("b")), false, &record("a"))),
        "asset_registry_conflict"
    );
    assert_eq!(
        code(validate_existing_asset(&None, false, &record("a"))),
        "asset_registry_conflict"
    );
    let read = |parsed, canonical| read_asset_v2(&asset_id("a"), parsed, canonical);
    assert_eq!(read(Ok(record("a")), true).unwrap(), record("a"));
    assert_eq!(code(read(Ok(record("a")), false)), "asset_registry_invalid");
    assert_eq!(code(read(Ok(record("b")), true)), "asset_registry_invalid");
    assert_eq!(read(Err("eof".into()), true).unwrap_err().message(), "eof");
    assert_eq!(code(read_asset_v2("x", Ok(record("a")), true)), "asset_id_invalid");
    assert!(require_registry_directory(true).is_ok());
    assert_eq!(code(require_registry_directory(false)), "asset_registry_invalid");
}

#[test]
fn large_files_are_read_on_confirmation() {
    let check = require_hydration_confirmation;
    assert!(check(10, 10, HydrationConfirmationV2::NotConfirmed).is_ok());
    let asked = check(11, 10, HydrationConfirmationV2::NotConfirmed).unwrap_err();
    assert_eq!(asked.code(), "hydration_confirmation_required");
    assert_eq!(
        asked.message(),
        "provider reports 11 bytes; exact identity requires a complete read or download"
    );
    assert!(check(11, 10, HydrationConfirmationV2::Confirmed).is_ok());
    assert!(check(MAX_ASSET_BYTES, 10, HydrationConfirmationV2::Confirmed).is_ok());
    assert_eq!(
        code(check(MAX_ASSET_BYTES + 1, 10, HydrationConfirmationV2::Confirmed)),
        "file_too_large"
    );
}

#[test]
fn roots_stand_apart() {
    assert!(validated_disjoint_roots(&posix("/a/b"), &posix("/a/bc")).is_ok());
    for (repository, provider) in [("/a", "/a/b"), ("/a/b", "/a"), ("/a", "/a")] {
        assert_eq!(
            code(validated_disjoint_roots(&posix(repository), &posix(provider))),
            "storage_roots_overlap"
        );
    }
    let disjoint = |repository: LocalPath, provider: LocalPath| {
        validated_disjoint_roots(&repository, &provider).is_ok()
    };
    assert!(disjoint(windows("C:", "\\a\\b"), windows("C:", "\\a\\bc")));
    assert!(disjoint(windows("C:", "\\a"), windows("D:", "\\a\\b")));
    assert!(!disjoint(windows("C:", "\\a"), windows("c:", "\\a\\b")));
    assert!(!disjoint(windows("C:", "\\a/b"), windows("C:", "\\a\\")));
    assert_eq!(canonical_real_directory("c", true, Ok("/a".into())).unwrap(), "/a");
    assert_eq!(
        canonical_real_directory("c", false, Ok("/a".into())).unwrap_err().message(),
        "root must be a real directory"
    );
    assert_eq!(code(canonical_real_directory("c", true, Err("m".into()))), "c");
}

#[test]
fn provider_files_are_reached_step_by_step() {
    assert_eq!(provider_file_steps("a/b.pdf").unwrap(), ["a", "b.pdf"]);
    assert_eq!(code(provider_file_steps("Cafe\u{301}.pdf")), "path_not_portable");
    assert!(provider_file_steps("../a.pdf").is_err());
    assert!(check_provider_step(&ProviderStep::Directory).is_ok());
    assert_eq!(
        check_provider_step(&ProviderStep::Unopened).unwrap_err().message(),
        "provider locator contains an unreadable link or non-directory"
    );
    assert_eq!(
        check_provider_step(&ProviderStep::NotDirectory).unwrap_err().message(),
        "provider locator contains a link or non-directory"
    );
    let regular = |size_bytes| ProviderFile::Regular { size_bytes };
    assert_eq!(inspect_provider_file(&regular(9)).unwrap(), 9);
    assert_eq!(code(inspect_provider_file(&ProviderFile::NotRegular)), "file_unreadable");
    assert_eq!(
        code(inspect_provider_file(&ProviderFile::Absent { detail: "m".into() })),
        "asset_not_hydrated"
    );
    assert_eq!(
        code(inspect_provider_file(&ProviderFile::Unreadable { detail: "m".into() })),
        "file_unreadable"
    );
    assert!(check_opened_file(&Some(regular(9)), 9).is_ok());
    assert_eq!(code(check_opened_file(&None, 9)), "asset_not_hydrated");
    assert_eq!(code(check_opened_file(&Some(regular(8)), 9)), "registered_asset_changed");
    assert!(revalidate_provider_snapshot(9, &snapshot("a"), &snapshot("a")).is_ok());
    assert_eq!(
        code(revalidate_provider_snapshot(9, &snapshot("b"), &snapshot("a"))),
        "registered_asset_changed"
    );
    assert_eq!(
        code(revalidate_provider_snapshot(8, &snapshot("a"), &snapshot("a"))),
        "registered_asset_changed"
    );
    assert!(check_bounded_file("asset_registry", true, false, 10, 10).is_ok());
    let failure = check_bounded_file("asset_registry", true, false, 11, 10).unwrap_err();
    assert_eq!(failure.code(), "asset_registry_invalid");
    assert_eq!(failure.message(), "asset_registry must be a bounded regular non-link file");
    assert_eq!(
        check_bounded_content("asset_registry", 11, 10).unwrap_err().message(),
        "asset_registry exceeds its bounded input size"
    );
}

fn attempt(asset: &str, code: Option<&str>, seconds: i64) -> PreparationAttemptV2 {
    let found = unnamed_attempt(asset, PreparationOutcomeV2::Failed, code, at(seconds));
    record_preparation_attempt_v2(found, &format!("sha256:{seconds}"))
}

#[test]
fn attempts_are_named_by_their_content() {
    let found = attempt("a", Some("x"), 3);
    assert_eq!(found.id, "personal-attempt-sha256-3");
    assert_eq!(attempt_path(&found.id), "assets/attempts/personal-attempt-sha256-3.json");
    assert!(names_attempt("a.json"));
    assert!(!names_attempt("a.json.tmp"));
    let all = vec![
        attempt("a", Some("first"), 5),
        attempt("b", None, 9),
        attempt("a", Some("second"), 7),
        attempt("a", Some("third"), 7),
        attempt("a", Some("fourth"), 6),
    ];
    let latest = latest_preparation_attempt_v2(&all, "a").unwrap();
    assert_eq!(latest.code.as_deref(), Some("third"));
    assert!(latest_preparation_attempt_v2(&all, "c").is_none());
    assert_eq!(StuckReasonV2::from_code("pdf_text_unreadable"), StuckReasonV2::TextUnreadable);
    assert_eq!(StuckReasonV2::from_code("asset_not_hydrated"), StuckReasonV2::DownloadRequired);
    assert_eq!(StuckReasonV2::from_code("other"), StuckReasonV2::Retryable);
}

fn home(attempts: Option<Vec<PreparationAttemptV2>>) -> V3HomeReport {
    inspect_home(
        &InboxAssetInspectionV2 {
            new_count: 1,
            registered_count: 3,
            blocked_count: u64::MAX,
            registered_asset_ids: vec!["a".into(), "b".into(), "c".into()],
            scan_complete: true,
        },
        &HomeQueueSummary {
            recorded_asset_ids: vec!["b".into()],
            review_pending: 4,
            changes_requested: 5,
            approved_knowledge: 6,
            blocked: 1,
        },
        &attempts,
        &vec![KnownTitle { asset_id: "a".into(), title: "Paper".into() }],
    )
}

#[test]
fn stuck_material_is_named_with_its_reason() {
    let report = home(Some(vec![attempt("a", Some("pdf_text_unreadable"), 1)]));
    assert_eq!((report.in_progress, report.blocked), (2, u64::MAX));
    assert_eq!(report.stuck[0].title, "Paper");
    assert_eq!(report.stuck[0].reason, StuckReasonV2::TextUnreadable);
    assert_eq!(report.stuck[1].title, "c");
    assert_eq!(report.stuck[1].reason, StuckReasonV2::NotAttempted);
    assert_eq!(home(None).stuck[0].reason, StuckReasonV2::NotAttempted);
    assert_eq!((report.review_pending, report.approved_knowledge), (4, 6));
}

#[test]
fn home_names_the_next_step() {
    let mut report = home(None);
    let next = |report: &V3HomeReport| HomeReport::V3(report.clone()).next_action();
    assert_eq!(next(&report), HomeNextAction::Repair);
    report.blocked = 0;
    assert_eq!(next(&report), HomeNextAction::Review);
    report.review_pending = 0;
    assert_eq!(next(&report), HomeNextAction::Review);
    report.changes_requested = 0;
    assert_eq!(next(&report), HomeNextAction::Add);
    report.new_material = 0;
    assert_eq!(next(&report), HomeNextAction::Add);
    report.in_progress = 0;
    assert_eq!(next(&report), HomeNextAction::Nothing);
    let mut counts = StateCounts {
        fresh: 0,
        registered: 0,
        incomplete: 1,
        review_pending: 0,
        processed: 9,
        blocked: 0,
    };
    let legacy = legacy_home(&counts);
    assert_eq!(legacy.generation(), RepositoryGeneration::LegacyV1);
    assert_eq!(legacy.next_action(), HomeNextAction::Add);
    counts.incomplete = 0;
    assert_eq!(legacy_home(&counts).next_action(), HomeNextAction::Nothing);
    counts.review_pending = 1;
    assert_eq!(legacy_home(&counts).next_action(), HomeNextAction::Review);
    counts.blocked = 1;
    assert_eq!(legacy_home(&counts).next_action(), HomeNextAction::Repair);
    assert_eq!(
        detect_repository_generation(Ok(()), true).unwrap(),
        RepositoryGeneration::V3
    );
    let failed = || Err(MkoError::new("kb_config_invalid", "m"));
    assert_eq!(
        detect_repository_generation(failed(), true).unwrap(),
        RepositoryGeneration::LegacyV1
    );
    assert_eq!(code(detect_repository_generation(failed(), false)), "kb_config_invalid");
}

#[test]
fn edited_dashboards_stay_as_they_are() {
    let files = generated_files();
    let paths: Vec<&str> = files.iter().map(|file| file.path.as_str()).collect();
    assert_eq!(paths, ["HOME.md", "views/review-queue.base", "views/knowledge-library.base"]);
    assert!(files[0].content.starts_with("---\ntype: dashboard\n"));
    assert!(files[0].content.ends_with("확인할 수 있습니다.\n"));
    let regular = |content: &str| ExistingDashboardFile::Regular { content: content.into() };
    assert!(check_existing_dashboard("HOME.md", "x", &regular("x")).is_ok());
    let edited = check_existing_dashboard("HOME.md", "x", &regular("y")).unwrap_err();
    assert_eq!(edited.code(), "dashboard_drift");
    assert_eq!(
        edited.message(),
        "generated dashboard HOME.md was edited; preserve it and choose an explicit repair"
    );
    assert_eq!(
        check_existing_dashboard("HOME.md", "x", &ExistingDashboardFile::NotRegular)
            .unwrap_err()
            .message(),
        "generated dashboard path HOME.md is not a regular file"
    );
    let unreadable = ExistingDashboardFile::Unreadable { detail: "m".into() };
    assert_eq!(
        check_existing_dashboard("HOME.md", "x", &unreadable).unwrap_err().message(),
        "m"
    );
    let existing = AtomicWriteResult::Existing;
    let created =
        ensure_dashboard_v2(&vec![Ok(existing), Ok(AtomicWriteResult::Created), Ok(existing)])
            .unwrap();
    assert_eq!(created.outcome, DashboardOutcomeV2::Created);
    assert_eq!(created.generated_files, paths);
    assert_eq!(
        ensure_dashboard_v2(&vec![Ok(existing), Ok(existing), Ok(existing)]).unwrap().outcome,
        DashboardOutcomeV2::Existing
    );
    let edited = ExistingDashboardFile::Regular { content: b"mine".to_vec() };
    let drifted = check_existing_dashboard("HOME.md", "x", &edited).unwrap_err();
    let stopped = ensure_dashboard_v2(&vec![
        Ok(existing),
        Err(drifted),
        Err(MkoError::new("atomic_write_failed", "m")),
    ]);
    assert_eq!(
        stopped.unwrap_err().message(),
        "generated dashboard HOME.md was edited; preserve it and choose an explicit repair"
    );
    assert!(require_real_views(true, false).is_ok());
    assert_eq!(code(require_real_views(true, true)), "dashboard_path_invalid");
    assert_eq!(code(require_real_views(false, false)), "dashboard_path_invalid");
}

fn current(kinds: Vec<KnowledgeUnitKindV2>) -> CurrentKnowledgeRevisionV2 {
    CurrentKnowledgeRevisionV2 {
        record_id: "k".into(),
        revision: "sha256:1".into(),
        unit_kinds: kinds,
    }
}

#[test]
fn investments_are_doubted_before_they_are_confirmed() {
    let config = KnowledgeConfigV2::personal_default();
    let doubted =
        || current(vec![KnowledgeUnitKindV2::Counterargument, KnowledgeUnitKindV2::OpenQuestion]);
    let chosen = vec![PerspectiveV2::Investment, PerspectiveV2::Life, PerspectiveV2::Investment];
    let selection = select_perspectives(&config, &chosen, &doubted()).unwrap();
    assert_eq!(*selection.perspectives(), [PerspectiveV2::Life, PerspectiveV2::Investment]);
    assert_eq!(selection.domain_policy(), DomainPolicyV2::HighRisk);
    for kinds in [
        vec![],
        vec![KnowledgeUnitKindV2::Counterargument],
        vec![KnowledgeUnitKindV2::OpenQuestion],
    ] {
        assert_eq!(
            code(select_perspectives(&config, &chosen, &current(kinds))),
            "high_risk_knowledge_incomplete"
        );
    }
    assert_eq!(
        code(select_perspectives(&config, &vec![], &doubted())),
        "perspective_selection_invalid"
    );
    let plain = select_perspectives(&config, &vec![PerspectiveV2::Life], &current(vec![])).unwrap();
    assert_eq!(plain.domain_policy(), DomainPolicyV2::Standard);
}

#[test]
fn perspectives_are_confirmed_as_shown() {
    let config = KnowledgeConfigV2::personal_default();
    let now = current(vec![]);
    let selection = select_perspectives(
        &config,
        &vec![PerspectiveV2::Technical, PerspectiveV2::Life],
        &now,
    )
    .unwrap();
    assert_eq!(
        write_perspective_card(&now, &selection, "sha256:e"),
        "# Perspective confirmation\n\n- Knowledge ID: `k`\n- Current revision: `sha256:1`\n- Perspectives: `life, technical`\n- Derived policy: `standard`\n- Effect digest: `sha256:e`\n\nThis publishes a new pending Knowledge revision. It does not approve, commit, push, or promote anything.\n"
    );
    let named = confirm_perspective_card(&now, &selection, "sha256:e", "sha256:c".into());
    assert_eq!(named.confirmation_phrase, "confirm-perspectives sha256:c sha256:e");
    let prepared = prepare_perspective_confirmation_v2(&now, &selection, "sha256:e");
    let card_digest = "sha256:33480ad9e8182381ac03716b08e1b31f9ab50ab761b892c2758c5ac2df475816";
    assert_eq!(prepared.card_digest, card_digest);
    assert_eq!(
        prepared.confirmation_phrase,
        format!("confirm-perspectives {card_digest} sha256:e")
    );
    assert_eq!(
        prepared.confirmation_card,
        write_perspective_card(&now, &selection, "sha256:e")
    );
    assert_eq!(
        code(publish_perspective_confirmation_v2(&prepared, &named, &named.confirmation_phrase)),
        "perspective_confirmation_stale"
    );
    let phrase = prepared.confirmation_phrase.clone();
    assert!(publish_perspective_confirmation_v2(&prepared, &prepared, &phrase).is_ok());
    assert_eq!(
        code(publish_perspective_confirmation_v2(&prepared, &prepared, "yes")),
        "perspective_confirmation_mismatch"
    );
    let mut later = prepared.clone();
    later.current.revision = "sha256:2".into();
    assert_eq!(
        code(publish_perspective_confirmation_v2(&later, &prepared, &phrase)),
        "perspective_confirmation_stale"
    );
}

#[test]
fn answers_carry_their_schema_version() {
    assert_eq!(accept_schema_version(2).unwrap(), 2);
    assert_eq!(accept_schema_version(1).unwrap_err(), "schema_version must be 2");
    let data = QueueDataV2 { items: vec![], scan_complete: true, remaining: 0, next_cursor: None };
    match JsonV2Success::queue(data) {
        JsonV2Success::Queue { schema_version, data, .. } => {
            assert_eq!(schema_version, JSON_SCHEMA_VERSION_V2);
            assert!(data.scan_complete);
        }
        other => panic!("{other:?}"),
    }
}

#[test]
fn evidence_is_narrowed_in_one_way() {
    let span = || Some(TextSpanUtf8V2 { start: 0, end: 1 });
    let range =
        || Some(TableRangeV2 { row_start: 0, row_end: 1, column_start: 0, column_end: 1 });
    let new = |span, range| EvidenceRefV2::new("b".into(), "l".into(), span, range);
    assert!(new(None, None).is_ok());
    assert_eq!(new(span(), None).unwrap().text_span_utf8, span());
    assert_eq!(new(None, range()).unwrap().table_range, range());
    assert_eq!(
        new(span(), range()).unwrap_err(),
        "evidence reference may use at most one narrowing form"
    );
}

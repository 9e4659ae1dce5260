use mko_core::add::{
    add_action, add_pdf, after_link, after_name, apply_inbox_scan, available_destination_name,
    capture_discovered_item, capture_needed, check_opened_source, collision_entry,
    copy_exact_snapshot, ensure_pdf_extension, finish_add, import_lock_record, import_lock_taken,
    import_outside_pdf, import_owner_token, import_source_name, import_temporary_name,
    load_existing_asset, logical_provider_locator, ownership_marker_matches,
    parse_capture_outcome, plan_inbox_scan, publish_owner_claim, require_complete_scan,
    reset_reserved_temp_root, single_source, validate_existing_pdf,
    validate_retained_import_lock, AddAction, AddAnswer, AddInput, AddPlan, AddRequest, AddResult,
    AddRunResult, BackupAttestation, BatchAddResult, BatchItemSeed, CaptureAnswer, ImportLockTry, ImportStep, InboxAddScan, InsideFile, Linking,
    RegistryEntry, ReservedEntry, IMPORT_TEMP_MARKER,
};
use mko_core::catalog::{CatalogItem, SourceObservation};
use mko_core::context::{ContextSource, ResolvedPersonalContext, Scope};
use mko_core::error::MkoError;
use mko_core::fingerprint::FileSnapshot;
use mko_core::inbox::{
    lock_asset_id, read_asset_file, read_flat_markdown, read_source, scan_inbox, FlatEntry,
    InboxEvidence, InboxScanRequest, InboxScanResult, SourceDocument,
};
use mko_core::json_v1::{
    AddOutcome, DiagnosticData, ImportOutcome, NextAction, RecoveryKind, StateCounts, UserState,
};
use mko_core::model::{
    AssetRecord, AssetStatus, Classification, Fingerprint, Generation, LastError,
    LastSuccessfulStep, Provider, Relations, Review, ReviewStatus, SourceMetadata, SourceRecord,
    SourceStatus, Timestamp,
};
use mko_core::provider_scan::{ProviderPdf, ProviderScanWarning, ScanLimits};

fn limits() -> ScanLimits {
    ScanLimits {
        max_entries: 100,
        max_total_bytes: 1000,
        max_elapsed_ms: 1000,
        max_depth: 3,
        max_batch_items: 20,
    }
}

fn at() -> Timestamp {
    Timestamp { seconds: 1_700_000_000, nanos: 0 }
}

fn fingerprint(digit: &str) -> Fingerprint {
    Fingerprint { method: "sha256".into(), value: format!("sha256:{}", digit.repeat(64)) }
}

fn asset_id(digit: &str) -> String {
    format!("personal-asset-{}", digit.repeat(64))
}

fn asset(digit: &str, status: AssetStatus) -> AssetRecord {
    AssetRecord {
        id: asset_id(digit),
        record_type: "asset".into(),
        schema_version: 1,
        scope: "personal".into(),
        title: "Paper".into(),
        classification: Classification::Personal,
        asset_class: "document".into(),
        media_type: "application/pdf".into(),
        provider: Provider {
            provider_type: "google-drive-stream".into(),
            locator: format!("{digit}.pdf"),
            revision: None,
        },
        size_bytes: 9,
        modified_at: at(),
        fingerprint: fingerprint(digit),
        asset_status: status,
        durable_state_history: vec![],
        supersedes: None,
        last_successful_step: LastSuccessfulStep::Registered,
        last_error: LastError { code: None, retryable: false },
        created_at: at(),
        updated_at: at(),
    }
}

fn pdf(digit: &str) -> ProviderPdf {
    ProviderPdf {
        provider_locator: format!("{digit}.pdf"),
        relative_path: format!("{digit}.pdf"),
        fingerprint: fingerprint(digit),
        size_bytes: 9,
    }
}

fn snapshot(digit: &str) -> FileSnapshot {
    FileSnapshot { fingerprint: fingerprint(digit), size_bytes: 9, modified_at: at() }
}

fn evidence() -> InboxEvidence {
    InboxEvidence {
        scan_complete: true,
        scan_warnings: vec![],
        pdfs: vec![],
        assets: vec![],
        asset_errors: vec![],
        assets_complete: true,
        sources: vec![],
        source_errors: vec![],
        sources_complete: true,
        locked_ids: vec![],
    }
}

fn request() -> InboxScanRequest {
    InboxScanRequest::new("/repo", "/inbox", limits())
}

fn scanned(edit: impl FnOnce(&mut InboxEvidence)) -> InboxScanResult {
    let mut found = evidence();
    edit(&mut found);
    scan_inbox(request(), found)
}

fn source_document(digit: &str, observation: SourceObservation) -> SourceDocument {
    SourceDocument { asset_id: asset_id(digit), observation }
}

fn code<T: std::fmt::Debug>(result: Result<T, MkoError>) -> String {
    result.unwrap_err().code().to_string()
}

#[test]
fn inbox_items_are_compared_with_the_registry() {
    let report = scanned(|e| {
        e.pdfs = vec![pdf("c"), pdf("a"), pdf("b")];
        e.assets = vec![
            asset("a", AssetStatus::Registered),
            asset("b", AssetStatus::Processed),
            asset("d", AssetStatus::Registered),
        ];
        e.sources = vec![source_document("b", SourceObservation::Approved)];
    });
    let listed: Vec<(&str, UserState, NextAction)> = report
        .items
        .iter()
        .map(|item| (item.provider_locator.as_str(), item.user_state, item.next_action))
        .collect();
    assert_eq!(
        listed,
        [
            ("a.pdf", UserState::Registered, NextAction::Prepare),
            ("b.pdf", UserState::Processed, NextAction::Nothing),
            ("c.pdf", UserState::New, NextAction::Add),
            ("d.pdf", UserState::Blocked, NextAction::Hydrate)
        ]
    );
    assert_eq!(
        report.state_counts,
        StateCounts {
            fresh: 1,
            registered: 1,
            incomplete: 0,
            review_pending: 0,
            processed: 1,
            blocked: 1
        }
    );
    assert!(report.scan_complete);
    assert_eq!(report.recommended_action, NextAction::Hydrate);
    assert_eq!(report.primary_blocker.unwrap().code, "provider_missing");
    assert_eq!(report.items[0].asset_id.as_deref(), Some(asset_id("a").as_str()));
}

#[test]
fn disagreement_blocks_an_item() {
    let state = |edit: fn(&mut InboxEvidence)| {
        let report = scanned(|e| {
            e.pdfs = vec![pdf("a")];
            e.assets = vec![asset("a", AssetStatus::ReviewPending)];
            e.sources = vec![source_document("a", SourceObservation::ReviewPending)];
            edit(e);
        });
        (report.items[0].user_state, report.items[0].next_action)
    };
    assert_eq!(state(|_| {}), (UserState::ReviewPending, NextAction::Review));
    assert_eq!(state(|e| e.sources.clear()).0, UserState::Blocked);
    assert_eq!(state(|e| e.pdfs[0].size_bytes = 1).0, UserState::Blocked);
    assert_eq!(state(|e| e.pdfs[0].fingerprint = fingerprint("b")).0, UserState::Blocked);
    assert_eq!(
        state(|e| e.locked_ids = vec![asset_id("a")]),
        (UserState::Blocked, NextAction::Retry)
    );
    let twice = scanned(|e| {
        e.pdfs = vec![pdf("a")];
        e.assets = vec![asset("a", AssetStatus::ReviewPending)];
        e.sources = vec![
            source_document("a", SourceObservation::ReviewPending),
            source_document("a", SourceObservation::ReviewPending),
        ];
    });
    assert_eq!(twice.items[0].user_state, UserState::Blocked);
    assert_eq!(twice.errors[0].code, "duplicate_conflict");
    assert_eq!(twice.primary_blocker.unwrap().code, "duplicate_conflict");
}

#[test]
fn limits_of_a_scan_are_told() {
    let many = scanned(|e| {
        e.pdfs = (0..22)
            .map(|i| ProviderPdf { provider_locator: format!("{i:02}.pdf"), ..pdf("a") })
            .collect()
    });
    assert_eq!((many.items.len(), many.remaining, many.scan_complete), (20, 2, false));
    assert_eq!(many.warnings[0].message, "20 actionable inbox items shown; 2 remaining.");
    let partial = scanned(|e| {
        e.sources_complete = false;
        e.scan_warnings = vec![
            ProviderScanWarning {
                code: "scan_time_limit".into(),
                message: "m".into(),
                provider_locator: None,
            },
            ProviderScanWarning {
                code: "invalid_pdf".into(),
                message: "m".into(),
                provider_locator: Some("x.pdf".into()),
            },
        ];
    });
    let told: Vec<(&str, &str)> = partial
        .warnings
        .iter()
        .map(|warning| (warning.code.as_str(), warning.message.as_str()))
        .collect();
    assert_eq!(
        told,
        [
            ("invalid_pdf", "m"),
            (
                "repository_scan_limit_reached",
                "The repository catalog scan reached a fixed limit."
            ),
            ("scan_limit_reached", "The inbox scan reached its time limit.")
        ]
    );
    assert!(!partial.scan_complete);
    let data = scanned(|e| e.pdfs = vec![pdf("a")]).into_data();
    assert_eq!(data.items[0].next_action, NextAction::Add);
    assert_eq!(data.scan_limits.max_batch_items, 20);
    let other = request().with_limits(ScanLimits { max_depth: 9, ..limits() });
    assert_eq!(other.limits().max_depth, 9);
    assert_eq!((other.repository_root(), other.provider_root()), ("/repo", "/inbox"));
}

#[test]
fn catalog_documents_are_read_within_limits() {
    let entry = |name: &str, size_bytes| FlatEntry {
        name: Some(name.into()),
        regular_file: true,
        markdown: true,
        size_bytes,
    };
    let link = FlatEntry { regular_file: false, ..entry("l.md", 1) };
    let other = FlatEntry { markdown: false, ..entry("o.txt", 5000) };
    let (names, complete) =
        read_flat_markdown(&vec![entry("a.md", 400), link, other, entry("b.md", 600)], limits())
            .unwrap();
    assert_eq!((names, complete), (vec!["a.md".to_string(), "b.md".into()], true));
    let (names, complete) =
        read_flat_markdown(&vec![entry("a.md", 400), entry("b.md", 601)], limits()).unwrap();
    assert_eq!((names, complete), (vec!["a.md".to_string()], false));
    let few = ScanLimits { max_entries: 1, ..limits() };
    assert!(!read_flat_markdown(&vec![entry("a.md", 1), entry("b.md", 1)], few).unwrap().1);
    let nameless = FlatEntry { name: None, ..entry("", 1) };
    assert_eq!(code(read_flat_markdown(&vec![nameless], limits())), "invalid_path");
    let record = asset("a", AssetStatus::Registered);
    let name = format!("{}.md", record.id);
    assert_eq!(read_asset_file(&name, record.clone()).unwrap(), record);
    assert_eq!(code(read_asset_file("x.md", record)), "registry_conflict");
    assert_eq!(lock_asset_id("a.lock").as_deref(), Some("a"));
    assert_eq!(lock_asset_id("a.lock.takeover").as_deref(), Some("a"));
    assert_eq!(lock_asset_id("a.json"), None);
}

fn source_record(assets: Vec<String>) -> SourceRecord {
    SourceRecord {
        id: "s".into(),
        record_type: "source".into(),
        schema_version: 1,
        scope: "personal".into(),
        title: "T".into(),
        status: SourceStatus::Approved,
        created_at: at(),
        updated_at: at(),
        tags: vec![],
        domain: vec![],
        ai_assisted: true,
        relations: Relations { asset_ids: assets },
        generation: Generation {
            extractor_name: "".into(),
            extractor_version: "".into(),
            core_version: "".into(),
            processor_version: "".into(),
            prompt_version: "".into(),
            asset_fingerprint: "".into(),
        },
        content_revision: "".into(),
        review: Review { status: ReviewStatus::Pending, approved_revision: None, reviewed_at: None },
        source_metadata: SourceMetadata { authors: vec![], publication_date: None, doi: None },
    }
}

#[test]
fn sources_are_read_for_their_asset() {
    let assets = vec![asset("a", AssetStatus::Processed)];
    let read = |ids: Vec<String>| {
        read_source("s.md", &source_record(ids), "", &assets, Ok("sha256:0".into()))
    };
    assert_eq!(code(read(vec![])), "source_invalid");
    assert_eq!(code(read(vec!["x".into()])), "relation_missing");
    let found = read(vec![asset_id("a")]).unwrap();
    assert_eq!(found.observation, SourceObservation::Invalid);
    assert_eq!(found.asset_id, asset_id("a"));
}

fn item(locator: &str, next_action: NextAction) -> CatalogItem {
    CatalogItem {
        provider_locator: locator.into(),
        user_state: UserState::New,
        asset_id: None,
        next_action,
        diagnostic: None,
    }
}

fn add_scan(items: Vec<CatalogItem>, mutation_safe: bool) -> InboxAddScan {
    let mut report = scanned(|_| {});
    report.items = items;
    report.scan_complete = mutation_safe;
    InboxAddScan { report, mutation_safe }
}

#[test]
fn mutation_unsafe_scan_globally_blocks_an_unaffected_new_item() {
    let mut scan = add_scan(vec![item("safe.pdf", NextAction::Add)], false);
    scan.report.warnings = vec![DiagnosticData {
        code: "fingerprint_changed".into(),
        message: "internal path details must not escape".into(),
        path: Some("raced.pdf".into()),
    }];
    let plan = plan_inbox_scan(BackupAttestation::UserVerified, scan);
    assert!(plan.seeds.iter().all(|seed| {
        !capture_needed(seed, plan.mutation_safe, plan.backup_attestation)
    }));
    let result = apply_inbox_scan(plan, &vec![CaptureAnswer::NoSnapshot]);
    assert!(!result.scan_complete);
    assert_eq!(result.items.len(), 1);
    assert_eq!(result.items[0].provider_locator, "safe.pdf");
    assert_eq!(result.items[0].next_action, NextAction::Retry);
    assert_eq!(result.items[0].error.as_ref().unwrap().code, "provider_scan_incomplete");
}

#[test]
fn batches_report_every_item() {
    let mut scan = add_scan(
        vec![
            item("d.pdf", NextAction::Review),
            item("c.pdf", NextAction::Add),
            item("b.pdf", NextAction::Add),
            item("a.pdf", NextAction::Nothing),
        ],
        true,
    );
    scan.report.errors = vec![DiagnosticData {
        code: "invalid_pdf".into(),
        message: "secret".into(),
        path: Some("e.pdf".into()),
    }];
    let plan = plan_inbox_scan(BackupAttestation::UserVerified, scan);
    let names: Vec<String> = plan.seeds.iter().map(|seed| seed.provider_locator.clone()).collect();
    assert_eq!(names, ["b.pdf", "c.pdf", "d.pdf", "e.pdf"]);
    let answers = vec![
        CaptureAnswer::Captured { add_outcome: AddOutcome::Created, asset_id: "x".into() },
        CaptureAnswer::Refused { failure: MkoError::new("fingerprint_changed", "secret") },
        CaptureAnswer::NoSnapshot,
        CaptureAnswer::NoSnapshot,
    ];
    let result = apply_inbox_scan(plan, &answers);
    assert!(result.scan_complete);
    let listed: Vec<(&str, NextAction)> = result
        .items
        .iter()
        .map(|item| (item.provider_locator.as_str(), item.next_action))
        .collect();
    assert_eq!(
        listed,
        [
            ("b.pdf", NextAction::Prepare),
            ("c.pdf", NextAction::Add),
            ("d.pdf", NextAction::Review),
            ("e.pdf", NextAction::Repair)
        ]
    );
    assert_eq!(result.items[0].add_outcome, Some(AddOutcome::Created));
    let refused = result.items[1].error.as_ref().unwrap();
    assert_eq!(refused.message, "The inbox PDF changed during processing; retry the scan.");
    assert_eq!(refused.recovery.as_ref().unwrap().kind, RecoveryKind::Retry);
    let broken = result.items[3].error.as_ref().unwrap();
    assert_eq!(broken.message, "The PDF could not be validated.");
}

#[test]
fn batches_ask_for_a_backup() {
    let scan = add_scan(vec![item("a.pdf", NextAction::Add)], true);
    let plan = plan_inbox_scan(BackupAttestation::OutsideOriginalRetained, scan);
    assert!(!capture_needed(&plan.seeds[0], true, plan.backup_attestation));
    let result = apply_inbox_scan(plan, &vec![CaptureAnswer::NoSnapshot]);
    let failure = result.items[0].error.as_ref().unwrap();
    assert_eq!(failure.code, "backup_confirmation_required");
    assert_eq!(failure.recovery.as_ref().unwrap().kind, RecoveryKind::VerifyBackup);
    let many: Vec<CatalogItem> =
        (0..25).map(|i| item(&format!("{i:02}.pdf"), NextAction::Add)).collect();
    let plan = plan_inbox_scan(BackupAttestation::UserVerified, add_scan(many, true));
    assert_eq!((plan.seeds.len(), plan.left_out), (20, 5));
    let answers: Vec<CaptureAnswer> = (0..20).map(|_| CaptureAnswer::NoSnapshot).collect();
    let result = apply_inbox_scan(plan, &answers);
    assert_eq!((result.remaining, result.scan_complete), (5, false));
    let seed = BatchItemSeed {
        provider_locator: "a".into(),
        user_state: UserState::New,
        next_action: NextAction::Add,
        asset_id: None,
        diagnostic: None,
    };
    assert!(capture_needed(&seed, true, BackupAttestation::UserVerified));
}

fn context() -> ResolvedPersonalContext {
    ResolvedPersonalContext {
        repository_root: "/repo".into(),
        provider_root: "/inbox".into(),
        provider_type: "google-drive-stream".into(),
        profile_name: "personal".into(),
        scope: Scope::Personal,
        source: ContextSource::Profile,
    }
}

#[test]
fn additions_report_by_their_input() {
    let file = AddInput::File("a.pdf".into());
    let scan = AddInput::InboxScan;
    assert_eq!(add_action(&file), AddAction::AddFile { source: "a.pdf".into() });
    assert_eq!(add_action(&scan), AddAction::AddInbox);
    let added = AddResult {
        add_outcome: AddOutcome::Created,
        import_outcome: ImportOutcome::Copied,
        repository: "/r".into(),
        asset_id: "i".into(),
        registry_path: "p".into(),
        provider_locator: "a.pdf".into(),
    };
    let batch = BatchAddResult { scan_complete: true, items: vec![], remaining: 0 };
    assert_eq!(
        mko_core::add::add(&file, AddAnswer::File(Ok(added.clone()))).unwrap(),
        AddRunResult::Single(added)
    );
    assert_eq!(
        mko_core::add::add(&scan, AddAnswer::Inbox(Ok(batch.clone()))).unwrap(),
        AddRunResult::Batch(batch)
    );
    let failed = || MkoError::new("provider_scan_incomplete", "m");
    assert_eq!(
        code(mko_core::add::add(&file, AddAnswer::File(Err(failed())))),
        "provider_scan_incomplete"
    );
    assert_eq!(
        code(mko_core::add::add(&scan, AddAnswer::Inbox(Err(failed())))),
        "provider_scan_incomplete"
    );
}

#[test]
fn single_additions_take_a_pdf() {
    let file = AddRequest::new(context(), AddInput::File("a.pdf".into()))
        .with_backup_attestation(BackupAttestation::UserVerified)
        .with_temporary_source(true);
    assert_eq!(single_source(&file).unwrap(), "a.pdf");
    assert!(file.temporary_source);
    let scan = AddRequest::new(context(), AddInput::InboxScan);
    assert_eq!(scan.backup_attestation, BackupAttestation::OutsideOriginalRetained);
    assert_eq!(code(single_source(&scan)), "add_input_invalid");
    assert!(ensure_pdf_extension(Some("b.PDF")).is_ok());
    assert_eq!(code(ensure_pdf_extension(Some("b.pdf.txt"))), "unsupported_media_type");
    assert_eq!(code(ensure_pdf_extension(Some(".pdf"))), "unsupported_media_type");
    assert_eq!(code(ensure_pdf_extension(None)), "unsupported_media_type");
    assert!(require_complete_scan(true, &vec![]).is_ok());
    let warning = ProviderScanWarning {
        code: "scan_time_limit".into(),
        message: "m".into(),
        provider_locator: None,
    };
    assert_eq!(
        require_complete_scan(false, &vec![warning]).unwrap_err().message(),
        "provider scan was incomplete (scan_time_limit); retry after resolving the warning"
    );
    assert_eq!(
        require_complete_scan(false, &vec![]).unwrap_err().message(),
        "provider scan was incomplete (unknown); retry after resolving the warning"
    );
    assert!(check_opened_source(true, false, true).is_ok());
    for (regular, link, there) in
        [(false, false, true), (true, true, true), (true, false, false)]
    {
        assert_eq!(code(check_opened_source(regular, link, there)), "file_unreadable");
    }
}

#[test]
fn registered_content_is_recognised() {
    let load = |entry| load_existing_asset(entry, &asset_id("a"), &snapshot("a"), "google-drive-stream");
    assert_eq!(load(RegistryEntry::Absent).unwrap(), None);
    let record = asset("a", AssetStatus::Registered);
    assert_eq!(load(RegistryEntry::Record { record: record.clone() }).unwrap(), Some(record));
    assert_eq!(code(load(RegistryEntry::NotRegular)), "registry_destination_invalid");
    assert_eq!(code(load(RegistryEntry::Unreadable { detail: "m".into() })), "registry_unreadable");
    assert_eq!(code(load(RegistryEntry::Broken { failure: MkoError::new("x", "m") })), "x");
    assert_eq!(
        code(load(RegistryEntry::Record { record: asset("b", AssetStatus::Registered) })),
        "registry_identity_conflict"
    );
}

fn planned(
    attestation: BackupAttestation,
    inside: Option<&str>,
    existing: Option<AssetRecord>,
    pdfs: Vec<ProviderPdf>,
) -> Result<AddPlan, MkoError> {
    let inside = inside.map(|path| InsideFile {
        relative_path: path.into(),
        names: vec![Some(path.into())],
    });
    add_pdf(false, attestation, &snapshot("a"), &inside, &existing, &pdfs)
}

#[test]
fn additions_use_what_the_inbox_holds() {
    use_plan(
        planned(BackupAttestation::UserVerified, Some("a.pdf"), None, vec![pdf("a")]),
        "a.pdf",
        ImportOutcome::AlreadyInInbox,
    );
    let retained = BackupAttestation::OutsideOriginalRetained;
    let mut elsewhere = pdf("a");
    elsewhere.provider_locator = "other.pdf".into();
    elsewhere.relative_path = "other.pdf".into();
    use_plan(
        planned(retained, None, None, vec![pdf("b"), elsewhere]),
        "other.pdf",
        ImportOutcome::ReusedInboxCopy,
    );
    let known = Some(asset("a", AssetStatus::Registered));
    use_plan(
        planned(retained, Some("a.pdf"), known.clone(), vec![pdf("a")]),
        "a.pdf",
        ImportOutcome::AlreadyInInbox,
    );
    use_plan(
        planned(retained, None, known.clone(), vec![pdf("a")]),
        "a.pdf",
        ImportOutcome::ReusedInboxCopy,
    );
    assert_eq!(planned(retained, None, None, vec![pdf("b")]).unwrap(), AddPlan::Import);
    assert_eq!(
        code(planned(retained, None, known.clone(), vec![])),
        "registry_provider_missing"
    );
    let mut changed = pdf("a");
    changed.size_bytes = 1;
    assert_eq!(code(planned(retained, None, known, vec![changed])), "registry_provider_mismatch");
    assert_eq!(
        code(planned(retained, Some("a.pdf"), None, vec![pdf("a")])),
        "backup_confirmation_required"
    );
    assert_eq!(
        code(planned(BackupAttestation::UserVerified, Some(".a.pdf"), None, vec![pdf("a")])),
        "provider_file_excluded"
    );
    let temporary = add_pdf(true, retained, &snapshot("a"), &None, &None, &vec![]);
    assert_eq!(code(temporary), "backup_confirmation_required");
}

fn use_plan(plan: Result<AddPlan, MkoError>, locator: &str, outcome: ImportOutcome) {
    match plan.unwrap() {
        AddPlan::Use { provider_locator, import_outcome, .. } => {
            assert_eq!((provider_locator.as_str(), import_outcome), (locator, outcome));
        }
        other => panic!("{other:?}"),
    }
}

#[test]
fn additions_end_with_the_selected_content() {
    let finish = |captured: &str, result: &str| {
        finish_add(
            "id",
            captured.into(),
            result,
            "r".into(),
            "l".into(),
            ImportOutcome::Copied,
            "/repo".into(),
        )
    };
    assert_eq!(finish("id", "created").unwrap().add_outcome, AddOutcome::Created);
    assert_eq!(finish("id", "existing").unwrap().add_outcome, AddOutcome::Existing);
    assert_eq!(code(finish("other", "created")), "fingerprint_changed");
    assert_eq!(code(finish("id", "x")), "capture_result_invalid");
    assert_eq!(parse_capture_outcome("created").unwrap(), AddOutcome::Created);
    assert!(capture_discovered_item("a.pdf", &Some(snapshot("a")), &snapshot("a")).is_ok());
    assert_eq!(
        code(capture_discovered_item("a.pdf", &Some(snapshot("a")), &snapshot("b"))),
        "fingerprint_changed"
    );
    assert_eq!(
        code(capture_discovered_item("a.pdf", &None, &snapshot("a"))),
        "provider_scan_incomplete"
    );
    assert!(capture_discovered_item("../a.pdf", &None, &snapshot("a")).is_err());
}

#[test]
fn imports_take_a_free_name() {
    let some = |text: &str| Some(text.to_string());
    assert_eq!(
        logical_provider_locator(&vec![some("p"), some("Cafe\u{301}.pdf")]).unwrap(),
        "p/Caf\u{e9}.pdf"
    );
    assert_eq!(code(logical_provider_locator(&vec![None])), "invalid_path");
    let own = fingerprint("a");
    assert_eq!(import_source_name(Some("a.pdf"), false, &own).unwrap(), "a.pdf");
    assert_eq!(
        import_source_name(Some(".a.pdf"), true, &own).unwrap(),
        "import-aaaaaaaaaaaa.pdf"
    );
    assert_eq!(code(import_source_name(None, false, &own)), "invalid_path");
    let free = |names: Vec<Option<String>>, identical: Vec<String>| {
        available_destination_name(&names, &identical, "b.pdf", &own)
    };
    assert_eq!(free(vec![some("x")], vec![]).unwrap(), "b.pdf");
    assert_eq!(free(vec![some("B.pdf")], vec![]).unwrap(), "b-aaaaaaaaaaaa.pdf");
    assert_eq!(free(vec![some("b.pdf")], vec!["b.pdf".into()]).unwrap(), "b.pdf");
    assert_eq!(
        free(vec![some("b.pdf"), some("b-aaaaaaaaaaaa.pdf")], vec![]).unwrap(),
        "b-aaaaaaaaaaaaaaaa.pdf"
    );
    let mut all = vec![some("b.pdf")];
    for len in (12..=64).step_by(4) {
        all.push(Some(format!("b-{}.pdf", "a".repeat(len))));
    }
    assert_eq!(code(free(all, vec![])), "path_collision");
    assert_eq!(code(free(vec![some("b.pdf"), some("B.PDF")], vec![])), "path_collision");
    assert_eq!(code(free(vec![None], vec![])), "invalid_path");
    assert_eq!(collision_entry(&vec![some("B.pdf")], "b.pdf").unwrap(), some("B.pdf"));
}

#[test]
fn imports_publish_checked_copies() {
    assert!(copy_exact_snapshot(9, 9).is_ok());
    assert_eq!(code(copy_exact_snapshot(10, 9)), "fingerprint_changed");
    assert!(validate_existing_pdf(true, &snapshot("a"), &snapshot("a")).is_ok());
    assert_eq!(
        code(validate_existing_pdf(false, &snapshot("a"), &snapshot("a"))),
        "provider_destination_invalid"
    );
    assert_eq!(
        code(validate_existing_pdf(true, &snapshot("b"), &snapshot("a"))),
        "provider_destination_conflict"
    );
    let retained = BackupAttestation::OutsideOriginalRetained;
    let check = |after: &str, copy, attestation, original| {
        import_outside_pdf(&snapshot(after), copy, attestation, original, &snapshot("a"))
    };
    assert!(check("a", Ok(()), retained, Some(Ok(snapshot("a")))).is_ok());
    assert!(check("a", Ok(()), BackupAttestation::UserVerified, None).is_ok());
    assert_eq!(code(check("b", Ok(()), retained, None)), "fingerprint_changed");
    let failed = || Err(MkoError::new("provider_destination_conflict", "m"));
    assert_eq!(code(check("a", failed(), retained, None)), "provider_destination_conflict");
    assert_eq!(code(check("a", Ok(()), retained, None)), "backup_confirmation_required");
    assert_eq!(
        code(check("a", Ok(()), retained, Some(Ok(snapshot("b"))))),
        "backup_confirmation_required"
    );
    assert_eq!(
        code(check("a", Ok(()), retained, Some(Err(MkoError::new("invalid_pdf", "m"))))),
        "invalid_pdf"
    );
    assert_eq!(after_name("n".into(), None), ImportStep::Copy { name: "n".into() });
    assert_eq!(after_name("n".into(), Some(Ok(()))), ImportStep::Done { name: "n".into() });
    assert_eq!(after_name("n".into(), Some(failed())), ImportStep::Choose);
    assert_eq!(
        after_link("n".into(), &Linking::Linked, Ok(())).unwrap(),
        ImportStep::Done { name: "n".into() }
    );
    assert_eq!(
        code(after_link("n".into(), &Linking::Linked, failed())),
        "provider_destination_conflict"
    );
    assert_eq!(
        after_link("n".into(), &Linking::Occupied, failed()).unwrap(),
        ImportStep::Choose
    );
    assert_eq!(
        code(after_link("n".into(), &Linking::Failed { detail: "m".into() }, Ok(()))),
        "provider_import_failed"
    );
}

#[test]
fn the_reserved_directory_is_told_by_its_marks() {
    let reset = reset_reserved_temp_root;
    let plan = reset(ReservedEntry::Absent, false, false).unwrap();
    assert!(plan.publish_claim && !plan.replace_invalid_claim && !plan.remove_root);
    let plan = reset(ReservedEntry::Expected, false, true).unwrap();
    assert!(plan.publish_claim && plan.replace_invalid_claim && plan.remove_root);
    assert!(!reset(ReservedEntry::Expected, true, false).unwrap().publish_claim);
    assert_eq!(code(reset(ReservedEntry::Expected, false, false)), "provider_import_failed");
    assert_eq!(code(reset(ReservedEntry::Foreign, true, true)), "provider_import_failed");
    assert!(!publish_owner_claim(ReservedEntry::Absent, false).unwrap());
    assert!(publish_owner_claim(ReservedEntry::Expected, true).unwrap());
    assert_eq!(
        code(publish_owner_claim(ReservedEntry::Expected, false)),
        "provider_import_failed"
    );
    let matches = |entry, content: &str| {
        ownership_marker_matches(entry, content, IMPORT_TEMP_MARKER)
    };
    assert!(matches(ReservedEntry::Expected, "mko-import-temp-v1\n").unwrap());
    assert!(!matches(ReservedEntry::Expected, "mko-import-temp-v1").unwrap());
    assert!(!matches(ReservedEntry::Absent, "mko-import-temp-v1\n").unwrap());
    assert_eq!(code(matches(ReservedEntry::Foreign, "")), "provider_import_failed");
}

#[test]
fn one_import_names_files_at_a_time() {
    assert!(import_lock_taken(&ImportLockTry::Taken).unwrap());
    assert!(!import_lock_taken(&ImportLockTry::Held { expired: false }).unwrap());
    assert_eq!(
        import_lock_taken(&ImportLockTry::Held { expired: true }).unwrap_err().message(),
        "another PDF import still owns the provider naming lock"
    );
    assert_eq!(
        import_lock_taken(&ImportLockTry::Failed { detail: "m".into() }).unwrap_err().message(),
        "m"
    );
    assert!(validate_retained_import_lock(true, true, true).is_ok());
    for (retained, current, same) in
        [(false, true, true), (true, false, true), (true, true, false)]
    {
        assert_eq!(
            code(validate_retained_import_lock(retained, current, same)),
            "provider_import_locked"
        );
    }
    assert_eq!(import_owner_token(7, 0), "7-0");
    assert_eq!(import_lock_record(7, "host", "7-0"), "pid=7\nhost=host\ntoken=7-0\n");
    assert_eq!(import_temporary_name("a.pdf", 3), "a.pdf.3.import.tmp");
}

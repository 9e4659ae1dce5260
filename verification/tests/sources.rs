use mko_core::approve::{
    begin_approval, check_source_content, check_source_place, check_source_size, discover_source,
    git_diff_summary, git_numstat, list_source_names, present_source, publication_error,
    related_asset, says_untracked, sum_counts, ApproveSourceRequest, DiffCounts, PendingApproval,
    ReadSource, SourceDirectoryEntry, SourceDocument, SourceSnapshot, MAX_SOURCE_BYTES,
};
use mko_core::asset_validation::validate_canonical_asset;
use mko_core::atomic::Destination;
use mko_core::canonical_source::{source_place_on, validate_canonical_source};
use mko_core::error::MkoError;
use mko_core::fingerprint::FileSnapshot;
use mko_core::model::{
    AssetRecord, AssetStatus, Classification, Fingerprint, Generation, LastError,
    LastSuccessfulStep, Provider, Relations, Review, ReviewStatus, SourceMetadata, SourceRecord,
    SourceStatus, Timestamp,
};
use mko_core::path_policy::PathPart;
use mko_core::pdf::{EXTRACTOR_NAME, EXTRACTOR_VERSION, MAX_PAGES};
use mko_core::bundle_text::render_prepared_bundle;
use mko_core::prepare::{
    check_bundle_file, check_preparable, check_provider_content, check_published_bundle,
    check_rendered_bundle, check_runtime_destination, check_runtime_output, check_snapshot,
    check_staged_bundle, ensure_real_child_directory, load_prepared_source_bundle,
    needs_child_directory, prepare_source, requested_asset, runtime_paths, source_id,
    validate_prepared_bundle_contract, verify_public_runtime_bundle, PrepareRequest,
    PreparedSourceBundle, RuntimeChild, MAX_PREPARED_BUNDLE_BYTES, PROCESSOR_VERSION,
    PROMPT_VERSION, TRUST,
};
use mko_core::version::KNOWLEDGE_CONTRACT_VERSION;

fn hash() -> String {
    "b".repeat(64)
}

fn asset_id() -> String {
    format!("personal-asset-{}", hash())
}

fn at() -> Timestamp {
    Timestamp { seconds: 1_700_000_000, nanos: 0 }
}

fn asset() -> AssetRecord {
    AssetRecord {
        id: asset_id(),
        record_type: "asset".into(),
        schema_version: 1,
        scope: "personal".into(),
        title: "Paper".into(),
        classification: Classification::Personal,
        asset_class: "document".into(),
        media_type: "application/pdf".into(),
        provider: Provider {
            provider_type: "google-drive-stream".into(),
            locator: "papers/b.pdf".into(),
            revision: None,
        },
        size_bytes: 9,
        modified_at: at(),
        fingerprint: Fingerprint { method: "sha256".into(), value: format!("sha256:{}", hash()) },
        asset_status: AssetStatus::ReviewPending,
        durable_state_history: vec![],
        supersedes: None,
        last_successful_step: LastSuccessfulStep::Drafted,
        last_error: LastError { code: None, retryable: false },
        created_at: at(),
        updated_at: at(),
    }
}

fn revision() -> String {
    format!("sha256:{}", "c".repeat(64))
}

fn source() -> SourceRecord {
    SourceRecord {
        id: source_id(&asset_id()).unwrap(),
        record_type: "source".into(),
        schema_version: 1,
        scope: "personal".into(),
        title: "Paper".into(),
        status: SourceStatus::ReviewPending,
        created_at: at(),
        updated_at: at(),
        tags: vec![],
        domain: vec![],
        ai_assisted: true,
        relations: Relations { asset_ids: vec![asset_id()] },
        generation: Generation {
            extractor_name: EXTRACTOR_NAME.into(),
            extractor_version: EXTRACTOR_VERSION.into(),
            core_version: KNOWLEDGE_CONTRACT_VERSION.into(),
            processor_version: PROCESSOR_VERSION.into(),
            prompt_version: PROMPT_VERSION.into(),
            asset_fingerprint: format!("sha256:{}", hash()),
        },
        content_revision: revision(),
        review: Review {
            status: ReviewStatus::Pending,
            approved_revision: None,
            reviewed_at: None,
        },
        source_metadata: SourceMetadata { authors: vec![], publication_date: None, doi: None },
    }
}

fn body() -> String {
    let mut text = String::from("# Paper\n\nIntroduction");
    for section in [
        "Source Metadata",
        "One-Sentence Summary",
        "Problem",
        "Method",
        "Contributions",
        "Reported Evidence",
        "Stated Limitations",
        "Domain Perspective",
        "Implementation Considerations",
        "Questions and Unknowns",
        "Related Knowledge",
    ] {
        text.push_str(&format!("\n\n## {section}\n\ntext"));
    }
    text.push('\n');
    text
}

const NAME: &str = "2023-11-15-paper-bbbbbbbbbbbb.md";

fn place() -> String {
    format!("sources/{NAME}")
}

fn canonical(source: &SourceRecord, body: &str) -> Result<String, MkoError> {
    validate_canonical_source(&place(), source, body, &asset(), Ok(revision()))
}

fn code<T: std::fmt::Debug>(result: Result<T, MkoError>) -> String {
    result.unwrap_err().code().to_string()
}

#[test]
fn canonical_sources_are_accepted() {
    assert_eq!(canonical(&source(), &body()).unwrap(), revision());
}

#[test]
fn other_documents_are_no_canonical_sources() {
    let change: Vec<fn(&mut SourceRecord)> = vec![
        |s| s.id = "personal-source-1".into(),
        |s| s.record_type = "asset".into(),
        |s| s.schema_version = 2,
        |s| s.scope = "company".into(),
        |s| s.ai_assisted = false,
        |s| s.relations.asset_ids.push("x".into()),
        |s| s.generation.extractor_version = "0".into(),
        |s| s.generation.asset_fingerprint = "sha256:0".into(),
        |s| s.created_at.seconds += 86_400,
        |s| s.title = "Other".into(),
    ];
    for edit in change {
        let mut changed = source();
        edit(&mut changed);
        assert_eq!(code(canonical(&changed, &body())), "source_invalid");
    }
    for text in [
        body().replace('\n', "\r\n"),
        body().trim_end().to_string(),
        body().replace("## Method", "## Methods"),
        body().replace("\n\n## Problem", "\n## Problem"),
        body() + "# More\n",
        body().replacen("# Paper\n\n", "# Paper\n", 1),
    ] {
        assert_eq!(code(canonical(&source(), &text)), "source_invalid");
    }
}

#[test]
fn revisions_and_reviews_must_fit() {
    let failed = validate_canonical_source(
        &place(),
        &source(),
        &body(),
        &asset(),
        Err(MkoError::new("revision_invalid", "m")),
    );
    assert_eq!(code(failed), "revision_invalid");
    let mut changed = source();
    changed.content_revision = "sha256:0".into();
    assert_eq!(code(canonical(&changed, &body())), "revision_mismatch");

    let mut approved = source();
    approved.status = SourceStatus::Approved;
    assert_eq!(code(canonical(&approved, &body())), "review_invalid");
    approved.review.status = ReviewStatus::Approved;
    approved.review.reviewed_at = Some(at());
    approved.review.approved_revision = Some("sha256:0".into());
    assert_eq!(code(canonical(&approved, &body())), "approval_stale");
    approved.review.approved_revision = Some(revision());
    assert!(canonical(&approved, &body()).is_ok());
    approved.status = SourceStatus::Archived;
    assert!(canonical(&approved, &body()).is_ok());

    let mut rejected = source();
    rejected.status = SourceStatus::Rejected;
    rejected.review.status = ReviewStatus::Rejected;
    assert_eq!(code(canonical(&rejected, &body())), "review_invalid");
    rejected.review.reviewed_at = Some(at());
    assert!(canonical(&rejected, &body()).is_ok());
    rejected.status = SourceStatus::Stale;
    assert!(canonical(&rejected, &body()).is_ok());
}

#[test]
fn sources_stand_at_their_place() {
    let id = source().id;
    let on = |path: &str| source_place_on(path, &id, Some("2024-01-02".to_string()));
    assert!(on("sources/2024-01-02-a-b-2-bbbbbbbbbbbb.md"));
    assert!(on(&format!("sources/2024-01-02-{}-bbbbbbbbbbbb.md", "x".repeat(96))));
    for path in [
        "sources/2024-01-03-a-bbbbbbbbbbbb.md",
        "sources/2024-01-02--bbbbbbbbbbbb.md",
        "sources/2024-01-02-bbbbbbbbbbbb.md",
        "sources/2024-01-02-A-bbbbbbbbbbbb.md",
        "sources/x/2024-01-02-a-bbbbbbbbbbbb.md",
        "notes/2024-01-02-a-bbbbbbbbbbbb.md",
        "sources/2024-01-02-a-bbbbbbbbbbbb.txt",
        "sources/2024-01-02-a\\b-bbbbbbbbbbbb.md",
        &format!("sources/2024-01-02-{}-bbbbbbbbbbbb.md", "x".repeat(97)),
    ] {
        assert!(!on(path), "{path}");
    }
    assert!(!source_place_on("sources/2024-01-02-a-bbbbbbbbbbbb.md", &id, None));
}

#[test]
fn assets_are_made_of_one_hash() {
    let path = format!("assets/registry/{}.md", asset_id());
    assert_eq!(validate_canonical_asset(&path, &asset(), None), vec![]);
    let change: Vec<(&str, fn(&mut AssetRecord))> = vec![
        ("registry_invalid", |a| a.id = "personal-asset-1".into()),
        ("registry_invalid", |a| a.classification = Classification::Public),
        ("registry_invalid", |a| a.fingerprint.value = "sha256:0".into()),
        ("registry_invalid", |a| a.provider.provider_type = "local".into()),
        ("path_not_portable", |a| a.provider.locator = "../b.pdf".into()),
    ];
    for (expected, edit) in change {
        let mut changed = asset();
        edit(&mut changed);
        let issues = validate_canonical_asset(&path, &changed, None);
        assert_eq!(issues.len(), 1);
        assert_eq!(issues[0].code, expected);
    }
    let state = validate_canonical_asset("x", &asset(), Some(MkoError::new("state_invalid", "m")));
    assert_eq!(state.len(), 2);
    assert_eq!((state[1].code.as_str(), state[1].message.as_str()), ("state_invalid", "m"));
}

fn snapshot() -> FileSnapshot {
    FileSnapshot { fingerprint: asset().fingerprint, size_bytes: 9, modified_at: at() }
}

fn prepared() -> PreparedSourceBundle {
    prepare_source(
        &asset_id(),
        &asset(),
        vec!["one".into()],
        &snapshot(),
        &snapshot(),
        &snapshot(),
    )
    .unwrap()
}

#[test]
fn prepared_bundles_are_loaded_again() {
    let bundle = prepared();
    assert_eq!(bundle.trust, TRUST);
    assert_eq!(bundle.title_hint, "Paper");
    assert_eq!(bundle.logical_path, "papers/b.pdf");
    assert!(validate_prepared_bundle_contract(&bundle, &asset_id()).is_ok());
    let len = render_prepared_bundle(&bundle).unwrap().len() as u64;
    assert!(check_rendered_bundle(&Ok(bundle.clone()), &bundle).is_ok());
    let loaded = load_prepared_source_bundle(&asset_id(), len, Ok(bundle.clone())).unwrap();
    assert_eq!(loaded, bundle);
}

#[test]
fn bundles_are_indented_json() {
    let mut bundle = prepared();
    bundle.title_hint = "A \"B\"\u{1}".into();
    bundle.pages = vec!["one\n".into(), "\u{d55c}\\".into()];
    let hash = asset_id().replace("personal-asset-", "");
    let text = render_prepared_bundle(&bundle).unwrap();
    assert_eq!(
        text,
        format!(
            "{{\n  \"schema_version\": 1,\n  \"asset_id\": \"personal-asset-{hash}\",\n  \"source_id\": \"personal-source-{hash}\",\n  \"fingerprint\": {{\n    \"method\": \"sha256\",\n    \"value\": \"sha256:{hash}\"\n  }},\n  \"title_hint\": \"A \\\"B\\\"\\u0001\",\n  \"logical_path\": \"papers/b.pdf\",\n  \"pages\": [\n    \"one\\n\",\n    \"\u{d55c}\\\\\"\n  ],\n  \"trust\": \"untrusted_document_text\",\n  \"extractor\": {{\n    \"name\": \"pdf-extract\",\n    \"version\": \"0.12.0\"\n  }},\n  \"core_version\": \"0.1.0\",\n  \"processor_version\": \"source-v1\",\n  \"prompt_version\": \"codex-source-v1\"\n}}\n"
        )
    );
    let value: serde_json::Value = serde_json::from_str(&text).unwrap();
    assert_eq!(value["title_hint"], bundle.title_hint.as_str());
    assert_eq!(value["pages"][0], "one\n");
    assert_eq!(value["pages"][1], "\u{d55c}\\");
    assert_eq!(value["extractor"]["name"], "pdf-extract");
    bundle.pages = vec![];
    assert!(render_prepared_bundle(&bundle).unwrap().contains("\n  \"pages\": [],\n"));
}

#[test]
fn the_largest_texts_fit_into_a_bundle() {
    let page = "\u{1}".repeat(20_971_520 / 1_000);
    let mut bundle = prepared();
    bundle.pages = vec![page; 1_000];
    bundle.title_hint = "\u{1}".repeat(1_048_576 - bundle.logical_path.len());
    let len = render_prepared_bundle(&bundle).unwrap().len() as u64;
    assert!(len > 125_829_120 && len <= MAX_PREPARED_BUNDLE_BYTES);
}

#[test]
fn other_bundles_are_not_loaded() {
    let load = |edit: fn(&mut PreparedSourceBundle)| {
        let mut bundle = prepared();
        edit(&mut bundle);
        code(load_prepared_source_bundle(&asset_id(), 10, Ok(bundle)))
    };
    let change: Vec<fn(&mut PreparedSourceBundle)> = vec![
        |b| b.schema_version = 2,
        |b| b.asset_id = "x".into(),
        |b| b.source_id = "x".into(),
        |b| b.fingerprint.method = "md5".into(),
        |b| b.fingerprint.value = "sha256:0".into(),
        |b| b.title_hint = "".into(),
        |b| b.logical_path = "".into(),
        |b| b.trust = "trusted".into(),
        |b| b.extractor.name = "x".into(),
        |b| b.core_version = "9".into(),
        |b| b.processor_version = "9".into(),
        |b| b.prompt_version = "9".into(),
    ];
    for edit in change {
        assert_eq!(load(edit), "bundle_invalid");
    }
    assert_eq!(load(|b| b.pages = vec![String::new(); MAX_PAGES + 1]), "page_limit_exceeded");
    let large =
        load_prepared_source_bundle(&asset_id(), MAX_PREPARED_BUNDLE_BYTES + 1, Ok(prepared()));
    assert_eq!(
        large.unwrap_err().message(),
        "prepared Source bundle exceeds its bounded runtime transport"
    );
    let broken = load_prepared_source_bundle(&asset_id(), 1, Err("eof".into())).unwrap_err();
    assert_eq!((broken.code(), broken.message()), ("bundle_invalid", "eof"));
    assert_eq!(
        code(load_prepared_source_bundle("x", 1, Ok(prepared()))),
        "asset_id_invalid"
    );
}

#[test]
fn bundles_have_one_place() {
    let part = |name: &str| PathPart::Name(name.into());
    let whole = |id: &str| {
        Some(vec![
            part(".knowledge-os"),
            part("runtime"),
            part("prepared"),
            part(&format!("{id}.json")),
        ])
    };
    assert_eq!(
        runtime_paths(&asset_id(), &whole(&asset_id())).unwrap(),
        format!("{}.json", asset_id())
    );
    assert_eq!(code(runtime_paths(&asset_id(), &whole("x"))), "runtime_output_invalid");
    assert_eq!(code(runtime_paths(&asset_id(), &None)), "runtime_output_invalid");
    assert_eq!(
        code(runtime_paths(
            &asset_id(),
            &Some(vec![part(".knowledge-os"), PathPart::Traversal, part("prepared"), part("x")])
        )),
        "runtime_output_invalid"
    );
    assert_eq!(requested_asset(Some(&asset_id())).unwrap(), asset_id());
    assert_eq!(code(requested_asset(Some("x"))), "runtime_output_invalid");
    assert_eq!(code(requested_asset(None)), "runtime_output_invalid");
    assert!(check_bundle_file(true, false, MAX_PREPARED_BUNDLE_BYTES).is_ok());
    for (file, link, len) in
        [(false, false, 1), (true, true, 1), (true, false, MAX_PREPARED_BUNDLE_BYTES + 1)]
    {
        assert_eq!(code(check_bundle_file(file, link, len)), "runtime_publication_invalid");
    }
}

#[test]
fn runtime_directories_are_real() {
    assert!(!needs_child_directory(RuntimeChild::Directory).unwrap());
    assert!(needs_child_directory(RuntimeChild::Absent).unwrap());
    assert_eq!(code(needs_child_directory(RuntimeChild::Other)), "runtime_path_invalid");
    assert_eq!(code(needs_child_directory(RuntimeChild::Unknown)), "runtime_path_invalid");
    assert!(ensure_real_child_directory(RuntimeChild::Directory).is_ok());
    assert_eq!(code(ensure_real_child_directory(RuntimeChild::Absent)), "runtime_path_invalid");
    assert!(check_runtime_output(&Destination::Regular).is_ok());
    assert!(check_runtime_output(&Destination::Absent).is_ok());
    assert_eq!(code(check_runtime_output(&Destination::Other)), "runtime_output_invalid");
    assert_eq!(
        code(check_runtime_output(&Destination::Unknown("m".into()))),
        "runtime_path_invalid"
    );
    assert!(check_runtime_destination(&Destination::Absent).is_ok());
    assert_eq!(
        code(check_runtime_destination(&Destination::Other)),
        "runtime_destination_invalid"
    );
    let failure = check_runtime_destination(&Destination::Unknown("m".into())).unwrap_err();
    assert_eq!((failure.code(), failure.message()), ("runtime_write_failed", "m"));
}

#[test]
fn published_bundles_are_what_was_prepared() {
    let bundle = prepared();
    let mut other = prepared();
    other.pages[0] = "two".into();
    assert!(check_staged_bundle(b"ab", b"ab").is_ok());
    assert_eq!(code(check_staged_bundle(b"ab", b"ac")), "runtime_write_failed");
    assert!(check_rendered_bundle(&Ok(bundle.clone()), &bundle).is_ok());
    assert_eq!(
        check_rendered_bundle(&Ok(other.clone()), &bundle).unwrap_err().message(),
        "prepared source bundle failed deterministic validation"
    );
    assert_eq!(
        check_published_bundle(&Ok(other.clone()), &bundle).unwrap_err().message(),
        "published source bundle failed validation"
    );
    assert_eq!(
        check_published_bundle(&Err("m".into()), &bundle).unwrap_err().message(),
        "m"
    );
    let bytes = Some(b"text".to_vec());
    let verify = |bytes: &Option<Vec<u8>>, read: &Result<PreparedSourceBundle, String>| {
        verify_public_runtime_bundle(bytes, read, b"text", &bundle)
    };
    assert!(verify(&bytes, &Ok(bundle.clone())).is_ok());
    for (found, read) in [
        (None, Ok(bundle.clone())),
        (Some(b"tex".to_vec()), Ok(bundle.clone())),
        (bytes.clone(), Ok(other)),
        (bytes.clone(), Err("m".to_string())),
    ] {
        assert_eq!(code(verify(&found, &read)), "runtime_publication_invalid");
    }
}

#[test]
fn only_unchanged_registered_documents_are_prepared() {
    let mut registered = asset();
    registered.asset_status = AssetStatus::Registered;
    assert!(check_preparable(&registered).is_ok());
    registered.asset_status = AssetStatus::Extracted;
    assert!(check_preparable(&registered).is_ok());
    assert_eq!(code(check_preparable(&asset())), "invalid_state_transition");
    registered.media_type = "text/plain".into();
    assert_eq!(code(check_preparable(&registered)), "unsupported_format");
    assert!(check_provider_content(&asset(), &snapshot()).is_ok());
    let mut changed = snapshot();
    changed.fingerprint.value = "sha256:0".into();
    assert_eq!(code(check_provider_content(&asset(), &changed)), "fingerprint_changed");
    assert_eq!(code(check_snapshot(&changed, &snapshot())), "fingerprint_changed");
    let mut touched = snapshot();
    touched.modified_at.seconds += 1;
    assert!(check_snapshot(&touched, &snapshot()).is_ok());
    let mut longer = snapshot();
    longer.size_bytes += 1;
    assert_eq!(code(check_snapshot(&longer, &snapshot())), "fingerprint_changed");
    for (retained, reopened) in [(touched.clone(), snapshot()), (snapshot(), touched)] {
        let result =
            prepare_source(&asset_id(), &asset(), vec![], &snapshot(), &retained, &reopened);
        assert_eq!(code(result), "fingerprint_changed");
    }
    let prepare = |id: &str, pages: Vec<String>| {
        prepare_source(id, &asset(), pages, &snapshot(), &snapshot(), &snapshot())
    };
    assert_eq!(code(prepare("s", vec![])), "asset_id_invalid");
    let many = vec![String::new(); MAX_PAGES + 1];
    assert_eq!(code(prepare(&asset_id(), many)), "page_limit_exceeded");
    assert_eq!(
        prepare(&asset_id(), vec![]).unwrap().source_id,
        source_id(&asset_id()).unwrap()
    );
}

#[test]
fn prepare_requests_hold_what_was_asked() {
    let request =
        PrepareRequest::new("/repo", "id", "out").with_local_config("c").with_clear_stale_lock(true);
    assert_eq!(request.repository_root, "/repo");
    assert_eq!(request.asset_id, "id");
    assert_eq!(request.output, "out");
    assert_eq!(request.local_config_path.as_deref(), Some("c"));
    assert!(request.clear_stale_lock);
    assert!(request.resolved_context.is_none());
}

fn read_source(name: &str, record: SourceRecord) -> ReadSource {
    ReadSource {
        filename: name.into(),
        snapshot: Some(shown()),
        document: Some(SourceDocument { record, body: body(), revision: Ok(revision()) }),
    }
}

fn shown() -> SourceSnapshot {
    SourceSnapshot { bytes: b"one\ntwo".to_vec(), len: 7, modified: Some(at()) }
}

fn document() -> SourceDocument {
    SourceDocument { record: source(), body: body(), revision: Ok(revision()) }
}

fn present(document: &SourceDocument, asset: AssetRecord) -> Result<PendingApproval, MkoError> {
    present_source("/repo", NAME, &shown(), document, &asset_id(), Ok(asset))
}

#[test]
fn approval_needs_a_person_at_a_terminal() {
    let request = ApproveSourceRequest::new("/repo", &source().id);
    assert_eq!(request.repository_root(), "/repo");
    assert!(begin_approval(&request, true, true).is_ok());
    assert_eq!(code(begin_approval(&request, false, true)), "human_confirmation_required");
    assert_eq!(code(begin_approval(&request, true, false)), "human_confirmation_required");
    let other = ApproveSourceRequest::new("/repo", "personal-source-1");
    assert_eq!(code(begin_approval(&other, true, true)), "source_id_invalid");
}

#[test]
fn source_directories_hold_plain_files() {
    let entry = |name: &str| SourceDirectoryEntry { name: Some(name.into()), is_regular: true };
    assert_eq!(
        list_source_names(&vec![entry("b.md"), entry("a.md"), entry("c.txt")]).unwrap(),
        ["a.md", "b.md"]
    );
    let link = SourceDirectoryEntry { name: Some("a".into()), is_regular: false };
    let nameless = SourceDirectoryEntry { name: None, is_regular: true };
    let long = entry(&"x".repeat(256));
    for entries in [
        vec![link],
        vec![nameless],
        vec![long],
        vec![entry("..")],
        vec![entry("a\\b")],
        (0..1025).map(|i| entry(&format!("{i}"))).collect(),
    ] {
        assert_eq!(code(list_source_names(&entries)), "source_scan_limit");
    }
    assert!(list_source_names(&(0..1024).map(|i| entry(&format!("{i}"))).collect()).is_ok());
    assert_eq!(code(check_source_place(false)), "source_path_invalid");
    assert!(check_source_size(true, MAX_SOURCE_BYTES).is_ok());
    assert_eq!(code(check_source_size(true, MAX_SOURCE_BYTES + 1)), "source_too_large");
    assert_eq!(code(check_source_content(MAX_SOURCE_BYTES + 1)), "source_too_large");
}

#[test]
fn sources_are_found_by_their_id() {
    let id = source().id;
    let mut other = source();
    other.id = "x".into();
    let all = vec![read_source("a.md", other.clone()), read_source("b.md", source())];
    assert_eq!(discover_source(&all, &id).unwrap(), 1);
    assert_eq!(
        code(discover_source(&vec![read_source("a.md", other)], &id)),
        "source_not_found"
    );
    assert_eq!(
        code(discover_source(
            &vec![read_source("a.md", source()), read_source("b.md", source())],
            &id
        )),
        "source_conflict"
    );
    let mut unread = read_source("a.md", source());
    unread.document = None;
    assert_eq!(code(discover_source(&vec![unread], &id)), "source_scan_limit");
    let mut large = read_source("a.md", source());
    large.snapshot =
        Some(SourceSnapshot { bytes: vec![0; 8 * 1024 * 1024 + 1], len: 1, modified: None });
    assert_eq!(code(discover_source(&vec![large], &id)), "source_scan_limit");
    assert_eq!(related_asset(&source()).unwrap(), asset_id());
    let mut loose = source();
    loose.relations.asset_ids.clear();
    assert_eq!(code(related_asset(&loose)), "relation_missing");
}

#[test]
fn only_pending_sources_are_shown_to_people() {
    let mut rejected = document();
    rejected.record.status = SourceStatus::Rejected;
    assert_eq!(code(present(&rejected, asset())), "source_not_approvable");
    let mut moved = document();
    moved.record.relations.asset_ids = vec!["x".into()];
    assert_eq!(code(present(&moved, asset())), "relation_mismatch");
    let mut processed = asset();
    processed.asset_status = AssetStatus::Processed;
    let failure = present(&document(), processed).unwrap_err();
    assert_eq!(failure.code(), "source_state_mismatch");
    assert_eq!(
        failure.message(),
        format!(
            "repair the Asset first: mko source repair-state --repo \"/repo\" --asset-id {}",
            asset_id()
        )
    );
}

#[test]
fn approval_repeats_what_was_shown() {
    let pending = present(&document(), asset()).unwrap();
    let id = source().id;
    assert_eq!(
        pending.prompt("unavailable"),
        format!(
            "Source ID: {id}\nCurrent revision: {}\nStatus: review_pending -> approved\nSource bytes: 7\nSource lines: 2\nGit diff: unavailable\nType exactly: APPROVE {id}\n> ",
            revision()
        )
    );
    assert!(pending.confirm(&format!("APPROVE {id}\r\n")).is_ok());
    for line in ["", "APPROVE", &format!("approve {id}"), &format!("APPROVE {id} ")] {
        assert_eq!(code(pending.confirm(line)), "human_confirmation_required");
    }
    assert!(pending.revalidate(&Some(shown()), &Some(document())).is_ok());
    let mut touched = shown();
    touched.modified = None;
    let mut edited = document();
    edited.revision = Ok("sha256:0".into());
    for (current, read) in [
        (None, Some(document())),
        (Some(touched), Some(document())),
        (Some(shown()), None),
        (Some(shown()), Some(edited)),
    ] {
        assert_eq!(code(pending.revalidate(&current, &read)), "source_changed_during_approval");
    }
    let later = Timestamp { seconds: 2, nanos: 0 };
    let approve = |line: &str, current: Option<SourceSnapshot>| {
        pending.approve(line, &current, &Some(document()), at(), later)
    };
    let phrase = format!("APPROVE {id}\n");
    for line in ["", "yes\n", &format!("APPROVE {id} ")] {
        assert_eq!(code(approve(line, Some(shown()))), "human_confirmation_required");
        assert_eq!(code(approve(line, None)), "human_confirmation_required");
    }
    assert_eq!(code(approve(&phrase, None)), "source_changed_during_approval");
    let record = approve(&phrase, Some(shown())).unwrap();
    assert_eq!(record.status, SourceStatus::Approved);
    assert_eq!(record.review.status, ReviewStatus::Approved);
    assert_eq!(record.review.approved_revision, Some(revision()));
    assert_eq!(record.review.reviewed_at, Some(at()));
    assert_eq!(record.updated_at, later);
    let written = SourceDocument { record, body: body(), revision: Ok(revision()) };
    let text = Some(b"written".to_vec());
    let published = Some(written);
    assert!(pending.check_published("written", &text, &published).is_ok());
    assert_eq!(
        code(pending.check_published("other", &text, &published)),
        "source_changed_during_approval"
    );
    assert_eq!(
        code(pending.check_published("written", &text, &Some(document()))),
        "source_changed_during_approval"
    );
    let result = pending.finish();
    assert_eq!((result.source_id, result.revision), (id, revision()));
    assert_eq!(result.source_path, place());
    assert_eq!(
        publication_error(MkoError::new("registry_destination_invalid", "m")).code(),
        "source_changed_during_approval"
    );
    assert_eq!(publication_error(MkoError::new("x", "m")).code(), "x");
}

#[test]
fn changes_are_counted_over_all_lines() {
    let counts = |added, deleted| DiffCounts { added, deleted };
    assert_eq!(git_numstat(&Some(b"1\t2\ta\n3\t4\tb\n-\t-\tc\nx\n".to_vec())), Some(counts(4, 6)));
    assert_eq!(git_numstat(&None), None);
    assert_eq!(git_numstat(&Some(vec![b'1'; 65_537])), None);
    assert_eq!(sum_counts("18446744073709551615\t1\ta\n5\t1\tb"), counts(u64::MAX, 2));
    assert_eq!(sum_counts("+1\t02\ta\n18446744073709551616\t1\tb\n"), counts(1, 2));
    assert!(says_untracked(" M a\n?? b"));
    assert!(!says_untracked("??b"));
    let summary = |status: &[u8], working, staged| {
        git_diff_summary(&Some(status.to_vec()), working, staged, 7, 2)
    };
    assert_eq!(summary(b"?? a", None, None), "untracked (+2 lines, +7 bytes)");
    assert_eq!(
        summary(b" M a", Some(counts(1, 2)), Some(counts(3, 4))),
        "tracked (working +1/-2 lines; staged +3/-4 lines; 7 current bytes)"
    );
    assert_eq!(summary(b" M a", None, Some(counts(3, 4))), "unavailable");
    assert_eq!(git_diff_summary(&None, None, None, 7, 2), "unavailable");
}

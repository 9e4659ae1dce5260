use mko_core::atomic::AtomicWriteResult;
use mko_core::error::MkoError;
use mko_core::knowledge::{
    calculate_knowledge_revision, normalize_and_validate_knowledge, note_filename_on,
    parse_knowledge_response, slug_of_lowercase, validate_knowledge_asset_contract,
    validate_knowledge_record, Concept, ConceptInput, ConceptKind, KnowledgeRecord,
    KnowledgeResponse, ReviewState, MAX_KNOWLEDGE_RESPONSE_BYTES, MAX_KNOWLEDGE_STRING_BYTES,
};
use mko_core::knowledge_store::{
    approve_knowledge, begin_knowledge, check_knowledge_directory, check_note_file,
    check_note_read, default_knowledge_scan_limits, existing_knowledge_error, find_knowledge,
    finish_creation, list_knowledge, list_note_names, list_unreviewed_knowledge,
    map_knowledge_publication_error, next_chunk, plan_knowledge, remaining_scan_bytes,
    scanned_total, search_knowledge, validate_existing_knowledge,
    validate_expected_knowledge_snapshot, verify_public_knowledge_publication, DirectoryIdentity,
    KnowledgeBasis, KnowledgeDocument, KnowledgeEntry, KnowledgePlan, KnowledgeSearchQuery,
    WriteKnowledgeRequest,
};
use mko_core::model::{
    AssetRecord, AssetStatus, Classification, Fingerprint, LastError, LastSuccessfulStep, Provider,
    Timestamp,
};
use mko_core::pdf::{EXTRACTOR_NAME, EXTRACTOR_VERSION};
use mko_core::prepare::{
    source_id, PreparedSourceBundle, VersionedComponent, PROCESSOR_VERSION, PROMPT_VERSION, TRUST,
};
use mko_core::version::KNOWLEDGE_CONTRACT_VERSION;

const REVISION: &str = "a80ad4327ffdb000b7192eed2c9b814a75d110182e6d6e6c31b45d5919a30d90";

fn hash() -> String {
    "a".repeat(64)
}

fn asset_id() -> String {
    format!("personal-asset-{}", hash())
}

fn asset() -> AssetRecord {
    let at = Timestamp { seconds: 1_700_000_000, nanos: 0 };
    AssetRecord {
        id: asset_id(),
        record_type: "asset".into(),
        schema_version: 1,
        scope: "personal".into(),
        title: "Title".into(),
        classification: Classification::Personal,
        asset_class: "document".into(),
        media_type: "application/pdf".into(),
        provider: Provider {
            provider_type: "google-drive-filesystem".into(),
            locator: "papers/a.pdf".into(),
            revision: None,
        },
        size_bytes: 5,
        modified_at: at,
        fingerprint: Fingerprint { method: "sha256".into(), value: format!("sha256:{}", hash()) },
        asset_status: AssetStatus::Processed,
        durable_state_history: vec![],
        supersedes: None,
        last_successful_step: LastSuccessfulStep::Reviewed,
        last_error: LastError { code: None, retryable: false },
        created_at: at,
        updated_at: at,
    }
}

fn bundle() -> PreparedSourceBundle {
    PreparedSourceBundle {
        schema_version: 1,
        asset_id: asset_id(),
        source_id: source_id(&asset_id()).unwrap(),
        fingerprint: asset().fingerprint,
        title_hint: "Title".into(),
        logical_path: "papers/a.pdf".into(),
        pages: vec!["page".into()],
        trust: TRUST.into(),
        extractor: VersionedComponent {
            name: EXTRACTOR_NAME.into(),
            version: EXTRACTOR_VERSION.into(),
        },
        core_version: KNOWLEDGE_CONTRACT_VERSION.into(),
        processor_version: PROCESSOR_VERSION.into(),
        prompt_version: PROMPT_VERSION.into(),
    }
}

fn input(name: &str) -> ConceptInput {
    ConceptInput {
        name: name.into(),
        kind: ConceptKind::Definition,
        body: "B".into(),
        tags: vec!["b".into(), "a".into(), "b".into()],
        locator: Some("p. 3".into()),
    }
}

fn response() -> KnowledgeResponse {
    KnowledgeResponse { synthesis: "All of it".into(), concepts: vec![input("Entropy")] }
}

fn basis() -> KnowledgeBasis {
    begin_knowledge(&asset_id(), Ok(response()), Ok(asset()), Some(Ok(bundle()))).unwrap()
}

fn created() -> (String, KnowledgeRecord, String) {
    match plan_knowledge(&basis(), &None, false).unwrap() {
        KnowledgePlan::Create { filename, record, body } => (filename, record, body),
        other => panic!("{other:?}"),
    }
}

fn document() -> KnowledgeDocument {
    let (filename, record, body) = created();
    KnowledgeDocument { record, body, filename, text: "the text".into() }
}

fn refused(result: Result<(), MkoError>, code: &str) {
    assert_eq!(result.unwrap_err().code(), code);
}

#[test]
fn responses_are_bounded() {
    assert!(parse_knowledge_response(MAX_KNOWLEDGE_RESPONSE_BYTES, Ok(response())).is_ok());
    let large =
        parse_knowledge_response(MAX_KNOWLEDGE_RESPONSE_BYTES + 1, Ok(response())).unwrap_err();
    assert_eq!(large.code(), "semantic_schema_invalid");
    assert_eq!(large.message(), "knowledge response exceeds 1 MiB");
    let broken = parse_knowledge_response(1, Err("bad".into())).unwrap_err();
    assert_eq!(broken.message(), "invalid knowledge response: bad");
}

#[test]
fn responses_are_composed_and_checked() {
    let mut given = response();
    given.synthesis = "a\r\nCafe\u{301}\r".into();
    given.concepts[0].locator = Some("p.\r3".into());
    normalize_and_validate_knowledge(&mut given).unwrap();
    assert_eq!(given.synthesis, "a\nCaf\u{e9}\n");
    assert_eq!(given.concepts[0].locator.as_deref(), Some("p.\n3"));

    let change: Vec<(&str, fn(&mut KnowledgeResponse))> = vec![
        ("synthesis must not be empty", |r| r.synthesis = " \n".into()),
        ("concept name must be a non-empty single line", |r| r.concepts[0].name = "a\nb".into()),
        ("concept name must be a non-empty single line", |r| r.concepts[0].name = "\t".into()),
        ("concept body must not be empty", |r| r.concepts[0].body = "".into()),
        ("normalized knowledge section exceeds 64 KiB", |r| {
            r.concepts[0].tags = vec!["x".repeat(MAX_KNOWLEDGE_STRING_BYTES + 1)]
        }),
        ("normalized knowledge section exceeds 64 KiB", |r| {
            r.concepts[0].tags = vec!["x".repeat(40_000), "y".repeat(40_000)]
        }),
        ("normalized knowledge section exceeds 64 KiB", |r| {
            r.concepts[0].name = "x".repeat(40_000);
            let mut other = r.concepts[0].clone();
            other.name = "y".repeat(40_000);
            r.concepts.push(other)
        }),
    ];
    for (message, edit) in change {
        let mut given = response();
        edit(&mut given);
        let failure = normalize_and_validate_knowledge(&mut given).unwrap_err();
        assert_eq!(failure.code(), "semantic_schema_invalid");
        assert_eq!(failure.message(), message);
    }
}

#[test]
fn notes_are_drafted_from_a_response() {
    let (filename, record, body) = created();
    assert_eq!(filename, "2023-11-15-title-aaaaaaaaaaaa.md");
    assert_eq!(
        body,
        "# Title \u{2014} Knowledge\n\n## Synthesis\nAll of it\n\n## Concepts\n### Entropy  \u{b7}  definition  \u{b7}  p. 3\nB\n"
    );
    assert_eq!(record.id, format!("personal-knowledge-{}", hash()));
    assert_eq!(record.concepts[0].id, "entropy");
    assert_eq!(record.review.status, ReviewState::Unreviewed);
    assert_eq!(record.content_revision, format!("sha256:{REVISION}"));
    assert_eq!(calculate_knowledge_revision(&record, &body).unwrap(), record.content_revision);
    assert_eq!(calculate_knowledge_revision(&record, &format!("{body} \r\n\n")).unwrap(), record.content_revision);
}

#[test]
fn written_notes_pass_their_own_checks() {
    let (filename, record, body) = created();
    let path = format!("knowledge/{filename}");
    assert_eq!(validate_knowledge_record(&path, &record, &body), vec![]);
    assert_eq!(validate_knowledge_asset_contract(&path, &record, &asset()), vec![]);
    let mut other = asset();
    other.title = "Other".into();
    let issues = validate_knowledge_asset_contract(&path, &record, &other);
    assert_eq!(issues.len(), 1);
    assert_eq!(issues[0].code, "knowledge_invalid");
    assert_eq!(issues[0].path, path);
}

#[test]
fn each_flaw_of_a_note_is_reported() {
    let change: Vec<(Vec<&str>, fn(&mut KnowledgeRecord))> = vec![
        (vec!["knowledge_invalid"], |r| r.schema_version = 2),
        (vec!["knowledge_invalid"], |r| r.generation.asset_fingerprint = "sha256:0".into()),
        (vec!["revision_mismatch"], |r| r.content_revision = "sha256:0".into()),
        (vec!["revision_mismatch"], |r| r.title = "Other".into()),
        (vec!["review_invalid"], |r| r.approved_revision = Some("sha256:0".into())),
        (vec!["review_invalid"], |r| r.review.status = ReviewState::Reviewed),
        (vec!["concept_invalid"], |r| r.concepts[0].body = "B\r".into()),
        (vec!["revision_mismatch", "concept_id_invalid"], |r| r.concepts[0].id = "other".into()),
    ];
    for (codes, edit) in change {
        let (filename, mut record, body) = created();
        edit(&mut record);
        let issues = validate_knowledge_record(&filename, &record, &body);
        let found: Vec<&str> = issues.iter().map(|issue| issue.code.as_str()).collect();
        let known: Vec<&str> = found
            .iter()
            .copied()
            .filter(|code| *code != "revision_mismatch" || codes.contains(code))
            .collect();
        assert_eq!(known, codes);
    }
    let (_, mut reviewed, body) = created();
    reviewed.review.status = ReviewState::Reviewed;
    reviewed.review.reviewed_at = Some(Timestamp { seconds: 1, nanos: 0 });
    reviewed.approved_revision = Some(reviewed.content_revision.clone());
    assert_eq!(validate_knowledge_record("p", &reviewed, &body), vec![]);
}

#[test]
fn concepts_with_one_name_have_different_ids() {
    let mut given = response();
    given.concepts =
        vec![input("A b!"), input("a  B"), input("a-b-2"), input("A B"), input("\u{3b1}")];
    let found =
        begin_knowledge(&asset_id(), Ok(given), Ok(asset()), Some(Ok(bundle()))).unwrap();
    let KnowledgePlan::Create { record, .. } = plan_knowledge(&found, &None, false).unwrap() else {
        panic!("a first note is created")
    };
    let ids: Vec<&str> = record.concepts.iter().map(|concept| concept.id.as_str()).collect();
    assert_eq!(ids, ["a-b", "a-b-2", "a-b-2-2", "a-b-3", "concept"]);
    assert_eq!(slug_of_lowercase("--a  b--"), "a-b");
    assert_eq!(slug_of_lowercase(""), "concept");
}

#[test]
fn structure_in_a_section_is_escaped() {
    let mut given = response();
    given.synthesis = "# one\n  ## two\n```\n~~~ x\n---\n==\n- item\na # b".into();
    given.concepts = vec![];
    let found =
        begin_knowledge(&asset_id(), Ok(given), Ok(asset()), Some(Ok(bundle()))).unwrap();
    let KnowledgePlan::Create { body, .. } = plan_knowledge(&found, &None, false).unwrap() else {
        panic!("a first note is created")
    };
    assert_eq!(
        body,
        "# Title \u{2014} Knowledge\n\n## Synthesis\n\\# one\n  \\## two\n\\```\n\\~~~ x\n\\---\n\\==\n- item\na # b\n\n## Concepts\n_No concepts extracted._\n"
    );
}

#[test]
fn note_names_hold_date_title_and_content() {
    let id = format!("personal-knowledge-{}", hash());
    let date = || Some("2024-01-02".to_string());
    assert_eq!(
        note_filename_on(date(), "A  Title: two!", &id).unwrap(),
        "2024-01-02-a-title-two-aaaaaaaaaaaa.md"
    );
    assert_eq!(
        note_filename_on(date(), "\u{ac00}", &id).unwrap(),
        "2024-01-02-document-aaaaaaaaaaaa.md"
    );
    assert_eq!(
        note_filename_on(date(), &format!("{} {}", "x".repeat(95), "y".repeat(9)), &id).unwrap(),
        format!("2024-01-02-{}-aaaaaaaaaaaa.md", "x".repeat(95))
    );
    assert_eq!(
        note_filename_on(date(), "a", "personal-knowledge-1").unwrap_err().code(),
        "knowledge_id_invalid"
    );
}

#[test]
fn writing_needs_its_asset_and_bundle() {
    let begun = |requested: &str, asset, bundle| {
        begin_knowledge(requested, Ok(response()), asset, bundle).map(|_| ())
    };
    refused(begun(&asset_id(), Ok(asset()), None), "bundle_required");
    refused(
        begun(&asset_id(), Err(MkoError::new("registry_unreadable", "gone")), None),
        "asset_not_found",
    );
    refused(
        begun(&asset_id(), Ok(asset()), Some(Err(MkoError::new("bundle_invalid", "x")))),
        "bundle_invalid",
    );
    let mut other = bundle();
    other.title_hint = "Other".into();
    refused(begun(&asset_id(), Ok(asset()), Some(Ok(other))), "bundle_invalid");
    let empty = KnowledgeResponse { synthesis: " ".into(), concepts: vec![] };
    refused(
        begin_knowledge(&asset_id(), Ok(empty), Ok(asset()), Some(Ok(bundle()))).map(|_| ()),
        "semantic_schema_invalid",
    );
    let mut foreign = asset();
    foreign.id = "asset-1".into();
    let mut with_it = bundle();
    with_it.asset_id = "asset-1".into();
    with_it.source_id = "source-1".into();
    refused(begun("asset-1", Ok(foreign), Some(Ok(with_it))), "asset_id_invalid");
    assert_eq!(basis().knowledge_id(), format!("personal-knowledge-{}", hash()));
}

#[test]
fn notes_are_replaced_only_on_request() {
    let existing = Some(document());
    match plan_knowledge(&basis(), &existing, false).unwrap() {
        KnowledgePlan::Keep { result } => {
            assert_eq!(result.result, "existing");
            assert_eq!(result.knowledge_path, "knowledge/2023-11-15-title-aaaaaaaaaaaa.md");
        }
        other => panic!("{other:?}"),
    }
    let mut changed = response();
    changed.synthesis = "Something else".into();
    let next =
        begin_knowledge(&asset_id(), Ok(changed), Ok(asset()), Some(Ok(bundle()))).unwrap();
    assert_eq!(plan_knowledge(&next, &existing, false).unwrap_err().code(), "replace_required");
    let mut approved = document();
    approved.record.approved_revision = Some(approved.record.content_revision.clone());
    match plan_knowledge(&next, &Some(approved.clone()), true).unwrap() {
        KnowledgePlan::Replace { filename, record, result, .. } => {
            assert_eq!(filename, approved.filename);
            assert_eq!(result.result, "replaced");
            assert_eq!(record.approved_revision, approved.record.approved_revision);
            assert_eq!(record.review.status, ReviewState::Unreviewed);
            assert_ne!(record.content_revision, approved.record.content_revision);
        }
        other => panic!("{other:?}"),
    }
    let mut edited = document();
    edited.body.push_str("more\n");
    assert_eq!(
        plan_knowledge(&basis(), &Some(edited), true).unwrap_err().code(),
        "knowledge_revision_mismatch"
    );
}

#[test]
fn creations_are_reported() {
    let (filename, record, _) = created();
    let made = finish_creation(&filename, &record, AtomicWriteResult::Created);
    assert_eq!(made.result, "created");
    assert_eq!(made.knowledge_path, format!("knowledge/{filename}"));
    let found = finish_creation(&filename, &record, AtomicWriteResult::Existing);
    assert_eq!(found.result, "existing");
}

#[test]
fn writing_again_reports_the_same_note() {
    let (filename, record, body) = created();
    let made = finish_creation(&filename, &record, AtomicWriteResult::Created);
    let mut note = document();
    note.record = record;
    note.body = body;
    note.filename = filename;
    note.record.review.status = ReviewState::Reviewed;
    for replace in [false, true] {
        match plan_knowledge(&basis(), &Some(note.clone()), replace).unwrap() {
            KnowledgePlan::Keep { result } => {
                assert_eq!(result.result, "existing");
                assert_eq!(result.knowledge_id, made.knowledge_id);
                assert_eq!(result.knowledge_path, made.knowledge_path);
                assert_eq!(result.content_revision, made.content_revision);
            }
            other => panic!("{other:?}"),
        }
    }
}

#[test]
fn an_existing_note_must_hold_the_same_content() {
    let (_, record, body) = created();
    assert!(validate_existing_knowledge(&record, &body, &record, &body).is_ok());
    refused(
        validate_existing_knowledge(&record, "other", &record, &body),
        "knowledge_conflict",
    );
    let mut other = record.clone();
    other.id = "x".into();
    refused(validate_existing_knowledge(&other, &body, &record, &body), "knowledge_conflict");
}

#[test]
fn selected_notes_must_not_change() {
    let found = document();
    let revision = found.record.content_revision.clone();
    let bytes = Some(b"the text".to_vec());
    let check = |current: &Option<Vec<u8>>, read: &Option<KnowledgeDocument>| {
        validate_expected_knowledge_snapshot("the text", &revision, current, read)
    };
    assert!(check(&bytes, &Some(found.clone())).is_ok());
    let code = "knowledge_revision_mismatch";
    refused(check(&None, &Some(found.clone())), code);
    refused(check(&Some(b"other".to_vec()), &Some(found.clone())), code);
    refused(check(&bytes, &None), code);
    let mut edited = found;
    edited.body.push('x');
    refused(check(&bytes, &Some(edited)), code);
}

#[test]
fn publication_failures_are_told_as_changes() {
    for code in
        ["registry_destination_invalid", "registry_not_found", "registry_snapshot_changed"]
    {
        let told = map_knowledge_publication_error(MkoError::new(code, "m"));
        assert_eq!(told.code(), "knowledge_revision_mismatch");
    }
    let kept = map_knowledge_publication_error(MkoError::new("registry_write_failed", "m"));
    assert_eq!((kept.code(), kept.message()), ("registry_write_failed", "m"));
    let existing = existing_knowledge_error(MkoError::new("front_matter_invalid", "m"));
    assert_eq!((existing.code(), existing.message()), ("existing_knowledge_invalid", "m"));
}

#[test]
fn approvals_name_what_was_shown() {
    let at = Timestamp { seconds: 7, nanos: 0 };
    let found = document();
    let revision = found.record.content_revision.clone();
    let record = approve_knowledge(&Some(found.clone()), &revision, at).unwrap();
    assert_eq!(record.review.status, ReviewState::Reviewed);
    assert_eq!(record.review.reviewed_at, Some(at));
    assert_eq!(record.approved_revision, Some(revision.clone()));
    assert_eq!(calculate_knowledge_revision(&record, &found.body).unwrap(), revision);
    assert_eq!(
        approve_knowledge(&None, &revision, at).unwrap_err().code(),
        "knowledge_not_found"
    );
    assert_eq!(
        approve_knowledge(&Some(found.clone()), "sha256:0", at).unwrap_err().code(),
        "knowledge_revision_mismatch"
    );
}

#[test]
fn notes_are_found_by_their_id() {
    let found = document();
    let mut other = document();
    other.record.id = "other".into();
    let id = found.record.id.clone();
    assert_eq!(find_knowledge(&vec![other.clone(), found.clone()], &id).unwrap(), Some(1));
    assert_eq!(find_knowledge(&vec![other], &id).unwrap(), None);
    assert_eq!(
        find_knowledge(&vec![found.clone(), found], &id).unwrap_err().code(),
        "knowledge_conflict"
    );
}

#[test]
fn notes_are_listed_by_title() {
    let mut first = document();
    first.record.title = "B".into();
    first.filename = "a\\b.md".into();
    let mut second = document();
    second.record.title = "A".into();
    second.record.id = "z".into();
    let mut third = second.clone();
    third.record.id = "y".into();
    third.record.review.status = ReviewState::Reviewed;
    let all = vec![first, second, third];
    let listed: Vec<(String, String)> = list_knowledge(&all)
        .into_iter()
        .map(|note| (note.title, note.knowledge_id))
        .collect();
    let own = document().record.id;
    assert_eq!(
        listed,
        [("A".into(), "y".into()), ("A".into(), "z".into()), ("B".to_string(), own.clone())]
    );
    let pending = list_unreviewed_knowledge(&all);
    assert_eq!(pending.len(), 2);
    assert_eq!(pending[0].knowledge_id, "z");
    assert_eq!(pending[1].knowledge_path, "knowledge/a/b.md");
    assert_eq!(pending[1].rendered_markdown, "the text");
}

#[test]
fn unreviewed_notes_stand_in_the_order_of_all() {
    let note = |title: &str, id: &str, text: &str, status: ReviewState| {
        let mut note = document();
        note.record.title = title.into();
        note.record.id = id.into();
        note.record.review.status = status;
        note.filename = format!("{text}.md");
        note.text = text.into();
        note
    };
    let all = vec![
        note("B", "x", "one", ReviewState::Unreviewed),
        note("A", "z", "two", ReviewState::Reviewed),
        note("A", "y", "three", ReviewState::Unreviewed),
        note("B", "x", "four", ReviewState::Unreviewed),
        note("A", "a", "five", ReviewState::Reviewed),
    ];
    let pending = list_unreviewed_knowledge(&all);
    let texts: Vec<&str> = pending.iter().map(|note| note.rendered_markdown.as_str()).collect();
    assert_eq!(texts, ["three", "one", "four"]);
    let listed: Vec<(String, String, String, String, String)> = list_knowledge(&all)
        .into_iter()
        .filter(|note| note.review_status == ReviewState::Unreviewed)
        .map(|note| {
            (
                note.knowledge_id,
                note.asset_id,
                note.title,
                note.knowledge_path,
                note.content_revision,
            )
        })
        .collect();
    let shown: Vec<(String, String, String, String, String)> = pending
        .into_iter()
        .map(|note| {
            (
                note.knowledge_id,
                note.asset_id,
                note.title,
                note.knowledge_path,
                note.content_revision,
            )
        })
        .collect();
    assert_eq!(shown, listed);
}

#[test]
fn concepts_are_searched_in_all_their_words() {
    let all = vec![document()];
    let search = |term: &str, kind: Option<ConceptKind>, tag: Option<&str>| {
        let query =
            KnowledgeSearchQuery { term: term.into(), kind, tag: tag.map(|tag| tag.into()) };
        search_knowledge(&all, &query).len()
    };
    assert_eq!(search("", None, None), 1);
    assert_eq!(search("ENTROPY b b a", None, None), 1);
    assert_eq!(search("definition", None, None), 1);
    assert_eq!(search("theorem", None, None), 0);
    assert_eq!(search("", Some(ConceptKind::Theorem), None), 0);
    assert_eq!(search("", Some(ConceptKind::Definition), Some("a")), 1);
    assert_eq!(search("", None, Some("A")), 0);
    let found = search_knowledge(
        &all,
        &KnowledgeSearchQuery { term: "entropy".into(), kind: None, tag: None },
    );
    assert_eq!(found[0].name, "Entropy");
    assert_eq!(found[0].knowledge_path, "knowledge/2023-11-15-title-aaaaaaaaaaaa.md");
    assert_eq!(found[0].locator.as_deref(), Some("p. 3"));
}

#[test]
fn searches_ignore_case_and_narrow_by_kind() {
    let mut note = document();
    for (name, kind) in [("Heat", ConceptKind::Theorem), ("Work", ConceptKind::Definition)] {
        let mut concept = note.record.concepts[0].clone();
        concept.name = name.into();
        concept.kind = kind;
        note.record.concepts.push(concept);
    }
    let all = vec![note.clone(), note];
    let search = |term: &str, kind: Option<ConceptKind>| {
        search_knowledge(&all, &KnowledgeSearchQuery { term: term.into(), kind, tag: None })
    };
    let names = |term: &str, kind: Option<ConceptKind>| -> Vec<String> {
        search(term, kind).into_iter().map(|found| found.name).collect()
    };
    assert_eq!(names("", None), ["Entropy", "Heat", "Work", "Entropy", "Heat", "Work"]);
    assert_eq!(names("", Some(ConceptKind::Theorem)), ["Heat", "Heat"]);
    for term in ["", "heat", "o", "definition"] {
        assert_eq!(search(&term.to_uppercase(), None), search(term, None));
        for kind in [ConceptKind::Theorem, ConceptKind::Definition] {
            let mut narrowed = search(term, None);
            narrowed.retain(|found| found.kind == kind);
            assert_eq!(search(term, Some(kind)), narrowed);
        }
    }
}

#[test]
fn note_directories_are_listed_in_order() {
    let entry = |name: &str| KnowledgeEntry { is_symlink: false, name: Some(name.into()) };
    assert_eq!(
        list_note_names(&vec![entry("b.md"), entry("a.md"), entry("c.txt"), entry(".md")], 4)
            .unwrap(),
        ["a.md", "b.md"]
    );
    let code = |entries: Vec<KnowledgeEntry>, max: u64| {
        list_note_names(&entries, max).unwrap_err().code().to_string()
    };
    assert_eq!(code(vec![entry("a"), entry("b")], 1), "knowledge_scan_limit");
    assert_eq!(
        code(vec![KnowledgeEntry { is_symlink: true, name: Some("a".into()) }], 9),
        "knowledge_path_invalid"
    );
    assert_eq!(
        code(vec![KnowledgeEntry { is_symlink: false, name: None }], 9),
        "knowledge_path_invalid"
    );
    assert_eq!(code(vec![entry("A.md"), entry("a.md")], 9), "path_collision");
    assert_eq!(code(vec![entry("\u{e9}"), entry("e\u{301}")], 9), "path_collision");
}

#[test]
fn note_scans_are_bounded() {
    let limits = default_knowledge_scan_limits();
    assert_eq!(
        (limits.max_entries, limits.max_total_bytes, limits.max_elapsed_ms, limits.max_depth),
        (1024, 8 * 1024 * 1024, 5000, 1)
    );
    assert_eq!(remaining_scan_bytes(3, 10).unwrap(), 7);
    assert_eq!(remaining_scan_bytes(11, 10).unwrap_err().code(), "knowledge_scan_limit");
    assert!(check_note_file(true, false, 10, 10).is_ok());
    for (file, link, len) in [(false, false, 1), (true, true, 1), (true, false, 11)] {
        refused(check_note_file(file, link, len, 10), "knowledge_scan_limit");
    }
    assert_eq!(next_chunk(0, 100_000).unwrap(), 65_536);
    assert_eq!(next_chunk(65_536, 100_000).unwrap(), 34_465);
    assert_eq!(next_chunk(100_001, 100_000).unwrap_err().code(), "knowledge_scan_limit");
    assert!(check_note_read(10, 10).is_ok());
    refused(check_note_read(11, 10), "knowledge_scan_limit");
    assert_eq!(scanned_total(4, 6, 10).unwrap(), 10);
    assert_eq!(scanned_total(5, 6, 10).unwrap_err().code(), "knowledge_scan_limit");
    assert_eq!(scanned_total(u64::MAX, 1, u64::MAX).unwrap_err().code(), "knowledge_scan_limit");
}

#[test]
fn note_directories_stay_where_they_are() {
    let here = DirectoryIdentity { device: 1, inode: 2 };
    let there = DirectoryIdentity { device: 1, inode: 3 };
    assert_eq!(check_knowledge_directory(Some(here), Some(here)).unwrap(), here);
    for (opened, public) in [(Some(here), Some(there)), (None, Some(here)), (Some(here), None)] {
        assert_eq!(
            check_knowledge_directory(opened, public).unwrap_err().code(),
            "knowledge_path_invalid"
        );
    }
    let bytes = Some(b"text".to_vec());
    assert!(verify_public_knowledge_publication(here, Some(here), &bytes, "text").is_ok());
    let code = "knowledge_publication_invalid";
    refused(verify_public_knowledge_publication(here, Some(there), &bytes, "text"), code);
    refused(verify_public_knowledge_publication(here, None, &bytes, "text"), code);
    refused(verify_public_knowledge_publication(here, Some(here), &None, "text"), code);
    refused(verify_public_knowledge_publication(here, Some(here), &bytes, "other"), code);
}

#[test]
fn write_requests_hold_what_was_asked() {
    let plain = WriteKnowledgeRequest::new("/repo", "id", vec![1]);
    assert_eq!(plain.bundle_path(), &None);
    assert!(!plain.replace());
    let full = plain.with_bundle("b.json").with_replace(true);
    assert_eq!(full.repository_root(), "/repo");
    assert_eq!(full.asset_id(), "id");
    assert_eq!(full.response(), &vec![1]);
    assert_eq!(full.bundle_path().as_deref(), Some("b.json"));
    assert!(full.replace());
}

#[test]
fn revisions_do_not_depend_on_the_order_of_tags() {
    let (_, record, body) = created();
    let mut other = record.clone();
    other.concepts = vec![Concept {
        tags: vec!["a".into(), "b".into()],
        ..record.concepts[0].clone()
    }];
    assert_eq!(
        calculate_knowledge_revision(&other, &body).unwrap(),
        calculate_knowledge_revision(&record, &body).unwrap()
    );
    other.concepts[0].tags.push("c".into());
    assert_ne!(
        calculate_knowledge_revision(&other, &body).unwrap(),
        calculate_knowledge_revision(&record, &body).unwrap()
    );
}

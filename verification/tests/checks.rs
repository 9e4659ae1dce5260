use mko_core::check::{
    check_repository, has_conflict_in, inspect_files, inspect_hook, inspect_locks,
    parse_utf8_markdown, record_kind_of, resolve_check_root, sort_and_deduplicate, CheckIssue,
    CheckReport, CheckRequest, FileRecord, InspectedFile, LockListing, RecordKind, RevisedSource,
    Transition,
};
use mko_core::error::MkoError;
use mko_core::hooks::{
    configured_hook_path, hook_installed, install_hooks, refuse_on_v2_knowledge_base,
    validate_git_root, HookDirectory, HookFile, HookInstallPlan, HookState, PRE_COMMIT_SCRIPT,
};
use mko_core::model::{
    AssetRecord, AssetStatus, Classification, Fingerprint, Generation, LastError,
    LastSuccessfulStep, Provider, Relations, Review, ReviewStatus, SourceMetadata, SourceRecord,
    SourceStatus, Timestamp,
};
use mko_core::pdf::{EXTRACTOR_NAME, EXTRACTOR_VERSION};
use mko_core::prepare::{PROCESSOR_VERSION, PROMPT_VERSION};
use mko_core::repository_files::{
    check_git_output, index_entries, staged_object, EntryStep, EntryType, FileCollector,
    StagedCollector, StagedStep, TypeStep, MAX_CHECK_FILE_BYTES,
};
use mko_core::version::CORE_VERSION;

fn at() -> Timestamp {
    Timestamp { seconds: 1_700_000_000, nanos: 0 }
}

fn hash(digit: &str) -> String {
    digit.repeat(64)
}

fn asset(digit: &str) -> AssetRecord {
    AssetRecord {
        id: format!("personal-asset-{}", hash(digit)),
        record_type: "asset".into(),
        schema_version: 1,
        scope: "personal".into(),
        title: "Paper".into(),
        classification: Classification::Personal,
        asset_class: "document".into(),
        media_type: "application/pdf".into(),
        provider: Provider {
            provider_type: "google-drive-stream".into(),
            locator: "papers/a.pdf".into(),
            revision: None,
        },
        size_bytes: 9,
        modified_at: at(),
        fingerprint: Fingerprint {
            method: "sha256".into(),
            value: format!("sha256:{}", hash(digit)),
        },
        asset_status: AssetStatus::ReviewPending,
        durable_state_history: vec![],
        supersedes: None,
        last_successful_step: LastSuccessfulStep::Drafted,
        last_error: LastError { code: None, retryable: false },
        created_at: at(),
        updated_at: at(),
    }
}

fn revision() -> String {
    format!("sha256:{}", hash("c"))
}

fn source(digit: &str) -> SourceRecord {
    SourceRecord {
        id: format!("personal-source-{}", hash(digit)),
        record_type: "source".into(),
        schema_version: 1,
        scope: "personal".into(),
        title: "Paper".into(),
        status: SourceStatus::ReviewPending,
        created_at: at(),
        updated_at: at(),
        tags: vec![],
        domain: vec![],
        ai_assisted: true,
        relations: Relations { asset_ids: vec![format!("personal-asset-{}", hash(digit))] },
        generation: Generation {
            extractor_name: EXTRACTOR_NAME.into(),
            extractor_version: EXTRACTOR_VERSION.into(),
            core_version: CORE_VERSION.into(),
            processor_version: PROCESSOR_VERSION.into(),
            prompt_version: PROMPT_VERSION.into(),
            asset_fingerprint: format!("sha256:{}", hash(digit)),
        },
        content_revision: revision(),
        review: Review {
            status: ReviewStatus::Pending,
            approved_revision: None,
            reviewed_at: None,
        },
        source_metadata: SourceMetadata { authors: vec![], publication_date: None, doi: None },
    }
}

fn asset_file(asset: AssetRecord) -> InspectedFile {
    InspectedFile {
        path: format!("assets/registry/{}.md", asset.id),
        bytes: vec![],
        secret_rules: vec![],
        record: FileRecord::Asset { asset },
    }
}

fn source_file(source: SourceRecord) -> InspectedFile {
    let digits = source.id.trim_start_matches("personal-source-")[..12].to_string();
    InspectedFile {
        path: format!("sources/2023-11-15-paper-{digits}.md"),
        bytes: vec![],
        secret_rules: vec![],
        record: FileRecord::Source { source: RevisedSource { source, revision: Ok(revision()) } },
    }
}

fn plain(path: &str, bytes: &[u8]) -> InspectedFile {
    InspectedFile {
        path: path.into(),
        bytes: bytes.to_vec(),
        secret_rules: vec![],
        record: FileRecord::Unread,
    }
}

fn codes(files: Vec<InspectedFile>) -> Vec<String> {
    let allowed = vec![Transition { from: AssetStatus::Registered, to: AssetStatus::Extracted }];
    let mut issues = vec![];
    inspect_files("/repo", &files, &allowed, &mut issues);
    issues.into_iter().map(|issue| issue.code).collect()
}

fn edited_asset(edit: fn(&mut AssetRecord)) -> Vec<String> {
    let mut changed = asset("a");
    edit(&mut changed);
    codes(vec![asset_file(changed), source_file(source("a"))])
}

fn edited_source(edit: fn(&mut SourceRecord)) -> Vec<String> {
    let mut changed = source("a");
    edit(&mut changed);
    codes(vec![asset_file(asset("a")), source_file(changed)])
}

fn code<T: std::fmt::Debug>(result: Result<T, MkoError>) -> String {
    result.unwrap_err().code().to_string()
}

#[test]
fn sound_records_raise_no_issue() {
    assert!(codes(vec![asset_file(asset("a")), source_file(source("a"))]).is_empty());
}

#[test]
fn flaws_of_assets_are_reported() {
    assert_eq!(edited_asset(|a| a.schema_version = 2), ["registry_invalid"]);
    assert_eq!(edited_asset(|a| a.provider.locator = "/a".into()), ["path_not_portable"]);
    assert_eq!(edited_asset(|a| a.supersedes = Some("x".into())), ["relation_missing"]);
    assert_eq!(
        edited_asset(|a| a.last_successful_step = LastSuccessfulStep::Reviewed),
        ["invalid_state_transition"]
    );
    assert_eq!(
        edited_asset(|a| {
            a.durable_state_history = vec![AssetStatus::Registered, AssetStatus::Extracted]
        }),
        Vec::<String>::new()
    );
    assert_eq!(
        edited_asset(|a| {
            a.durable_state_history = vec![AssetStatus::Extracted, AssetStatus::Registered]
        }),
        ["invalid_state_transition"]
    );
    assert_eq!(
        edited_asset(|a| a.asset_status = AssetStatus::Failed),
        ["invalid_state_transition", "source_state_mismatch"]
    );
    assert_eq!(
        edited_asset(|a| {
            a.asset_status = AssetStatus::Processed;
            a.last_successful_step = LastSuccessfulStep::Reviewed
        }),
        ["source_state_mismatch", "source_state_mismatch"]
    );
}

#[test]
fn flaws_of_sources_are_reported() {
    assert_eq!(edited_source(|s| s.schema_version = 2), ["source_invalid"]);
    assert_eq!(edited_source(|s| s.created_at.seconds += 86_400), ["source_invalid"]);
    assert_eq!(
        edited_source(|s| s.content_revision = "sha256:0".into()),
        ["revision_mismatch", "relation_missing"]
    );
    assert_eq!(
        edited_source(|s| s.generation.asset_fingerprint = "sha256:0".into()),
        ["relation_mismatch"]
    );
    assert_eq!(
        edited_source(|s| s.relations.asset_ids = vec!["x".into()]),
        ["relation_missing", "relation_missing"]
    );
    assert_eq!(
        edited_source(|s| s.review.reviewed_at = Some(at())),
        ["review_invalid"]
    );
    assert_eq!(
        edited_source(|s| {
            s.status = SourceStatus::Approved;
            s.review.status = ReviewStatus::Approved
        }),
        ["approval_stale", "review_invalid", "source_state_mismatch", "relation_missing"]
    );
}

#[test]
fn approved_sources_belong_to_processed_assets() {
    let mut processed = asset("a");
    processed.asset_status = AssetStatus::Processed;
    processed.last_successful_step = LastSuccessfulStep::Reviewed;
    let mut approved = source("a");
    approved.status = SourceStatus::Approved;
    approved.review.status = ReviewStatus::Approved;
    approved.review.reviewed_at = Some(at());
    approved.review.approved_revision = Some(revision());
    assert!(codes(vec![asset_file(processed), source_file(approved)]).is_empty());
}

#[test]
fn registry_conflicts_are_reported() {
    let mut twin = asset_file(asset("a"));
    twin.path = "assets/registry/z.md".into();
    assert_eq!(
        codes(vec![asset_file(asset("a")), twin, source_file(source("a"))]),
        ["registry_invalid", "duplicate_conflict"]
    );
    let mut second = asset("b");
    second.fingerprint = asset("a").fingerprint;
    assert_eq!(
        codes(vec![
            asset_file(asset("a")),
            asset_file(second),
            source_file(source("a")),
            source_file(source("b")),
        ]),
        ["registry_invalid", "duplicate_conflict", "relation_mismatch"]
    );
    let mut same_asset = source_file(source("a"));
    same_asset.path = "sources/2023-11-15-other-aaaaaaaaaaaa.md".into();
    assert_eq!(
        codes(vec![asset_file(asset("a")), source_file(source("a")), same_asset]),
        ["relation_conflict"]
    );
    let mut old = asset("a");
    old.asset_status = AssetStatus::Changed;
    old.durable_state_history = vec![AssetStatus::Registered];
    let mut new = asset("b");
    new.supersedes = Some(old.id.clone());
    assert_eq!(
        codes(vec![asset_file(old), asset_file(new), source_file(source("b"))]),
        ["lineage_repair_needed"]
    );
}

#[test]
fn repairs_name_the_repository() {
    let mut processed = asset("a");
    processed.asset_status = AssetStatus::Processed;
    processed.last_successful_step = LastSuccessfulStep::Reviewed;
    let mut issues = vec![];
    inspect_files("/repo", &vec![asset_file(processed)], &vec![], &mut issues);
    assert_eq!(issues.len(), 1);
    assert_eq!(
        issues[0].safe_action,
        Some(format!(
            "mko source repair-state --repo \"/repo\" --asset-id personal-asset-{}",
            hash("a")
        ))
    );
}

#[test]
fn contents_and_names_of_files_are_inspected() {
    let mut leaky = plain("a.txt", b"");
    leaky.secret_rules = vec!["rule".into()];
    let broken = InspectedFile {
        path: "sources/x.md".into(),
        bytes: vec![],
        secret_rules: vec![],
        record: FileRecord::Broken { failure: MkoError::new("schema_invalid", "m") },
    };
    assert_eq!(
        codes(vec![
            leaky,
            plain("b.txt", b"x\n<<<<<<< HEAD\n"),
            plain("B.TXT", b"=======\r\n"),
            broken
        ]),
        ["secret_detected", "git_conflict", "path_collision", "git_conflict", "schema_invalid"]
    );
    assert!(has_conflict_in("a\n>>>>>>> b"));
    assert!(!has_conflict_in("<<<<<<<\n ======="));
    let parsed = parse_utf8_markdown(b"---\na: b\n---\ntext\n").unwrap();
    assert_eq!((parsed.metadata.as_str(), parsed.body.as_str()), ("a: b\n", "text\n"));
    let failure = parse_utf8_markdown(&[0xff]).unwrap_err();
    assert_eq!((failure.code(), failure.message()), ("schema_invalid", "record must be UTF-8"));
    assert_eq!(record_kind_of("assets/registry/a.md"), RecordKind::Asset);
    assert_eq!(record_kind_of("sources/a/b.md"), RecordKind::Source);
    assert_eq!(record_kind_of("sources/a.txt"), RecordKind::Other);
    assert_eq!(record_kind_of("notes/a.md"), RecordKind::Other);
}

#[test]
fn locks_are_reported_by_name() {
    let found = |listing: LockListing| {
        let mut issues = vec![];
        inspect_locks(&listing, &mut issues);
        issues.into_iter().map(|issue| (issue.code, issue.path.unwrap())).collect::<Vec<_>>()
    };
    assert!(found(LockListing::Absent).is_empty());
    assert_eq!(
        found(LockListing::NotDirectory),
        [("runtime_path_invalid".into(), ".knowledge-os/runtime/locks".into())]
    );
    assert_eq!(
        found(LockListing::Listed {
            names: vec!["a.lock".into(), "b.json".into(), "c.lock.takeover".into()]
        }),
        [
            ("lock_held".to_string(), ".knowledge-os/runtime/locks/a.lock".to_string()),
            ("lock_held".into(), ".knowledge-os/runtime/locks/c.lock.takeover".into())
        ]
    );
}

#[test]
fn reports_are_sorted_and_say_whether_all_is_well() {
    let hook = plain(".githooks/pre-commit", PRE_COMMIT_SCRIPT.as_bytes());
    let configured = Some(".githooks\n".to_string());
    let sound = check_repository(
        "/repo",
        vec![hook],
        vec![],
        &vec![],
        &LockListing::Absent,
        &configured,
    );
    assert!(sound.is_ok());
    assert_eq!(sound.result, "ok");
    let issue = |code: &str, path: Option<&str>| CheckIssue {
        code: code.into(),
        path: path.map(|path| path.into()),
        rule: None,
        message: "m".into(),
        safe_action: None,
    };
    let failed = check_repository(
        "/repo",
        vec![],
        vec![issue("z", None), issue("a", Some("p")), issue("a", None), issue("z", None)],
        &vec![],
        &LockListing::Absent,
        &None,
    );
    assert_eq!(failed.result, "failed");
    let listed: Vec<&str> = failed.issues.iter().map(|issue| issue.code.as_str()).collect();
    assert_eq!(listed, ["a", "a", "hook_missing", "hook_not_configured", "z"]);
    assert_eq!(failed.issues[0].path, None);
    assert!(failed.has_code("hook_missing"));
    assert!(!failed.has_code("hook"));
    assert_eq!(
        failed.issues[2].safe_action.as_deref(),
        Some("mko hooks install --repo \"/repo\"")
    );
    assert_eq!(sort_and_deduplicate(vec![issue("b", None), issue("b", None)]).len(), 1);
    let empty = CheckReport { result: "failed".into(), issues: vec![] };
    assert!(empty.is_ok());
    let mut other = vec![];
    inspect_hook("/repo", &vec![plain(".githooks/pre-commit", b"x")], &configured, &mut other);
    assert_eq!(other.len(), 1);
}

#[test]
fn roots_are_directories() {
    assert_eq!(resolve_check_root(Ok("/r".into()), true).unwrap(), "/r");
    let failure = resolve_check_root(Err("gone".into()), false).unwrap_err();
    assert_eq!(failure.message(), "cannot resolve repository root: gone");
    assert_eq!(code(resolve_check_root(Ok("/r".into()), false)), "repository_root_invalid");
    let request = CheckRequest::new("/r").with_staged(true);
    assert_eq!((request.repository_root(), request.staged()), ("/r", true));
}

#[test]
fn working_files_are_collected() {
    let mut found = FileCollector::new();
    assert_eq!(found.begin_entry("", Some(".git")), EntryStep::Skip);
    assert_eq!(found.begin_entry(".knowledge-os", Some("runtime")), EntryStep::Skip);
    assert_eq!(found.begin_entry("", Some("target")), EntryStep::Skip);
    assert_eq!(found.begin_entry("", None), EntryStep::Skip);
    assert_eq!(found.begin_entry("", Some("a\\b")), EntryStep::Skip);
    let inspect = |path: &str| EntryStep::Inspect { relative: path.into() };
    assert_eq!(found.begin_entry("docs", Some("a.md")), inspect("docs/a.md"));
    assert_eq!(found.begin_entry("", Some(".gitignore")), inspect(".gitignore"));
    assert_eq!(found.inspect_type("l", EntryType::Symlink), TypeStep::Skip);
    assert_eq!(found.inspect_type("d", EntryType::Directory), TypeStep::Descend);
    assert_eq!(found.inspect_type("s", EntryType::Other), TypeStep::Skip);
    assert_eq!(found.inspect_type("f", EntryType::File), TypeStep::Measure);
    assert!(found.accepts_size("f", MAX_CHECK_FILE_BYTES));
    assert!(!found.accepts_size("g", MAX_CHECK_FILE_BYTES + 1));
    assert!(found.has_room());
    found.take_content("f", b"text".to_vec());
    found.take_content("h", vec![0; MAX_CHECK_FILE_BYTES as usize + 1]);
    let (files, issues) = found.finish();
    assert_eq!(files.len(), 1);
    assert_eq!((files[0].path.as_str(), files[0].bytes.as_slice()), ("f", &b"text"[..]));
    let listed: Vec<(&str, Option<&str>)> =
        issues.iter().map(|issue| (issue.code.as_str(), issue.path.as_deref())).collect();
    assert_eq!(
        listed,
        [
            ("path_not_portable", None),
            ("path_not_portable", Some("a\\b")),
            ("symlink_not_allowed", Some("l")),
            ("check_input_too_large", Some("g")),
            ("check_input_too_large", Some("h"))
        ]
    );
}

#[test]
fn all_files_together_are_bounded() {
    let mut found = FileCollector::new();
    for i in 0..16 {
        assert!(found.accepts_size("f", MAX_CHECK_FILE_BYTES));
        found.take_content(&format!("{i}"), vec![0; MAX_CHECK_FILE_BYTES as usize]);
    }
    assert!(found.accepts_size("empty", 0));
    assert!(!found.accepts_size("f", 1));
    let (files, issues) = found.finish();
    assert_eq!(files.len(), 16);
    assert_eq!(
        issues[0].message,
        "repository input exceeds the 32 MiB aggregate check limit"
    );
}

#[test]
fn staged_files_are_asked_for_once() {
    let entries = index_entries(b"100644 oid 0\ta.md\0\0120000 oid 0\tl\0");
    assert_eq!(entries.len(), 2);
    let mut found = StagedCollector::new();
    let measure = |path: &str| StagedStep::Measure { path: path.into() };
    assert_eq!(found.begin_entry(&entries[0]), measure("a.md"));
    assert_eq!(found.begin_entry(&entries[0]), StagedStep::Skip);
    assert_eq!(found.begin_entry(&entries[1]), StagedStep::Skip);
    assert_eq!(found.begin_entry(b"no tab"), StagedStep::Skip);
    assert_eq!(found.begin_entry(b"100644 oid 0\t\xff"), StagedStep::Skip);
    assert_eq!(found.begin_entry(b"100644 oid 0\t../x"), StagedStep::Skip);
    assert_eq!(found.begin_entry(b"100644 oid 2\tb.md"), StagedStep::Skip);
    assert_eq!(found.begin_entry(b"160000 oid 0\tsub"), StagedStep::Skip);
    assert_eq!(found.begin_entry(b"100755 oid 0\tc.sh"), measure("c.sh"));
    assert_eq!(found.accepts_size("a.md", b"12\n").unwrap(), Some(13));
    assert_eq!(found.accepts_size("c.sh", b"2097153").unwrap(), None);
    assert_eq!(code(found.accepts_size("c.sh", b"x")), "git_index_invalid");
    assert!(found.has_room());
    found.take_blob("a.md", b"text".to_vec());
    let (files, issues) = found.finish();
    assert_eq!(files.len(), 1);
    let listed: Vec<&str> = issues.iter().map(|issue| issue.message.as_str()).collect();
    assert_eq!(
        listed,
        [
            "staged symbolic links are not allowed",
            "malformed Git index entry",
            "Git index path is not UTF-8",
            "Git index path is not portable",
            "Git index contains an unmerged entry",
            "unsupported staged file mode",
            "staged file exceeds the 2 MiB check limit"
        ]
    );
    assert_eq!(staged_object("a b"), ":0:a b");
    assert!(check_git_output(true, 5, 5).is_ok());
    assert_eq!(code(check_git_output(true, 6, 5)), "check_input_too_large");
    assert_eq!(code(check_git_output(false, 6, 5)), "git_index_invalid");
}

#[test]
fn paths_are_portable_by_their_parts() {
    let mut found = StagedCollector::new();
    for (path, portable) in [
        ("a//b", true),
        ("a/./c", true),
        ("a/", true),
        ("./d", false),
        (".", false),
        ("", false),
        ("/e", false),
        ("a/../f", false),
        ("a\\g", false),
    ] {
        let entry = format!("100644 oid 0\t{path}");
        assert_eq!(
            found.begin_entry(entry.as_bytes()) != StagedStep::Skip,
            portable,
            "{path}"
        );
    }
}

fn inspected(
    configured: Option<&str>,
    directory: &HookDirectory,
    file: &HookFile,
) -> Result<HookState, MkoError> {
    mko_core::hooks::inspect_hook(
        "/r".into(),
        &configured.map(|path| path.to_string()),
        directory,
        file,
    )
    .map(|found| found.state)
}

fn managed(executable: bool) -> HookFile {
    HookFile::Regular { content: PRE_COMMIT_SCRIPT.as_bytes().to_vec(), executable }
}

#[test]
fn hooks_of_others_are_preserved() {
    let real = HookDirectory::Real;
    let own = Some(".githooks");
    assert_eq!(inspected(own, &real, &managed(true)).unwrap(), HookState::Managed);
    assert_eq!(inspected(own, &real, &managed(false)).unwrap(), HookState::Missing);
    assert_eq!(inspected(None, &real, &managed(true)).unwrap(), HookState::Missing);
    assert_eq!(inspected(own, &real, &HookFile::Absent).unwrap(), HookState::Missing);
    assert_eq!(
        inspected(own, &HookDirectory::Absent, &HookFile::NotRegular).unwrap(),
        HookState::Missing
    );
    assert_eq!(code(inspected(Some("x"), &real, &managed(true))), "hook_conflict");
    assert_eq!(
        code(inspected(own, &HookDirectory::NotDirectory, &managed(true))),
        "hook_path_invalid"
    );
    assert_eq!(code(inspected(own, &real, &HookFile::NotRegular)), "hook_path_invalid");
    let foreign = HookFile::Regular { content: b"#!/bin/sh\n".to_vec(), executable: true };
    assert_eq!(code(inspected(own, &real, &foreign)), "hook_conflict");
    let unreadable = HookFile::Unreadable { detail: "m".into() };
    assert_eq!(inspected(own, &real, &unreadable).unwrap_err().message(), "m");

    let plan = |directory: &HookDirectory, file: &HookFile| {
        install_hooks(HookState::Missing, directory, file)
    };
    assert_eq!(
        plan(&HookDirectory::Absent, &HookFile::Absent).unwrap(),
        HookInstallPlan::Install { create_directory: true, write_hook: true }
    );
    assert_eq!(
        plan(&real, &managed(false)).unwrap(),
        HookInstallPlan::Install { create_directory: false, write_hook: false }
    );
    assert_eq!(code(plan(&real, &foreign)), "hook_conflict");
    assert_eq!(
        install_hooks(HookState::Managed, &real, &managed(true)).unwrap(),
        HookInstallPlan::Installed
    );
    let done = hook_installed();
    assert_eq!((done.result.as_str(), done.hook_path.as_str()), ("installed", ".githooks/pre-commit"));
    assert!(refuse_on_v2_knowledge_base(false).is_ok());
    assert_eq!(code(refuse_on_v2_knowledge_base(true)), "hook_not_supported");
}

#[test]
fn hook_paths_are_read_from_git() {
    assert_eq!(
        configured_hook_path(true, Some(0), Some(" .githooks\n".into())).unwrap().as_deref(),
        Some(".githooks")
    );
    assert_eq!(configured_hook_path(false, Some(1), Some("".into())).unwrap(), None);
    assert_eq!(code(configured_hook_path(true, Some(0), None)), "hook_inspection_failed");
    assert_eq!(
        code(configured_hook_path(false, Some(2), Some("".into()))),
        "hook_inspection_failed"
    );
    assert!(validate_git_root("/r", true, Ok("/r".into())).is_ok());
    assert_eq!(code(validate_git_root("/r", true, Ok("/".into()))), "git_repository_required");
    assert_eq!(code(validate_git_root("/r", false, Ok("/r".into()))), "git_repository_required");
    assert_eq!(code(validate_git_root("/r", true, Err(MkoError::new("x", "m")))), "x");
}

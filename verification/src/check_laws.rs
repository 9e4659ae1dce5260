//! What the inspection of a repository promises: which records, Sources, states, locks and
//! hooks are in order, that every file is looked at, and that a report leaves nothing out.

use crate::asset_validation::is_canonical_asset;
use crate::check::{
    asset_id_in, asset_in, asset_record_issues, colliding_before, conflict_issues, content_issues,
    entry_issues, file_pass, has_conflict_lines, history_allowed, hook_in, hook_issues, inspection,
    is_lock_name, is_repository_path, issue_with_action, lock_issue, lock_issues, plain_issue,
    record_issues, registered_at, registry_of, registry_pass, relates_first, relation_issues,
    report_of, review_issues, source_before, source_in, source_pass, source_record_issues,
    source_related, state_issues, state_pass, step_agrees, CheckIssue, CheckIssueView,
    FileRecordView, InspectedFile, InspectedFileView, LockListing, Transition,
};
use crate::error::ErrorView;
use crate::hooks::is_managed_script;
use crate::model::{
    AssetRecordView, AssetStatus, LastSuccessfulStep, ReviewStatus, SourceRecordView, SourceStatus,
};
use crate::order::{dedup_keeps_items, sorting_keeps_items, stable_sort};
use crate::text::{replace_first, trim};
use crate::unicode::collision_key;
use vstd::prelude::*;

verus! {

/// A canonical Asset with a portable locator and an allowed history raises no issue where its
/// status and its last successful step are the same stage: registered with registered,
/// extracted with extracted, awaiting review with drafted, processed with reviewed. With any
/// other step each of these statuses raises one issue, of its state.
pub proof fn stages_and_steps_agree(
    path: Seq<char>,
    asset: AssetRecordView,
    allowed: Seq<Transition>,
)
    requires
        is_canonical_asset(path, asset),
        is_repository_path(asset.provider.locator),
        history_allowed(asset.durable_state_history, allowed),
    ensures
        asset.asset_status == AssetStatus::Registered ==> (asset_record_issues(
            path,
            asset,
            allowed,
        ).len() == 0 <==> asset.last_successful_step == LastSuccessfulStep::Registered),
        asset.asset_status == AssetStatus::Extracted ==> (asset_record_issues(
            path,
            asset,
            allowed,
        ).len() == 0 <==> asset.last_successful_step == LastSuccessfulStep::Extracted),
        asset.asset_status == AssetStatus::ReviewPending ==> (asset_record_issues(
            path,
            asset,
            allowed,
        ).len() == 0 <==> asset.last_successful_step == LastSuccessfulStep::Drafted),
        asset.asset_status == AssetStatus::Processed ==> (asset_record_issues(
            path,
            asset,
            allowed,
        ).len() == 0 <==> asset.last_successful_step == LastSuccessfulStep::Reviewed),
        asset_record_issues(path, asset, allowed).len() <= 1,
        forall|i: int|
            0 <= i < asset_record_issues(path, asset, allowed).len() ==> (
            #[trigger] asset_record_issues(path, asset, allowed)[i]).code
                == "invalid_state_transition"@,
{
}

/// A state that is recovered from asks for a checkpoint in the history, whatever step was
/// the last to succeed.
pub proof fn recoverable_assets_have_a_checkpoint(
    path: Seq<char>,
    asset: AssetRecordView,
    allowed: Seq<Transition>,
)
    requires
        is_canonical_asset(path, asset),
        is_repository_path(asset.provider.locator),
        history_allowed(asset.durable_state_history, allowed),
        asset.asset_status == AssetStatus::Changed || asset.asset_status == AssetStatus::Missing
            || asset.asset_status == AssetStatus::Failed,
    ensures
        asset_record_issues(path, asset, allowed).len() == 0 <==> asset.durable_state_history.len()
            > 0,
        asset.durable_state_history.len() == 0 ==> asset_record_issues(path, asset, allowed).len()
            == 1 && asset_record_issues(path, asset, allowed)[0].code
            == "invalid_state_transition"@,
{
}

/// An Asset that is not canonical, or else whose locator is not portable, is always reported.
#[verifier::rlimit(60)]
pub proof fn broken_assets_are_reported(
    path: Seq<char>,
    asset: AssetRecordView,
    allowed: Seq<Transition>,
)
    ensures
        !is_canonical_asset(path, asset) ==> asset_record_issues(path, asset, allowed).len() > 0
            && asset_record_issues(path, asset, allowed)[0].code == "registry_invalid"@,
        is_canonical_asset(path, asset) && !is_repository_path(asset.provider.locator)
            ==> asset_record_issues(path, asset, allowed).len() > 0 && asset_record_issues(
            path,
            asset,
            allowed,
        )[0].code == "path_not_portable"@,
{
    let recoverable = asset.asset_status == AssetStatus::Changed || asset.asset_status
        == AssetStatus::Missing || asset.asset_status == AssetStatus::Failed;
    first_of_five(
        crate::check::when(
            !is_canonical_asset(path, asset),
            plain_issue(
                "registry_invalid"@,
                path,
                "Asset identity, Scope, schema, path, or fingerprint is not canonical"@,
            ),
        ),
        crate::check::when(
            !is_repository_path(asset.provider.locator),
            plain_issue(
                "path_not_portable"@,
                path,
                "Provider locator must be a portable relative path"@,
            ),
        ),
        crate::check::when(
            recoverable && asset.durable_state_history.len() == 0,
            plain_issue(
                "invalid_state_transition"@,
                path,
                "recoverable Asset state has no durable checkpoint"@,
            ),
        ),
        crate::check::when(
            !history_allowed(asset.durable_state_history, allowed),
            plain_issue(
                "invalid_state_transition"@,
                path,
                "durable state history contains a forbidden transition"@,
            ),
        ),
        crate::check::when(
            !step_agrees(asset.asset_status, asset.last_successful_step),
            plain_issue(
                "invalid_state_transition"@,
                path,
                "Asset state disagrees with its last successful step"@,
            ),
        ),
    );
}

proof fn first_of_five(
    a: Seq<CheckIssueView>,
    b: Seq<CheckIssueView>,
    c: Seq<CheckIssueView>,
    d: Seq<CheckIssueView>,
    e: Seq<CheckIssueView>,
)
    ensures
        a.len() > 0 ==> (a + b + c + d + e)[0] == a[0],
        a.len() == 0 && b.len() > 0 ==> (a + b + c + d + e)[0] == b[0],
{
}

/// An Asset without an issue has made no step between two states that is not allowed.
pub proof fn forbidden_steps_are_reported(
    path: Seq<char>,
    asset: AssetRecordView,
    allowed: Seq<Transition>,
    i: int,
)
    requires
        asset_record_issues(path, asset, allowed).len() == 0,
        1 <= i < asset.durable_state_history.len(),
    ensures
        allowed.contains(
            Transition {
                from: asset.durable_state_history[i - 1],
                to: asset.durable_state_history[i],
            },
        ),
{
    assert(history_allowed(asset.durable_state_history, allowed));
    assert(asset.durable_state_history[i] == asset.durable_state_history[i]);
}

/// Every issue of an Asset record is reported under the path of the record.
pub proof fn asset_issues_name_their_record(
    path: Seq<char>,
    asset: AssetRecordView,
    allowed: Seq<Transition>,
    i: int,
)
    requires
        0 <= i < asset_record_issues(path, asset, allowed).len(),
    ensures
        asset_record_issues(path, asset, allowed)[i].path == Some(path),
{
}

/// A path that collides with the one of an earlier file is always reported, and so is every
/// rule on credentials that the content matches, and a conflict that was not resolved. A file
/// with none of these raises nothing.
pub proof fn contents_are_reported(files: Seq<InspectedFileView>, i: int)
    requires
        0 <= i < files.len(),
    ensures
        (exists|j: int|
            0 <= j < i && collision_key((#[trigger] files[j]).path) == collision_key(
                files[i].path,
            )) ==> content_issues(files, i).len() > 0 && content_issues(files, i)[0].code
            == "path_collision"@ && content_issues(files, i)[0].path == Some(files[i].path),
        forall|r: int|
            0 <= r < files[i].secret_rules.len() ==> exists|k: int|
                0 <= k < content_issues(files, i).len() && (#[trigger] content_issues(
                    files,
                    i,
                )[k]).code == "secret_detected"@ && content_issues(files, i)[k].path == Some(
                    files[i].path,
                ) && content_issues(files, i)[k].rule == Some(
                    #[trigger] files[i].secret_rules[r],
                ),
        has_conflict_lines(files[i].bytes) ==> content_issues(files, i).len() > 0
            && content_issues(files, i).last().code == "git_conflict"@ && content_issues(
            files,
            i,
        ).last().path == Some(files[i].path),
        content_issues(files, i).len() == 0 <==> files[i].secret_rules.len() == 0
            && !has_conflict_lines(files[i].bytes) && forall|j: int|
            0 <= j < i ==> collision_key((#[trigger] files[j]).path) != collision_key(
                files[i].path,
            ),
{
    collisions_are_found(files, files[i].path, i);
    let file = files[i];
    let on_path = match colliding_before(files, file.path, i) {
        Some(other) => seq![
            issue_with_action(
                "path_collision"@,
                file.path,
                "repository paths collide after case and Unicode normalization"@,
                "rename either "@ + files[other].path + " or "@ + file.path,
            ),
        ],
        None => Seq::empty(),
    };
    assert forall|r: int| 0 <= r < file.secret_rules.len() implies exists|k: int|
        0 <= k < content_issues(files, i).len() && (#[trigger] content_issues(files, i)[k]).code
            == "secret_detected"@ && content_issues(files, i)[k].path == Some(file.path)
            && content_issues(files, i)[k].rule == Some(#[trigger] file.secret_rules[r]) by {
        let k = on_path.len() + r;
        assert(content_issues(files, i)[k].rule == Some(file.secret_rules[r]));
    }
}

proof fn collisions_are_found(files: Seq<InspectedFileView>, path: Seq<char>, n: int)
    requires
        0 <= n <= files.len(),
    ensures
        colliding_before(files, path, n) is Some <==> exists|j: int|
            0 <= j < n && collision_key((#[trigger] files[j]).path) == collision_key(path),
    decreases n,
{
    if n > 0 {
        collisions_are_found(files, path, n - 1);
        if collision_key(files[n - 1].path) != collision_key(path) {
            if exists|j: int|
                0 <= j < n && collision_key((#[trigger] files[j]).path) == collision_key(path) {
                let j = choose|j: int|
                    0 <= j < n && collision_key((#[trigger] files[j]).path) == collision_key(path);
                assert(j < n - 1);
                assert(collision_key(files[j].path) == collision_key(path));
            }
        }
    }
}

proof fn file_pass_covers(
    files: Seq<InspectedFileView>,
    allowed: Seq<Transition>,
    n: int,
    i: int,
    issue: CheckIssueView,
)
    requires
        0 <= i < n,
        content_issues(files, i).contains(issue) || record_issues(files, i, allowed).contains(issue),
    ensures
        file_pass(files, allowed, n).contains(issue),
    decreases n,
{
    let front = file_pass(files, allowed, n - 1);
    let on_content = content_issues(files, n - 1);
    let on_record = record_issues(files, n - 1, allowed);
    let all = file_pass(files, allowed, n);
    if i < n - 1 {
        file_pass_covers(files, allowed, n - 1, i, issue);
        let k = choose|k: int| 0 <= k < front.len() && front[k] == issue;
        assert(all[k] == issue);
    } else if on_content.contains(issue) {
        let k = choose|k: int| 0 <= k < on_content.len() && on_content[k] == issue;
        assert(all[front.len() + k] == issue);
    } else {
        let k = choose|k: int| 0 <= k < on_record.len() && on_record[k] == issue;
        assert(all[front.len() + on_content.len() + k] == issue);
    }
}

proof fn source_pass_covers(
    repository_root: Seq<char>,
    files: Seq<InspectedFileView>,
    registry: Seq<int>,
    n: int,
    i: int,
    issue: CheckIssueView,
)
    requires
        0 <= i < n,
        source_in(files[i]) is Some,
        source_record_issues(
            repository_root,
            files[i].path,
            source_in(files[i])->0,
            files,
            registry,
        ).contains(issue) || conflict_issues(files, i).contains(issue),
    ensures
        source_pass(repository_root, files, registry, n).contains(issue),
    decreases n,
{
    let front = source_pass(repository_root, files, registry, n - 1);
    let all = source_pass(repository_root, files, registry, n);
    if i < n - 1 {
        source_pass_covers(repository_root, files, registry, n - 1, i, issue);
        let k = choose|k: int| 0 <= k < front.len() && front[k] == issue;
        assert(all[k] == issue);
    } else {
        let on_record = source_record_issues(
            repository_root,
            files[i].path,
            source_in(files[i])->0,
            files,
            registry,
        );
        let on_conflict = conflict_issues(files, i);
        if on_record.contains(issue) {
            let k = choose|k: int| 0 <= k < on_record.len() && on_record[k] == issue;
            assert(all[front.len() + k] == issue);
        } else {
            let k = choose|k: int| 0 <= k < on_conflict.len() && on_conflict[k] == issue;
            assert(all[front.len() + on_record.len() + k] == issue);
        }
    }
}

proof fn registry_passes_cover(
    repository_root: Seq<char>,
    files: Seq<InspectedFileView>,
    registry: Seq<int>,
    n: int,
    i: int,
    issue: CheckIssueView,
)
    requires
        0 <= i < n,
    ensures
        entry_issues(files, registry, i).contains(issue) ==> registry_pass(
            files,
            registry,
            n,
        ).contains(issue),
        state_issues(repository_root, files, registry, i).contains(issue) ==> state_pass(
            repository_root,
            files,
            registry,
            n,
        ).contains(issue),
    decreases n,
{
    if i < n - 1 {
        registry_passes_cover(repository_root, files, registry, n - 1, i, issue);
    }
    let entries = registry_pass(files, registry, n - 1);
    let states = state_pass(repository_root, files, registry, n - 1);
    let on_entry = entry_issues(files, registry, n - 1);
    let on_state = state_issues(repository_root, files, registry, n - 1);
    let all_entries = registry_pass(files, registry, n);
    let all_states = state_pass(repository_root, files, registry, n);
    if entries.contains(issue) {
        let k = choose|k: int| 0 <= k < entries.len() && entries[k] == issue;
        assert(all_entries[k] == issue);
    }
    if on_entry.contains(issue) {
        let k = choose|k: int| 0 <= k < on_entry.len() && on_entry[k] == issue;
        assert(all_entries[entries.len() + k] == issue);
    }
    if states.contains(issue) {
        let k = choose|k: int| 0 <= k < states.len() && states[k] == issue;
        assert(all_states[k] == issue);
    }
    if on_state.contains(issue) {
        let k = choose|k: int| 0 <= k < on_state.len() && on_state[k] == issue;
        assert(all_states[states.len() + k] == issue);
    }
}

proof fn one_of_four_holds<V>(a: Seq<V>, b: Seq<V>, c: Seq<V>, d: Seq<V>, item: V)
    ensures
        (a + b + c + d).contains(item) <==> a.contains(item) || b.contains(item) || c.contains(item)
            || d.contains(item),
{
    let all = a + b + c + d;
    if a.contains(item) {
        let k = choose|k: int| 0 <= k < a.len() && a[k] == item;
        assert(all[k] == item);
    }
    if b.contains(item) {
        let k = choose|k: int| 0 <= k < b.len() && b[k] == item;
        assert(all[a.len() + k] == item);
    }
    if c.contains(item) {
        let k = choose|k: int| 0 <= k < c.len() && c[k] == item;
        assert(all[a.len() + b.len() + k] == item);
    }
    if d.contains(item) {
        let k = choose|k: int| 0 <= k < d.len() && d[k] == item;
        assert(all[a.len() + b.len() + c.len() + k] == item);
    }
    if all.contains(item) {
        let k = choose|k: int| 0 <= k < all.len() && all[k] == item;
        if k < a.len() {
            assert(a[k] == item);
        } else if k < a.len() + b.len() {
            assert(b[k - a.len()] == item);
        } else if k < a.len() + b.len() + c.len() {
            assert(c[k - a.len() - b.len()] == item);
        } else {
            assert(d[k - a.len() - b.len() - c.len()] == item);
        }
    }
}

/// Nothing that is found is left out of a report, and nothing else is in it: an issue is
/// reported exactly where it was found while the files were collected, in the files, among
/// the locks or with the hook. The report is good exactly where it lists no issue.
pub proof fn reports_hold_what_was_found(
    repository_root: Seq<char>,
    found: Seq<InspectedFileView>,
    collected: Seq<CheckIssueView>,
    allowed: Seq<Transition>,
    locks: LockListing,
    hooks_path: Option<Seq<char>>,
    issue: CheckIssueView,
)
    ensures
        ({
            let report = report_of(repository_root, found, collected, allowed, locks, hooks_path);
            let files = stable_sort::<InspectedFile>(found);
            &&& report.issues.contains(issue) <==> collected.contains(issue) || inspection(
                repository_root,
                files,
                allowed,
            ).contains(issue) || lock_issues(locks).contains(issue) || hook_issues(
                repository_root,
                files,
                hooks_path,
            ).contains(issue)
            &&& report.result == "ok"@ <==> report.issues.len() == 0
            &&& report.result == "failed"@ <==> report.issues.len() > 0
        }),
{
    reveal_strlit("ok");
    reveal_strlit("failed");
    assert("ok"@.len() == 2 && "failed"@.len() == 6);
    let files = stable_sort::<InspectedFile>(found);
    let a = collected;
    let b = inspection(repository_root, files, allowed);
    let c = lock_issues(locks);
    let d = hook_issues(repository_root, files, hooks_path);
    one_of_four_holds(a, b, c, d, issue);
    let all = a + b + c + d;
    sorting_keeps_items::<CheckIssue>(all);
    all.to_multiset_ensures();
    stable_sort::<CheckIssue>(all).to_multiset_ensures();
    assert(stable_sort::<CheckIssue>(all).contains(issue) <==> all.contains(issue)) by {
        assert(all.contains(issue) <==> all.to_multiset().count(issue) > 0);
        assert(stable_sort::<CheckIssue>(all).contains(issue) <==> stable_sort::<CheckIssue>(
            all,
        ).to_multiset().count(issue) > 0);
    }
    dedup_keeps_items(stable_sort::<CheckIssue>(all), issue);
}

/// Every file is inspected: what the rules say of the content of any file, of the record that
/// it holds, of the Source in it, of an Asset of the registry and of its state is found.
pub proof fn every_file_is_inspected(
    repository_root: Seq<char>,
    files: Seq<InspectedFileView>,
    allowed: Seq<Transition>,
    i: int,
    k: int,
    issue: CheckIssueView,
)
    requires
        0 <= i < files.len(),
        0 <= k < registry_of(files, files.len() as int).len(),
    ensures
        ({
            let registry = registry_of(files, files.len() as int);
            let all = inspection(repository_root, files, allowed);
            &&& content_issues(files, i).contains(issue) ==> all.contains(issue)
            &&& record_issues(files, i, allowed).contains(issue) ==> all.contains(issue)
            &&& entry_issues(files, registry, k).contains(issue) ==> all.contains(issue)
            &&& source_in(files[i]) is Some && source_record_issues(
                repository_root,
                files[i].path,
                source_in(files[i])->0,
                files,
                registry,
            ).contains(issue) ==> all.contains(issue)
            &&& source_in(files[i]) is Some && conflict_issues(files, i).contains(issue)
                ==> all.contains(issue)
            &&& state_issues(repository_root, files, registry, k).contains(issue) ==> all.contains(
                issue,
            )
        }),
{
    let n = files.len() as int;
    let registry = registry_of(files, n);
    one_of_four_holds(
        file_pass(files, allowed, n),
        registry_pass(files, registry, registry.len() as int),
        source_pass(repository_root, files, registry, n),
        state_pass(repository_root, files, registry, registry.len() as int),
        issue,
    );
    if content_issues(files, i).contains(issue) || record_issues(files, i, allowed).contains(
        issue,
    ) {
        file_pass_covers(files, allowed, n, i, issue);
    }
    registry_passes_cover(repository_root, files, registry, registry.len() as int, k, issue);
    if source_in(files[i]) is Some && (source_record_issues(
        repository_root,
        files[i].path,
        source_in(files[i])->0,
        files,
        registry,
    ).contains(issue) || conflict_issues(files, i).contains(issue)) {
        source_pass_covers(repository_root, files, registry, n, i, issue);
    }
}

/// A record that could not be read is reported with its own failure, where it lies among the
/// records; elsewhere it does not matter.
pub proof fn unread_records_are_reported(
    files: Seq<InspectedFileView>,
    i: int,
    allowed: Seq<Transition>,
    failure: ErrorView,
)
    requires
        0 <= i < files.len(),
        files[i].record == (FileRecordView::Broken { failure }),
    ensures
        "assets/registry/"@.is_prefix_of(files[i].path) && ".md"@.is_suffix_of(files[i].path)
            ==> record_issues(files, i, allowed).len() == 1,
        "sources/"@.is_prefix_of(files[i].path) && ".md"@.is_suffix_of(files[i].path)
            ==> record_issues(files, i, allowed).len() == 1,
        !".md"@.is_suffix_of(files[i].path) ==> record_issues(files, i, allowed).len() == 0,
        record_issues(files, i, allowed).len() > 0 ==> record_issues(files, i, allowed)[0].code
            == failure.code && record_issues(files, i, allowed)[0].message == failure.message
            && record_issues(files, i, allowed)[0].path == Some(files[i].path),
{
}

/// A Source whose stored revision is not the one of its content is reported, and so is an
/// approval of other content, and a status that its review does not bear out: a pending
/// Source has no review, an approved one is approved at a time and with its very content, and
/// a rejected one is rejected at a time and approves nothing.
pub proof fn reviews_are_held_to_the_content(
    path: Seq<char>,
    source: SourceRecordView,
    actual: Seq<char>,
)
    ensures
        source.status == SourceStatus::ReviewPending ==> (review_issues(path, source, actual).len()
            == 0 <==> source.content_revision == actual && source.review.status
            == ReviewStatus::Pending && source.review.approved_revision is None
            && source.review.reviewed_at is None),
        source.status == SourceStatus::Approved ==> (review_issues(path, source, actual).len() == 0
            <==> source.content_revision == actual && source.review.status
            == ReviewStatus::Approved && source.review.approved_revision == Some(actual)
            && source.review.reviewed_at is Some),
        source.status == SourceStatus::Rejected ==> (review_issues(path, source, actual).len() == 0
            <==> source.content_revision == actual && source.review.status
            == ReviewStatus::Rejected && source.review.approved_revision is None
            && source.review.reviewed_at is Some),
        source.content_revision != actual ==> review_issues(path, source, actual)[0].code
            == "revision_mismatch"@,
        source.content_revision == actual && source.review.status == ReviewStatus::Approved
            && source.review.approved_revision != Some(actual) ==> review_issues(
            path,
            source,
            actual,
        )[0].code == "approval_stale"@,
{
}

/// A Source relates to an Asset of the registry: an absent one is reported, and so is one
/// whose ID or fingerprint the Source does not carry. A pending Source goes with an Asset that
/// awaits review, and an approved one with a processed Asset.
pub proof fn sources_agree_with_their_asset(
    repository_root: Seq<char>,
    path: Seq<char>,
    source: SourceRecordView,
    files: Seq<InspectedFileView>,
    registry: Seq<int>,
    at: int,
)
    requires
        source.relations.asset_ids.len() > 0,
        registered_at(files, registry, source.relations.asset_ids[0]) == Some(at),
    ensures
        ({
            let asset = asset_in(files[registry[at]])->0;
            let issues = relation_issues(repository_root, path, source, files, registry);
            let linked = source.id == replace_first(asset.id, "asset"@, "source"@)
                && source.generation.asset_fingerprint == asset.fingerprint.value;
            &&& !linked ==> issues.len() > 0 && issues[0].code == "relation_mismatch"@
            &&& linked && source.status == SourceStatus::ReviewPending ==> (issues.len() == 0
                <==> asset.asset_status == AssetStatus::ReviewPending)
            &&& linked && source.status == SourceStatus::Approved ==> (issues.len() == 0
                <==> asset.asset_status == AssetStatus::Processed)
            &&& linked && issues.len() > 0 ==> issues[0].code == "source_state_mismatch"@
        }),
{
}

/// A Source that relates to an Asset that is not registered is reported.
pub proof fn unregistered_assets_are_reported(
    repository_root: Seq<char>,
    path: Seq<char>,
    source: SourceRecordView,
    files: Seq<InspectedFileView>,
    registry: Seq<int>,
)
    requires
        source.relations.asset_ids.len() > 0,
        registered_at(files, registry, source.relations.asset_ids[0]) is None,
    ensures
        relation_issues(repository_root, path, source, files, registry).len() == 1,
        relation_issues(repository_root, path, source, files, registry)[0].code
            == "relation_missing"@,
{
}

proof fn registered_entries_are_found(
    files: Seq<InspectedFileView>,
    registry: Seq<int>,
    id: Seq<char>,
)
    ensures
        registered_at(files, registry, id) is Some <==> exists|k: int|
            0 <= k < registry.len() && asset_id_in(files[#[trigger] registry[k]]) == id,
        registered_at(files, registry, id) matches Some(at) ==> 0 <= at < registry.len()
            && asset_id_in(files[registry[at]]) == id,
    decreases registry.len(),
{
    if registry.len() > 0 {
        let front = registry.drop_last();
        registered_entries_are_found(files, front, id);
        assert(registry.last() == registry[registry.len() - 1]);
        if registered_at(files, front, id) is Some {
            let k = registered_at(files, front, id)->0;
            assert(registry[k] == front[k]);
        }
        if asset_id_in(files[registry.last()]) != id && exists|k: int|
            0 <= k < registry.len() && asset_id_in(files[#[trigger] registry[k]]) == id {
            let k = choose|k: int|
                0 <= k < registry.len() && asset_id_in(files[#[trigger] registry[k]]) == id;
            assert(front[k] == registry[k]);
        }
    }
}

/// An Asset is registered exactly where some record of the registry has its ID; what it
/// supersedes must be registered, and no other Asset before it may have its fingerprint.
pub proof fn registry_entries_are_checked(
    files: Seq<InspectedFileView>,
    registry: Seq<int>,
    k: int,
)
    requires
        0 <= k < registry.len(),
    ensures
        ({
            let asset = asset_in(files[registry[k]])->0;
            let issues = entry_issues(files, registry, k);
            let repeated = exists|j: int|
                0 <= j < k && asset_in(files[#[trigger] registry[j]])->0.fingerprint.value
                    == asset.fingerprint.value && asset_in(files[registry[j]])->0.id != asset.id;
            let orphan = asset.supersedes is Some && forall|j: int|
                0 <= j < registry.len() ==> asset_in(files[#[trigger] registry[j]])->0.id
                    != asset.supersedes->0;
            &&& issues.len() == 0 <==> !repeated && !orphan
            &&& repeated ==> issues.len() > 0 && issues[0].code == "duplicate_conflict"@
            &&& !repeated && orphan ==> issues.len() > 0 && issues[0].code == "relation_missing"@
        }),
{
    let asset = asset_in(files[registry[k]])->0;
    if asset.supersedes is Some {
        registered_entries_are_found(files, registry, asset.supersedes->0);
    }
}

/// An Asset that awaits review needs its pending draft, with the content that it was drafted
/// with, and a processed one its approved Source, approved with the content that it has. A
/// changed Asset with a successor is to be repaired.
pub proof fn states_are_borne_out(
    repository_root: Seq<char>,
    files: Seq<InspectedFileView>,
    registry: Seq<int>,
    k: int,
)
    requires
        0 <= k < registry.len(),
    ensures
        ({
            let asset = asset_in(files[registry[k]])->0;
            let issues = state_issues(repository_root, files, registry, k);
            let related = source_related(files, asset.id, 0);
            &&& asset.asset_status == AssetStatus::ReviewPending ==> (issues.len() == 0 <==> {
                &&& related is Some
                &&& related->0.source.status == SourceStatus::ReviewPending
                &&& related->0.source.review.status == ReviewStatus::Pending
                &&& related->0.revision == Ok::<Seq<char>, ErrorView>(
                    related->0.source.content_revision,
                )
            })
            &&& asset.asset_status == AssetStatus::Processed && related is Some
                && related->0.revision is Ok ==> (issues.len() == 0 <==> {
                &&& related->0.source.status == SourceStatus::Approved
                &&& related->0.source.review.status == ReviewStatus::Approved
                &&& related->0.source.review.approved_revision == Some(related->0.revision->Ok_0)
            })
            &&& asset.asset_status == AssetStatus::Processed && related is None ==> issues.len() > 0
            &&& asset.asset_status == AssetStatus::Changed ==> (issues.len() == 0 <==> forall|j: int|
                0 <= j < registry.len() ==> asset_in(files[#[trigger] registry[j]])->0.supersedes
                    != Some(asset.id))
            &&& asset.asset_status == AssetStatus::Registered || asset.asset_status
                == AssetStatus::Extracted ==> issues.len() == 0
        }),
{
}

proof fn earlier_sources_are_found(files: Seq<InspectedFileView>, asset_id: Seq<char>, n: int)
    requires
        0 <= n <= files.len(),
    ensures
        source_before(files, asset_id, n) is Some <==> exists|j: int|
            0 <= j < n && #[trigger] relates_first(files[j], asset_id),
    decreases n,
{
    if n > 0 {
        earlier_sources_are_found(files, asset_id, n - 1);
        if source_before(files, asset_id, n - 1) is Some {
            let j = choose|j: int| 0 <= j < n - 1 && #[trigger] relates_first(files[j], asset_id);
            assert(relates_first(files[j], asset_id));
        }
    }
}

/// Of two Sources that relate to the same Asset the later is reported.
pub proof fn rival_sources_are_reported(files: Seq<InspectedFileView>, j: int, i: int)
    requires
        0 <= j < i < files.len(),
        source_in(files[i]) is Some,
        source_in(files[j]) is Some,
        source_in(files[i])->0.source.relations.asset_ids.len() > 0,
        source_in(files[j])->0.source.relations.asset_ids.len() > 0,
        source_in(files[j])->0.source.relations.asset_ids[0]
            == source_in(files[i])->0.source.relations.asset_ids[0],
    ensures
        conflict_issues(files, i).len() == 1,
        conflict_issues(files, i)[0].code == "relation_conflict"@,
        conflict_issues(files, i)[0].path == Some(files[i].path),
{
    let id = source_in(files[i])->0.source.relations.asset_ids[0];
    assert(relates_first(files[j], id));
    earlier_sources_are_found(files, id, i);
}

/// A lock that lies among the locks is reported, and nothing else there is.
pub proof fn locks_are_reported(names: Vec<String>, k: int)
    requires
        0 <= k < names.deep_view().len(),
    ensures
        ({
            let name = names.deep_view()[k];
            let issues = lock_issues(LockListing::Listed { names });
            &&& ".lock"@.is_suffix_of(name) || ".lock.takeover"@.is_suffix_of(name) ==> exists|i: int|
                0 <= i < issues.len() && (#[trigger] issues[i]).code == "lock_held"@
                    && issues[i].path == Some(".knowledge-os/runtime/locks/"@ + name)
            &&& issues.len() <= names.deep_view().len()
        }),
        lock_issues(LockListing::Absent).len() == 0,
        lock_issues(LockListing::NotDirectory).len() == 1,
        lock_issues(LockListing::NotDirectory)[0].code == "runtime_path_invalid"@,
{
    let all = names.deep_view();
    let wanted = |name: Seq<char>| is_lock_name(name);
    let kept = all.filter(wanted);
    all.lemma_filter_len(wanted);
    if is_lock_name(all[k]) {
        assert(all.contains(all[k]));
        all.lemma_filter_contains(wanted, k);
        let i = choose|i: int| 0 <= i < kept.len() && kept[i] == all[k];
        let issues = lock_issues(LockListing::Listed { names });
        assert(issues[i] == lock_issue(kept[i]));
    }
}

/// A repository has its hook in order exactly where the managed script is at its place and
/// Git is told to look there.
pub proof fn hooks_are_reported(
    repository_root: Seq<char>,
    files: Seq<InspectedFileView>,
    configured: Option<Seq<char>>,
)
    ensures
        ({
            let issues = hook_issues(repository_root, files, configured);
            let managed = hook_in(files, 0) is Some && is_managed_script(hook_in(files, 0)->0);
            let told = configured is Some && trim(configured->0) == ".githooks"@;
            &&& issues.len() == 0 <==> managed && told
            &&& !managed ==> issues.len() > 0 && issues[0].code == "hook_missing"@
            &&& managed && !told ==> issues.len() == 1 && issues[0].code == "hook_not_configured"@
        }),
        hook_in(files, 0) is None ==> forall|i: int|
            0 <= i < files.len() ==> (#[trigger] files[i]).path != ".githooks/pre-commit"@,
        hook_in(files, 0) matches Some(content) ==> exists|i: int|
            0 <= i < files.len() && (#[trigger] files[i]).path == ".githooks/pre-commit"@
                && files[i].bytes == content,
{
    hooks_are_found(files, 0);
}

proof fn hooks_are_found(files: Seq<InspectedFileView>, from: int)
    requires
        0 <= from <= files.len(),
    ensures
        hook_in(files, from) is None ==> forall|i: int|
            from <= i < files.len() ==> (#[trigger] files[i]).path != ".githooks/pre-commit"@,
        hook_in(files, from) matches Some(content) ==> exists|i: int|
            from <= i < files.len() && (#[trigger] files[i]).path == ".githooks/pre-commit"@
                && files[i].bytes == content,
    decreases files.len() - from,
{
    if from < files.len() && files[from].path != ".githooks/pre-commit"@ {
        hooks_are_found(files, from + 1);
    }
}

} // verus!

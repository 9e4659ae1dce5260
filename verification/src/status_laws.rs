//! What the overviews promise: which checks a diagnosis makes and what it asks for, what the
//! home page counts, when a hook is ours, and how a capture is routed.

use crate::asset_v2::InboxAssetInspectionV2View;
use crate::atomic::AtomicWriteResult;
use crate::attempt_v2::{
    latest_attempt, reason_of, the_latest_attempt_is_latest, PreparationAttemptV2View,
    StuckReasonV2,
};
use crate::capture_v1::{
    envelope_check, input_check, is_capture_id, is_lower_identifier, is_opaque_reference,
    is_youtube_video_id, proposal_check, route, CaptureEnvelopeV1, CaptureInputV1,
    ClassifierProposalV1, RouteOutcomeKindV1, RouteRejectionReasonV1, RoutingAuthorityV1,
    RoutingNextActionV1, SubjectScopeV1,
};
use crate::dashboard_v2::{
    dashboard_files, dashboard_of, drift_check, first_failure, is_created, DashboardOutcomeV2,
    ExistingDashboardFile,
};
use crate::doctor::{
    accessed_state, action_for, context_finding, diagnosis, entries_finding, entry_finding,
    entry_findings, found_locks, hook_finding, hook_outcome, identity_finding, is_personal_inbox,
    issue_rank, lock_finding, lock_findings, place_in, primary_at, primary_is_most_urgent,
    profile_finding, provider_findings, read_finding, report_on, urgency, walked_entry,
    walked_issue, write_finding, DoctorCheckView, MachineObservation, ProfileReading,
    ProviderAccessInspection, ProviderDirectory, ProviderEntryInspection,
    ProviderEntryInspectionView, ProviderEntryState, ProviderObservation, SelectedContext,
    WalkIssueView,
};
use crate::error::{ErrorView, MkoError};
use crate::home::{
    current_home, next_step, stuck_material, stuck_reason, title_of, HomeNextAction,
    HomeQueueSummaryView, HomeReport, KnownTitleView, LegacyHomeReport, StuckMaterialV2View,
    V3HomeReport,
};
use crate::hooks::{
    hook_state, install_plan, is_managed_script, HookDirectory, HookFile, HookInstallPlan,
    HookState,
};
use crate::json_v1::{DoctorCheckStatus, NextAction, RecoveryKind};
use crate::local_path::{joined_path, LocalPathView};
use crate::lock::{LockInspectionView, LockState};
use crate::order::{sorting_keeps_items, stable_sort};
use vstd::prelude::*;
use vstd::utf8::encode_utf8;

verus! {

/// A diagnosis is healthy exactly where every check is, and lists every check. It asks for
/// nothing where it is healthy, and otherwise for the step against the most urgent finding.
pub proof fn reports_tell_every_check(checks: Seq<DoctorCheckView>)
    ensures
        report_on(checks).checks == checks,
        report_on(checks).healthy <==> forall|i: int|
            0 <= i < checks.len() ==> (#[trigger] checks[i]).status == DoctorCheckStatus::Healthy,
        report_on(checks).healthy ==> report_on(checks).next_action == NextAction::Nothing,
        !report_on(checks).healthy ==> exists|i: int|
            {
                &&& 0 <= i < checks.len()
                &&& (#[trigger] checks[i]).status != DoctorCheckStatus::Healthy
                &&& report_on(checks).next_action == action_for(checks[i].code)
                &&& forall|k: int|
                    0 <= k < checks.len() && (#[trigger] checks[k]).status
                        != DoctorCheckStatus::Healthy ==> issue_rank(checks[i].code) <= issue_rank(
                        checks[k].code,
                    )
            },
{
    primary_is_most_urgent(checks, checks.len() as int);
    if !report_on(checks).healthy {
        let i = primary_at(checks, checks.len() as int)->0;
        assert(checks[i].status != DoctorCheckStatus::Healthy);
    }
}

/// What is most urgent comes first in this list: the profile, the repository, the inbox, its
/// files, the hook and the locks.
pub proof fn findings_are_ranked()
    ensures
        urgency().len() == 19,
        urgency()[0] == "profile_missing"@,
        urgency()[1] == "profile_unreadable"@,
        urgency()[2] == "repository_incompatible"@,
        urgency()[3] == "provider_root_invalid"@,
        urgency()[4] == "provider_missing"@,
        urgency()[5] == "provider_unreadable"@,
        urgency()[6] == "provider_read_inspection_failed"@,
        urgency()[7] == "provider_unwritable"@,
        urgency()[8] == "provider_write_inspection_failed"@,
        urgency()[9] == "provider_pdf_unreadable"@,
        urgency()[10] == "provider_pdf_corrupt"@,
        urgency()[11] == "provider_inspection_failed"@,
        urgency()[12] == "provider_hydration_failed"@,
        urgency()[13] == "hook_conflict"@,
        urgency()[14] == "hook_missing"@,
        urgency()[15] == "hook_unreadable"@,
        urgency()[16] == "stale_lock"@,
        urgency()[17] == "lock_unreadable"@,
        urgency()[18] == "lock_active"@,
{
}

/// The rank of a finding is its first place in the list of what is urgent, and what is not in
/// the list ranks last.
pub proof fn ranks_are_places(list: Seq<Seq<char>>, text: Seq<char>, from: int)
    requires
        0 <= from <= list.len(),
    ensures
        from <= place_in(list, text, from) <= list.len(),
        place_in(list, text, from) < list.len() ==> list[place_in(list, text, from)] == text,
        forall|i: int| from <= i < place_in(list, text, from) ==> #[trigger] list[i] != text,
    decreases list.len() - from,
{
    if from < list.len() && list[from] != text {
        ranks_are_places(list, text, from + 1);
    }
}

/// A finding about the setup asks for configuring, a placeholder for hydrating, an active lock
/// for trying again, and any other for repairing.
pub proof fn findings_ask_for_their_step()
    ensures
        action_for("profile_missing"@) == NextAction::Configure,
        action_for("profile_unreadable"@) == NextAction::Configure,
        action_for("repository_incompatible"@) == NextAction::Configure,
        action_for("provider_root_invalid"@) == NextAction::Configure,
        action_for("provider_missing"@) == NextAction::Configure,
        action_for("provider_hydration_failed"@) == NextAction::Hydrate,
        action_for("lock_active"@) == NextAction::Retry,
        action_for("stale_lock"@) == NextAction::Repair,
        action_for("hook_missing"@) == NextAction::Repair,
{
    reveal_strlit("profile_missing");
    reveal_strlit("profile_unreadable");
    reveal_strlit("repository_incompatible");
    reveal_strlit("provider_root_invalid");
    reveal_strlit("provider_missing");
    reveal_strlit("provider_hydration_failed");
    reveal_strlit("lock_active");
    reveal_strlit("stale_lock");
    reveal_strlit("hook_missing");
    assert("stale_lock"@[0] == 's' && "hook_missing"@[0] == 'h' && "lock_active"@[0] == 'l');
    assert("profile_missing"@[0] == 'p' && "repository_incompatible"@[0] == 'r');
    assert("provider_hydration_failed"@.len() == 25);
    assert("profile_missing"@.len() == 15 && "profile_unreadable"@.len() == 18);
    assert("provider_root_invalid"@.len() == 21 && "provider_missing"@.len() == 16);
    assert("provider_root_invalid"@[0] == 'p' && "provider_missing"@[0] == 'p');
    assert("profile_unreadable"@[0] == 'p' && "provider_hydration_failed"@[0] == 'p');
}

/// A finding on the setup is healthy exactly where all is well: the profile is valid, the
/// inbox is the personal one and a real directory, it can be read and written, and the hook is
/// ours. A lock is never healthy.
pub proof fn only_good_findings_are_healthy(
    profile: ProfileReading,
    provider: LocalPathView,
    directory: ProviderDirectory,
    access: ProviderAccessInspection,
    repository: Seq<char>,
    hook: Result<HookState, Seq<char>>,
    lock: LockInspectionView,
)
    ensures
        profile_finding(profile).status == DoctorCheckStatus::Healthy <==> profile is Valid,
        profile is Missing ==> profile_finding(profile).code == "profile_missing"@,
        profile is Unreadable ==> profile_finding(profile).code == "profile_unreadable"@,
        identity_finding(provider, directory).status == DoctorCheckStatus::Healthy
            <==> provider.is_absolute && is_personal_inbox(provider) && directory
            == ProviderDirectory::Real,
        provider.is_absolute && is_personal_inbox(provider) && directory
            == ProviderDirectory::Absent ==> identity_finding(provider, directory).code
            == "provider_missing"@,
        read_finding(provider.text, access).status == DoctorCheckStatus::Healthy <==> access
            is Allowed,
        access is Denied ==> read_finding(provider.text, access).code == "provider_unreadable"@,
        write_finding(provider.text, access).status == DoctorCheckStatus::Healthy <==> access
            is Allowed,
        access is Denied ==> write_finding(provider.text, access).code == "provider_unwritable"@,
        hook_finding(repository, hook).status == DoctorCheckStatus::Healthy <==> hook == Ok::<
            HookState,
            Seq<char>,
        >(HookState::Managed),
        hook == Ok::<HookState, Seq<char>>(HookState::Missing) ==> hook_finding(
            repository,
            hook,
        ).code == "hook_missing"@,
        hook == Err::<HookState, Seq<char>>("hook_conflict"@) ==> hook_finding(
            repository,
            hook,
        ).code == "hook_conflict"@ && hook_finding(repository, hook).recovery == Some(
            RecoveryKind::ResolveHookConflict,
        ),
        lock_finding(lock).status == DoctorCheckStatus::Warning,
        lock_finding(lock).path == Some(lock.path.text),
        lock.state == LockState::Active ==> lock_finding(lock).code == "lock_active"@
            && lock_finding(lock).recovery == Some(RecoveryKind::Retry),
        lock.state == LockState::Stale ==> lock_finding(lock).code == "stale_lock"@,
        lock.state == LockState::Unreadable ==> lock_finding(lock).code == "lock_unreadable"@,
{
}

/// Every lock that stands is told, and where none does that is told.
pub proof fn every_lock_is_told(
    repository: Seq<char>,
    locks: Seq<LockInspectionView>,
    k: int,
)
    requires
        0 <= k < locks.len(),
    ensures
        lock_findings(repository, Ok(locks)).len() == locks.len(),
        lock_findings(repository, Ok(locks))[k] == lock_finding(locks[k]),
        lock_findings(repository, Ok(Seq::empty()))[0].code == "locks_clear"@,
        lock_findings(repository, Ok(Seq::empty()))[0].status == DoctorCheckStatus::Healthy,
        lock_findings(repository, Err(()))[0].status == DoctorCheckStatus::Warning,
{
}

/// A PDF is told of by the state that it is in: a placeholder, a broken one, one that cannot
/// be read and one of which nothing is known are blocked, each under its own path, and a PDF
/// that is there is not mentioned.
pub proof fn entries_are_told_by_their_state(entry: ProviderEntryInspectionView)
    ensures
        entry_finding(entry) is None <==> entry.state == ProviderEntryState::Hydrated
            || entry.state == ProviderEntryState::Unsupported,
        entry_finding(entry) matches Some(check) ==> {
            &&& check.status == DoctorCheckStatus::Blocked
            &&& check.path == Some(entry.path.text)
            &&& entry.state == ProviderEntryState::NotHydrated ==> check.code
                == "provider_hydration_failed"@ && check.recovery == Some(RecoveryKind::Hydrate)
            &&& entry.state == ProviderEntryState::Corrupt ==> check.code
                == "provider_pdf_corrupt"@ && check.recovery == Some(RecoveryKind::Repair)
            &&& entry.state == ProviderEntryState::Unreadable ==> check.code
                == "provider_pdf_unreadable"@ && check.recovery == Some(
                RecoveryKind::FixPermissions,
            )
            &&& entry.state == ProviderEntryState::Unknown ==> check.code
                == "provider_inspection_failed"@ && check.recovery == Some(RecoveryKind::Repair)
        },
{
}

proof fn blocked_entries_are_found(entries: Seq<ProviderEntryInspectionView>, k: int)
    requires
        0 <= k < entries.len(),
        entry_finding(entries[k]) is Some,
    ensures
        entry_findings(entries).contains(entry_finding(entries[k])->0),
    decreases entries.len(),
{
    let front = entries.drop_last();
    let before = entry_findings(front);
    let all = entry_findings(entries);
    let wanted = entry_finding(entries[k])->0;
    if k < front.len() {
        assert(front[k] == entries[k]);
        blocked_entries_are_found(front, k);
        let i = choose|i: int| 0 <= i < before.len() && before[i] == wanted;
        assert(all[i] == wanted);
    } else {
        assert(all.last() == wanted);
    }
}

/// Every PDF of the inbox that is blocked is told of.
pub proof fn every_blocked_entry_is_told(
    provider: Seq<char>,
    entries: Seq<ProviderEntryInspectionView>,
    k: int,
)
    requires
        0 <= k < entries.len(),
        entry_finding(entries[k]) is Some,
    ensures
        entries_finding(provider, Ok(entries)).contains(entry_finding(entries[k])->0),
{
    let sorted = stable_sort::<ProviderEntryInspection>(entries);
    sorting_keeps_items::<ProviderEntryInspection>(entries);
    entries.to_multiset_ensures();
    sorted.to_multiset_ensures();
    assert(entries.contains(entries[k]));
    assert(entries.to_multiset().count(entries[k]) > 0);
    assert(sorted.to_multiset().count(entries[k]) > 0);
    assert(sorted.contains(entries[k]));
    let i = choose|i: int| 0 <= i < sorted.len() && sorted[i] == entries[k];
    blocked_entries_are_found(sorted, i);
}

/// An inbox that cannot be identified is not looked into; one that is is checked for reading,
/// for writing and for its files.
pub proof fn known_inboxes_are_checked(provider: LocalPathView, observed: ProviderObservation)
    ensures
        ({
            let checks = provider_findings(provider, observed);
            let identity = identity_finding(provider, observed.directory);
            &&& checks.len() > 0
            &&& checks[0] == identity
            &&& identity.status != DoctorCheckStatus::Healthy ==> checks.len() == 1
            &&& identity.status == DoctorCheckStatus::Healthy ==> checks.len() > 3 && checks[1]
                == read_finding(provider.text, observed.read) && checks[2] == write_finding(
                provider.text,
                observed.write,
            )
        }),
{
}

/// A diagnosis begins with the versions and the profile and makes every check on the context
/// that it found; the hook and the locks are checked where there is a repository.
pub proof fn diagnoses_make_every_check(product_version: Seq<char>, observed: MachineObservation)
    ensures
        ({
            let checks = diagnosis(product_version, observed);
            let context = context_finding(observed.selected);
            &&& checks.len() >= 3 + context.checks.len()
            &&& checks[0].code == "product_version"@
            &&& checks[0].message == product_version
            &&& checks[1].code == "contract_version"@
            &&& checks[2] == profile_finding(observed.profile)
            &&& forall|i: int|
                0 <= i < context.checks.len() ==> checks[3 + i] == #[trigger] context.checks[i]
            &&& context.provider matches Some(provider) ==> checks.len() > 3 + context.checks.len()
                && checks[3 + context.checks.len() as int] == identity_finding(
                provider,
                observed.provider.directory,
            )
            &&& context.repository matches Some(repository) ==> checks.contains(
                hook_finding(repository, hook_outcome(observed.hook)),
            )
            &&& context.repository is Some && found_locks(observed.locks) is Err
                ==> checks.last().code == "lock_unreadable"@
        }),
{
    let checks = diagnosis(product_version, observed);
    let context = context_finding(observed.selected);
    let on_provider = match context.provider {
        Some(provider) => provider_findings(provider, observed.provider),
        None => Seq::empty(),
    };
    if context.repository is Some {
        let hook = hook_finding(context.repository->0, hook_outcome(observed.hook));
        assert(checks[3 + context.checks.len() + on_provider.len() as int] == hook);
    }
}

/// A context that a diagnosis finds is told: a repository that fits is healthy and is looked
/// into, one that does not is blocked and is not.
pub proof fn contexts_are_told(
    repository_root: String,
    root: String,
    provider_root: crate::local_path::LocalPath,
)
    ensures
        ({
            let good = context_finding(
                SelectedContext::Profile { repository_root, inspected: Some(root), provider_root },
            );
            let bad = context_finding(
                SelectedContext::Profile { repository_root, inspected: None, provider_root },
            );
            let lone = context_finding(
                SelectedContext::Repository {
                    repository_root,
                    inspected: Some(root),
                    provider: None,
                },
            );
            &&& good.checks.len() == 1
            &&& good.checks[0].status == DoctorCheckStatus::Healthy
            &&& good.checks[0].path == Some(root@)
            &&& good.repository == Some(root@)
            &&& good.provider == Some(provider_root.deep_view())
            &&& bad.checks[0].status == DoctorCheckStatus::Blocked
            &&& bad.checks[0].code == "repository_incompatible"@
            &&& bad.repository is None
            &&& bad.provider == Some(provider_root.deep_view())
            &&& lone.checks.len() == 2
            &&& lone.checks[1].code == "provider_missing"@
            &&& lone.repository == Some(root@)
        }),
{
}

/// A file that can be read is there, and one that cannot is blocked.
pub proof fn access_tells_the_state(detail: String)
    ensures
        accessed_state(ProviderAccessInspection::Allowed, false) == ProviderEntryState::Hydrated,
        accessed_state(ProviderAccessInspection::Allowed, true) == ProviderEntryState::Unsupported,
        accessed_state(ProviderAccessInspection::Denied, false) == ProviderEntryState::Unreadable,
        accessed_state(ProviderAccessInspection::Indeterminate(detail), false)
            == ProviderEntryState::Unknown,
{
}

/// What a walk through the inbox meets is told under its path in the inbox.
pub proof fn walks_tell_the_path(
    provider: LocalPathView,
    relative: LocalPathView,
    state: ProviderEntryState,
    message: Seq<char>,
)
    ensures
        walked_entry(provider, relative, state).path == joined_path(provider, relative),
        walked_entry(provider, relative, state).state == state,
        walked_issue(provider, WalkIssueView { relative_path: Some(relative), message }).path
            == joined_path(provider, relative),
        walked_issue(provider, WalkIssueView { relative_path: None, message }).path == provider,
        walked_issue(provider, WalkIssueView { relative_path: None, message }).detail == Some(
            message,
        ),
        walked_issue(provider, WalkIssueView { relative_path: None, message }).state
            == ProviderEntryState::Unknown,
{
}

/// The hook is ours exactly where Git looks for it in the managed directory and the managed
/// script stands there, executable. Another directory, or another script, is a conflict.
pub proof fn hooks_are_ours_only_when_managed(
    configured: Option<Seq<char>>,
    directory: HookDirectory,
    file: HookFile,
)
    ensures
        hook_state(configured, directory, file) == Ok::<HookState, ErrorView>(HookState::Managed)
            <==> configured == Some(".githooks"@) && directory is Real && (file matches
            HookFile::Regular { content, executable } && executable && is_managed_script(
            content@,
        )),
        configured is Some && configured->0 != ".githooks"@ ==> hook_state(
            configured,
            directory,
            file,
        ) is Err && hook_state(configured, directory, file)->Err_0.code == "hook_conflict"@,
        configured is None && directory is Absent ==> hook_state(configured, directory, file)
            == Ok::<HookState, ErrorView>(HookState::Missing),
{
}

/// A hook is written only where none stands, and a directory is made only where there is none;
/// where the hook is ours nothing is done.
pub proof fn hooks_are_installed_where_missing(
    directory: HookDirectory,
    file: HookFile,
    state: HookState,
)
    ensures
        install_plan(HookState::Managed, directory, file) == Ok::<HookInstallPlan, ErrorView>(
            HookInstallPlan::Installed,
        ),
        install_plan(state, directory, file) matches Ok(
            HookInstallPlan::Install { create_directory, write_hook },
        ) ==> (write_hook <==> file is Absent) && (create_directory <==> directory is Absent) && (
        file matches HookFile::Regular { content, .. } ==> is_managed_script(content@)),
        install_plan(HookState::Missing, HookDirectory::Absent, HookFile::Absent) == Ok::<
            HookInstallPlan,
            ErrorView,
        >(HookInstallPlan::Install { create_directory: true, write_hook: true }),
        install_plan(HookState::Missing, HookDirectory::Real, HookFile::Absent) == Ok::<
            HookInstallPlan,
            ErrorView,
        >(HookInstallPlan::Install { create_directory: false, write_hook: true }),
{
}

/// What a person is to do next: repair what is blocked before anything else, then review, then
/// add what is new or in progress; nothing where nothing is left.
pub proof fn the_next_step_is_the_most_urgent(legacy: LegacyHomeReport, current: V3HomeReport)
    ensures
        legacy.blocked > 0 ==> next_step(HomeReport::Legacy(legacy)) == HomeNextAction::Repair,
        legacy.blocked == 0 && legacy.review_pending > 0 ==> next_step(HomeReport::Legacy(legacy))
            == HomeNextAction::Review,
        legacy.blocked == 0 && legacy.review_pending == 0 ==> (next_step(
            HomeReport::Legacy(legacy),
        ) == HomeNextAction::Add <==> legacy.new_material > 0 || legacy.registered > 0
            || legacy.incomplete > 0),
        next_step(HomeReport::Legacy(legacy)) == HomeNextAction::Nothing <==> legacy.blocked == 0
            && legacy.review_pending == 0 && legacy.new_material == 0 && legacy.registered == 0
            && legacy.incomplete == 0,
        current.blocked > 0 ==> next_step(HomeReport::V3(current)) == HomeNextAction::Repair,
        current.blocked == 0 && (current.review_pending > 0 || current.changes_requested > 0)
            ==> next_step(HomeReport::V3(current)) == HomeNextAction::Review,
        current.blocked == 0 && current.review_pending == 0 && current.changes_requested == 0 ==> (
        next_step(HomeReport::V3(current)) == HomeNextAction::Add <==> current.new_material > 0
            || current.in_progress > 0),
        next_step(HomeReport::V3(current)) == HomeNextAction::Nothing <==> current.blocked == 0
            && current.review_pending == 0 && current.changes_requested == 0
            && current.new_material == 0 && current.in_progress == 0,
{
}

proof fn titles_are_found(titles: Seq<KnownTitleView>, asset_id: Seq<char>, from: int, k: int)
    requires
        0 <= from <= k < titles.len(),
        titles[k].asset_id == asset_id,
        forall|j: int| from <= j < k ==> (#[trigger] titles[j]).asset_id != asset_id,
    ensures
        title_of(titles, asset_id, from) == titles[k].title,
    decreases k - from,
{
    if from < k {
        assert(titles[from].asset_id != asset_id);
        titles_are_found(titles, asset_id, from + 1, k);
    }
}

proof fn unrecorded_material_is_stuck(
    asset_ids: Seq<Seq<char>>,
    recorded: Seq<Seq<char>>,
    attempts: Option<Seq<PreparationAttemptV2View>>,
    titles: Seq<KnownTitleView>,
    n: int,
)
    requires
        0 <= n <= asset_ids.len(),
    ensures
        forall|i: int|
            0 <= i < n && !recorded.contains(#[trigger] asset_ids[i]) ==> stuck_material(
                asset_ids,
                recorded,
                attempts,
                titles,
                n,
            ).contains(
                StuckMaterialV2View {
                    asset_id: asset_ids[i],
                    title: title_of(titles, asset_ids[i], 0),
                    reason: stuck_reason(attempts, asset_ids[i]),
                },
            ),
        forall|k: int|
            0 <= k < stuck_material(asset_ids, recorded, attempts, titles, n).len()
                ==> !recorded.contains(
                (#[trigger] stuck_material(asset_ids, recorded, attempts, titles, n)[k]).asset_id,
            ) && asset_ids.contains(
                stuck_material(asset_ids, recorded, attempts, titles, n)[k].asset_id,
            ),
        stuck_material(asset_ids, recorded, attempts, titles, n).len() <= n,
    decreases n,
{
    if n > 0 {
        unrecorded_material_is_stuck(asset_ids, recorded, attempts, titles, n - 1);
        let before = stuck_material(asset_ids, recorded, attempts, titles, n - 1);
        let all = stuck_material(asset_ids, recorded, attempts, titles, n);
        assert forall|i: int| 0 <= i < n && !recorded.contains(
            #[trigger] asset_ids[i],
        ) implies all.contains(
            StuckMaterialV2View {
                asset_id: asset_ids[i],
                title: title_of(titles, asset_ids[i], 0),
                reason: stuck_reason(attempts, asset_ids[i]),
            },
        ) by {
            let wanted = StuckMaterialV2View {
                asset_id: asset_ids[i],
                title: title_of(titles, asset_ids[i], 0),
                reason: stuck_reason(attempts, asset_ids[i]),
            };
            if i < n - 1 {
                assert(before.contains(wanted));
                let k = choose|k: int| 0 <= k < before.len() && before[k] == wanted;
                assert(all[k] == wanted);
            } else {
                assert(all.last() == wanted);
            }
        }
        assert forall|k: int| 0 <= k < all.len() implies !recorded.contains(
            (#[trigger] all[k]).asset_id,
        ) && asset_ids.contains(all[k].asset_id) by {
            if k < before.len() {
                assert(all[k] == before[k]);
            } else {
                assert(asset_ids[n - 1] == all[k].asset_id);
            }
        }
    }
}

/// The home page shows every registered Asset that has no record yet as in progress, and no
/// other, and passes on what the inbox and the queue count.
pub proof fn homes_show_what_is_in_progress(
    inbox: InboxAssetInspectionV2View,
    queue: HomeQueueSummaryView,
    attempts: Option<Seq<PreparationAttemptV2View>>,
    titles: Seq<KnownTitleView>,
    i: int,
)
    requires
        0 <= i < inbox.registered_asset_ids.len() <= u64::MAX,
    ensures
        ({
            let home = current_home(inbox, queue, attempts, titles);
            let id = inbox.registered_asset_ids[i];
            &&& !queue.recorded_asset_ids.contains(id) ==> exists|k: int|
                0 <= k < home.stuck.len() && (#[trigger] home.stuck[k]).asset_id == id
                    && home.stuck[k].title == title_of(titles, id, 0) && home.stuck[k].reason
                    == stuck_reason(attempts, id)
            &&& queue.recorded_asset_ids.contains(id) ==> forall|k: int|
                0 <= k < home.stuck.len() ==> (#[trigger] home.stuck[k]).asset_id != id
            &&& home.in_progress == home.stuck.len()
            &&& home.new_material == inbox.new_count
            &&& home.registered == inbox.registered_count
            &&& home.review_pending == queue.review_pending
            &&& home.changes_requested == queue.changes_requested
            &&& home.approved_knowledge == queue.approved_knowledge
            &&& home.scan_complete == inbox.scan_complete
            &&& inbox.blocked_count + queue.blocked <= u64::MAX ==> home.blocked
                == inbox.blocked_count + queue.blocked
        }),
{
    unrecorded_material_is_stuck(
        inbox.registered_asset_ids,
        queue.recorded_asset_ids,
        attempts,
        titles,
        inbox.registered_asset_ids.len() as int,
    );
    let home = current_home(inbox, queue, attempts, titles);
    let id = inbox.registered_asset_ids[i];
    if !queue.recorded_asset_ids.contains(id) {
        let wanted = StuckMaterialV2View {
            asset_id: id,
            title: title_of(titles, id, 0),
            reason: stuck_reason(attempts, id),
        };
        assert(home.stuck.contains(wanted));
        let k = choose|k: int| 0 <= k < home.stuck.len() && home.stuck[k] == wanted;
        assert(home.stuck[k].asset_id == id);
    }
}

/// Material is shown under the first title that is known of it, and under its ID where none
/// is.
pub proof fn known_titles_are_shown(titles: Seq<KnownTitleView>, asset_id: Seq<char>, k: int)
    requires
        0 <= k < titles.len(),
        titles[k].asset_id == asset_id,
        forall|j: int| 0 <= j < k ==> (#[trigger] titles[j]).asset_id != asset_id,
    ensures
        title_of(titles, asset_id, 0) == titles[k].title,
        title_of(Seq::empty(), asset_id, 0) == asset_id,
{
    titles_are_found(titles, asset_id, 0, k);
}

/// Why material is stuck is told by the latest attempt at it: nobody tried, its text defeated
/// the extractor, its bytes are not here, or another try may help.
pub proof fn the_latest_attempt_tells_why(
    attempts: Seq<PreparationAttemptV2View>,
    asset_id: Seq<char>,
    k: int,
)
    requires
        0 <= k < attempts.len(),
        attempts[k].asset_id == asset_id,
        forall|j: int|
            0 <= j < attempts.len() && j != k && (#[trigger] attempts[j]).asset_id == asset_id
                ==> attempts[j].observed_at.seconds < attempts[k].observed_at.seconds,
    ensures
        latest_attempt(attempts, asset_id) == Some(attempts[k]),
        attempts[k].code is None ==> stuck_reason(Some(attempts), asset_id)
            == StuckReasonV2::NotAttempted,
        attempts[k].code == Some("pdf_text_unreadable"@) ==> stuck_reason(Some(attempts), asset_id)
            == StuckReasonV2::TextUnreadable,
        stuck_reason(None, asset_id) == StuckReasonV2::NotAttempted,
{
    the_latest_attempt_is_latest(attempts, asset_id, attempts.len() as int);
    assert(attempts[k].asset_id == asset_id);
    let at = crate::attempt_v2::latest_at(attempts, asset_id, attempts.len() as int)->0;
    if at != k {
        assert(attempts[at].asset_id == asset_id);
    }
}

/// A text that defeats the extractor needs another copy, a file that is not here needs its
/// download, and anything else may be tried again.
pub proof fn failures_tell_the_way_forward()
    ensures
        reason_of("pdf_text_unreadable"@) == StuckReasonV2::TextUnreadable,
        reason_of("hydration_confirmation_required"@) == StuckReasonV2::DownloadRequired,
        reason_of("provider_hydration_required"@) == StuckReasonV2::DownloadRequired,
        reason_of("provider_not_hydrated"@) == StuckReasonV2::DownloadRequired,
        reason_of("asset_not_hydrated"@) == StuckReasonV2::DownloadRequired,
        reason_of("lock_held"@) == StuckReasonV2::Retryable,
{
    reveal_strlit("pdf_text_unreadable");
    reveal_strlit("hydration_confirmation_required");
    reveal_strlit("provider_hydration_required");
    reveal_strlit("provider_not_hydrated");
    reveal_strlit("asset_not_hydrated");
    reveal_strlit("lock_held");
    assert("pdf_text_unreadable"@[0] == 'p' && "pdf_text_unreadable"@[1] == 'd');
    assert("provider_hydration_required"@[1] == 'r' && "provider_not_hydrated"@[1] == 'r');
    assert("hydration_confirmation_required"@[0] == 'h' && "asset_not_hydrated"@[0] == 'a');
    assert("lock_held"@[0] == 'l' && "provider_not_hydrated"@[0] == 'p');
    assert("provider_hydration_required"@[0] == 'p');
}

/// A generated file that stands is left exactly where it holds what would be written.
pub proof fn generated_files_are_compared(path: Seq<char>, expected: Seq<char>, content: Vec<u8>)
    ensures
        drift_check(path, expected, ExistingDashboardFile::Regular { content }) is Ok
            <==> content@ == encode_utf8(expected),
        drift_check(path, expected, ExistingDashboardFile::NotRegular) is Err,
        dashboard_files().len() == 3,
        dashboard_files()[0].path == "HOME.md"@,
        dashboard_files()[1].path == "views/review-queue.base"@,
        dashboard_files()[2].path == "views/knowledge-library.base"@,
{
}

proof fn failures_are_found(written: Seq<Result<AtomicWriteResult, MkoError>>)
    ensures
        first_failure(written) is None <==> forall|k: int|
            0 <= k < written.len() ==> (#[trigger] written[k]) is Ok,
    decreases written.len(),
{
    if written.len() > 0 {
        let front = written.drop_last();
        failures_are_found(front);
        if first_failure(front) is None {
            assert forall|k: int| 0 <= k < front.len() implies (#[trigger] written[k]) is Ok by {
                assert(front[k] == written[k]);
            }
        } else {
            let k = choose|k: int| 0 <= k < front.len() && !((#[trigger] front[k]) is Ok);
            assert(written[k] == front[k]);
        }
        if first_failure(front) is None && written.last() is Err {
            assert(written[written.len() - 1] is Err);
        }
    }
}

/// The dashboard is made exactly where every file was written or stood already; it counts as
/// created where any file was made, and names the three files.
pub proof fn dashboards_need_every_file(written: Seq<Result<AtomicWriteResult, MkoError>>, i: int)
    requires
        0 <= i < written.len(),
    ensures
        dashboard_of(written) is Ok <==> forall|k: int|
            0 <= k < written.len() ==> (#[trigger] written[k]) is Ok,
        dashboard_of(written) matches Ok(made) ==> made.generated_files == seq![
            "HOME.md"@,
            "views/review-queue.base"@,
            "views/knowledge-library.base"@,
        ],
        dashboard_of(written) is Ok && written[i] == Ok::<AtomicWriteResult, MkoError>(
            AtomicWriteResult::Created,
        ) ==> dashboard_of(written)->Ok_0.outcome == DashboardOutcomeV2::Created,
        dashboard_of(written) is Ok && (forall|k: int|
            0 <= k < written.len() ==> #[trigger] written[k] == Ok::<AtomicWriteResult, MkoError>(
                AtomicWriteResult::Existing,
            )) ==> dashboard_of(written)->Ok_0.outcome == DashboardOutcomeV2::Existing,
{
    failures_are_found(written);
    if written[i] == Ok::<AtomicWriteResult, MkoError>(AtomicWriteResult::Created) {
        assert(is_created(written[i]));
    }
}

/// What a person selects is where a capture goes, whatever was proposed.
pub proof fn selections_settle_the_route(
    scope: SubjectScopeV1,
    proposal: Option<ClassifierProposalV1>,
    confirmed: Option<SubjectScopeV1>,
)
    ensures
        ({
            let outcome = route(Some(scope), proposal, confirmed);
            &&& outcome.confirmed_scope == Some(scope)
            &&& outcome.routing_authority == Some(RoutingAuthorityV1::UserSelected)
            &&& scope == SubjectScopeV1::General ==> outcome.outcome
                == RouteOutcomeKindV1::ReadyGeneral
            &&& scope == SubjectScopeV1::Finance ==> outcome.outcome
                == RouteOutcomeKindV1::ReadyFinance
            &&& outcome.next_action is None
            &&& outcome.rejection_reason is None
        }),
{
}

/// A confirmation settles the route exactly where it confirms what was proposed, and the
/// proposal was neither mixed nor in conflict; otherwise it is rejected, with its reason.
pub proof fn confirmations_match_the_proposal(
    proposal: ClassifierProposalV1,
    scope: SubjectScopeV1,
)
    ensures
        ({
            let outcome = route(None, Some(proposal), Some(scope));
            let doubtful = proposal.mixed_subjects || proposal.conflicting;
            &&& !doubtful && proposal.proposed_scope == scope ==> outcome.confirmed_scope == Some(
                scope,
            ) && outcome.routing_authority == Some(RoutingAuthorityV1::UserConfirmedProposal)
            &&& doubtful ==> outcome.outcome == RouteOutcomeKindV1::Rejected
                && outcome.rejection_reason == Some(
                RouteRejectionReasonV1::ConfirmationCannotResolveMixedOrConflictingProposal,
            ) && outcome.confirmed_scope is None
            &&& !doubtful && proposal.proposed_scope != scope ==> outcome.outcome
                == RouteOutcomeKindV1::Rejected && outcome.rejection_reason == Some(
                RouteRejectionReasonV1::ConfirmationDoesNotMatchProposal,
            ) && outcome.confirmed_scope is None
        }),
        route(None, None, Some(scope)).outcome == RouteOutcomeKindV1::Rejected,
        route(None, None, Some(scope)).rejection_reason == Some(
            RouteRejectionReasonV1::ConfirmationRequiresProposal,
        ),
{
}

/// A clear and confident proposal is put to the person for confirmation, as it was proposed;
/// one that is mixed, in conflict or below 80 leaves the choice open.
pub proof fn proposals_wait_for_a_person(proposal: ClassifierProposalV1)
    ensures
        ({
            let outcome = route(None, Some(proposal), None);
            let clear = !proposal.mixed_subjects && !proposal.conflicting && proposal.confidence
                >= 80;
            &&& outcome.confirmed_scope is None
            &&& outcome.proposal == Some(proposal)
            &&& clear && proposal.proposed_scope == SubjectScopeV1::General ==> outcome.outcome
                == RouteOutcomeKindV1::GeneralConfirmationRequired && outcome.next_action == Some(
                RoutingNextActionV1::ConfirmGeneral,
            )
            &&& clear && proposal.proposed_scope == SubjectScopeV1::Finance ==> outcome.outcome
                == RouteOutcomeKindV1::FinanceConfirmationRequired && outcome.next_action == Some(
                RoutingNextActionV1::ConfirmFinance,
            )
            &&& !clear ==> outcome.outcome == RouteOutcomeKindV1::RoutingConfirmationRequired
                && outcome.next_action == Some(RoutingNextActionV1::ChooseScope)
        }),
        route(None, None, None).outcome == RouteOutcomeKindV1::RoutingConfirmationRequired,
        proposal_check(proposal) is Ok <==> proposal.confidence <= 100,
{
}

/// What is captured is within the limits: a PDF of at most 50 MiB that is not empty, a video
/// under its own address, or a text of at most 16 KiB that is not empty.
pub proof fn captured_inputs_are_bounded(
    file_id: String,
    file_unique_id: String,
    size: u64,
    mime_type: String,
    video_id: String,
    canonical_url: String,
    text: String,
)
    ensures
        input_check(
            CaptureInputV1::TelegramPdf {
                file_id,
                file_unique_id,
                declared_size_bytes: size,
                mime_type,
            },
        ) is Ok <==> is_opaque_reference(file_id@) && is_opaque_reference(file_unique_id@) && 0
            < size <= 52_428_800 && mime_type@ == "application/pdf"@,
        input_check(CaptureInputV1::Youtube { video_id, canonical_url }) is Ok
            <==> is_youtube_video_id(video_id@) && canonical_url@
            == "https://www.youtube.com/watch?v="@ + video_id@,
        input_check(CaptureInputV1::Text { text }) is Ok <==> text@.len() > 0 && encode_utf8(
            text@,
        ).len() <= 16_384,
{
}

/// An envelope is accepted only in the known version and under an ID of its own.
pub proof fn envelopes_name_their_capture(envelope: CaptureEnvelopeV1)
    requires
        envelope_check(envelope) is Ok,
    ensures
        envelope.schema_version == 1,
        is_capture_id(envelope.capture_id@),
        "cap_"@.is_prefix_of(envelope.capture_id@),
        is_lower_identifier(envelope.capture_id@.skip("cap_"@.len() as int)),
        input_check(envelope.input) is Ok,
{
}

} // verus!

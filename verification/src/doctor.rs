//! The diagnosis of a setup: the profile, the repository, the provider, the hook and the
//! locks, and what to do about the most urgent problem.

use crate::error::MkoError;
use crate::hooks::HookState;
use crate::json_v1::{DoctorCheckStatus, NextAction, RecoveryKind};
use crate::local_path::{
    ends_below_a_name, ends_in_three_names, join_path, joined_path, path_at_most, path_not_after,
    path_order_is_total, path_order_is_transitive, LocalPath, LocalPathView,
};
use crate::lock::{LockInspection, LockInspectionView, LockState};
use crate::order::{sort, stable_sort, Ranked};
use crate::text::{cat2, copy_option, same, starts_with};
use crate::version::KNOWLEDGE_CONTRACT_VERSION;
use vstd::prelude::*;

verus! {

/// What is to be diagnosed: the repository that is named, or the one of the profile.
#[derive(Clone, Debug, PartialEq, Eq)]
pub struct DoctorRequest {
    repository_root: Option<String>,
}

#[verifier::ext_equal]
pub struct DoctorRequestView {
    pub repository_root: Option<Seq<char>>,
}

impl DeepView for DoctorRequest {
    type V = DoctorRequestView;

    closed spec fn deep_view(&self) -> DoctorRequestView {
        DoctorRequestView { repository_root: self.repository_root.deep_view() }
    }
}

impl DoctorRequest {
    pub fn new() -> (request: Self)
        ensures
            request.deep_view() == (DoctorRequestView { repository_root: None }),
    {
        DoctorRequest { repository_root: None }
    }

    pub fn with_repository(self, repository_root: &str) -> (request: Self)
        ensures
            request.deep_view() == (DoctorRequestView {
                repository_root: Some(repository_root@),
            }),
    {
        DoctorRequest { repository_root: Some(repository_root.to_owned()) }
    }

    pub fn repository_root(&self) -> (path: &Option<String>)
        ensures
            path.deep_view() == self.deep_view().repository_root,
    {
        &self.repository_root
    }
}

/// Whether the current process may use a path.
#[derive(Clone, Debug, PartialEq, Eq)]
pub enum ProviderAccessInspection {
    Allowed,
    Denied,
    Indeterminate(String),
}

#[derive(Clone, Copy, Debug, PartialEq, Eq, Structural)]
pub enum ProviderEntryState {
    Hydrated,
    NotHydrated,
    Unsupported,
    Corrupt,
    Unreadable,
    Unknown,
}

/// What was found out about one entry of the inbox.
#[derive(Clone, Debug, PartialEq, Eq)]
pub struct ProviderEntryInspection {
    pub path: LocalPath,
    pub state: ProviderEntryState,
    pub detail: Option<String>,
}

#[verifier::ext_equal]
pub struct ProviderEntryInspectionView {
    pub path: LocalPathView,
    pub state: ProviderEntryState,
    pub detail: Option<Seq<char>>,
}

impl DeepView for ProviderEntryInspection {
    type V = ProviderEntryInspectionView;

    open spec fn deep_view(&self) -> ProviderEntryInspectionView {
        ProviderEntryInspectionView {
            path: self.path.deep_view(),
            state: self.state,
            detail: self.detail.deep_view(),
        }
    }
}

impl ProviderEntryInspection {
    pub fn new(path: LocalPath, state: ProviderEntryState) -> (inspection: Self)
        ensures
            inspection.deep_view() == (ProviderEntryInspectionView {
                path: path.deep_view(),
                state,
                detail: None,
            }),
    {
        ProviderEntryInspection { path, state, detail: None }
    }

    pub fn with_detail(path: LocalPath, state: ProviderEntryState, detail: &str) -> (inspection:
        Self)
        ensures
            inspection.deep_view() == (ProviderEntryInspectionView {
                path: path.deep_view(),
                state,
                detail: Some(detail@),
            }),
    {
        ProviderEntryInspection { path, state, detail: Some(detail.to_owned()) }
    }
}

impl Ranked for ProviderEntryInspection {
    open spec fn leq(left: ProviderEntryInspectionView, right: ProviderEntryInspectionView) -> bool {
        path_at_most(left.path, right.path)
    }

    proof fn leq_total(left: ProviderEntryInspectionView, right: ProviderEntryInspectionView) {
        path_order_is_total(left.path, right.path);
    }

    proof fn leq_transitive(
        a: ProviderEntryInspectionView,
        b: ProviderEntryInspectionView,
        c: ProviderEntryInspectionView,
    ) {
        path_order_is_transitive(a.path, b.path, c.path);
    }

    fn ranks_at_most(&self, other: &Self) -> (result: bool) {
        path_not_after(&self.path, &other.path)
    }
}

#[derive(Clone, Copy, Debug, PartialEq, Eq, Structural)]
pub enum DiagnosticArea {
    Product,
    Profile,
    Repository,
    Provider,
    Hook,
    Lock,
}

/// One thing that was looked at.
#[derive(Clone, Debug, PartialEq, Eq)]
pub struct DoctorCheck {
    pub area: DiagnosticArea,
    pub code: String,
    pub status: DoctorCheckStatus,
    pub message: String,
    pub path: Option<String>,
    pub recovery: Option<RecoveryKind>,
}

#[verifier::ext_equal]
pub struct DoctorCheckView {
    pub area: DiagnosticArea,
    pub code: Seq<char>,
    pub status: DoctorCheckStatus,
    pub message: Seq<char>,
    pub path: Option<Seq<char>>,
    pub recovery: Option<RecoveryKind>,
}

impl DeepView for DoctorCheck {
    type V = DoctorCheckView;

    open spec fn deep_view(&self) -> DoctorCheckView {
        DoctorCheckView {
            area: self.area,
            code: self.code@,
            status: self.status,
            message: self.message@,
            path: self.path.deep_view(),
            recovery: self.recovery,
        }
    }
}

impl DoctorCheck {
    /// A copy that holds the same.
    pub(crate) fn duplicate(&self) -> (copy: Self)
        ensures
            copy.deep_view() == self.deep_view(),
    {
        DoctorCheck {
            area: self.area,
            code: self.code.clone(),
            status: self.status,
            message: self.message.clone(),
            path: copy_option(&self.path),
            recovery: self.recovery,
        }
    }
}

#[derive(Clone, Debug, PartialEq, Eq)]
pub struct DoctorReport {
    pub healthy: bool,
    pub checks: Vec<DoctorCheck>,
    pub next_action: NextAction,
}

#[verifier::ext_equal]
pub struct DoctorReportView {
    pub healthy: bool,
    pub checks: Seq<DoctorCheckView>,
    pub next_action: NextAction,
}

impl DeepView for DoctorReport {
    type V = DoctorReportView;

    open spec fn deep_view(&self) -> DoctorReportView {
        DoctorReportView {
            healthy: self.healthy,
            checks: self.checks.deep_view(),
            next_action: self.next_action,
        }
    }
}

/// A check that found nothing wrong.
pub open spec fn healthy_check(
    area: DiagnosticArea,
    code: Seq<char>,
    message: Seq<char>,
    path: Option<Seq<char>>,
) -> DoctorCheckView {
    DoctorCheckView {
        area,
        code,
        status: DoctorCheckStatus::Healthy,
        message,
        path,
        recovery: None,
    }
}

/// A check that found what keeps the product from working.
pub open spec fn blocked_check(
    area: DiagnosticArea,
    code: Seq<char>,
    message: Seq<char>,
    path: Option<Seq<char>>,
    recovery: RecoveryKind,
) -> DoctorCheckView {
    DoctorCheckView {
        area,
        code,
        status: DoctorCheckStatus::Blocked,
        message,
        path,
        recovery: Some(recovery),
    }
}

/// A check that found what needs attention.
pub open spec fn warning_check(
    area: DiagnosticArea,
    code: Seq<char>,
    message: Seq<char>,
    path: Option<Seq<char>>,
    recovery: RecoveryKind,
) -> DoctorCheckView {
    DoctorCheckView {
        area,
        code,
        status: DoctorCheckStatus::Warning,
        message,
        path,
        recovery: Some(recovery),
    }
}

fn owned(path: Option<&str>) -> (copy: Option<String>)
    ensures
        copy.deep_view() == path.deep_view(),
{
    match path {
        Some(path) => Some(path.to_owned()),
        None => None,
    }
}

fn healthy(area: DiagnosticArea, code: &str, message: &str, path: Option<&str>) -> (check: DoctorCheck)
    ensures
        check.deep_view() == healthy_check(area, code@, message@, path.deep_view()),
{
    DoctorCheck {
        area,
        code: code.to_owned(),
        status: DoctorCheckStatus::Healthy,
        message: message.to_owned(),
        path: owned(path),
        recovery: None,
    }
}

fn blocked(
    area: DiagnosticArea,
    code: &str,
    message: &str,
    path: Option<&str>,
    recovery: RecoveryKind,
) -> (check: DoctorCheck)
    ensures
        check.deep_view() == blocked_check(area, code@, message@, path.deep_view(), recovery),
{
    DoctorCheck {
        area,
        code: code.to_owned(),
        status: DoctorCheckStatus::Blocked,
        message: message.to_owned(),
        path: owned(path),
        recovery: Some(recovery),
    }
}

fn warning(
    area: DiagnosticArea,
    code: &str,
    message: &str,
    path: Option<&str>,
    recovery: RecoveryKind,
) -> (check: DoctorCheck)
    ensures
        check.deep_view() == warning_check(area, code@, message@, path.deep_view(), recovery),
{
    DoctorCheck {
        area,
        code: code.to_owned(),
        status: DoctorCheckStatus::Warning,
        message: message.to_owned(),
        path: owned(path),
        recovery: Some(recovery),
    }
}

/// The problems, the most urgent first.
pub open spec fn urgency() -> Seq<Seq<char>> {
    seq![
        "profile_missing"@,
        "profile_unreadable"@,
        "repository_incompatible"@,
        "provider_root_invalid"@,
        "provider_missing"@,
        "provider_unreadable"@,
        "provider_read_inspection_failed"@,
        "provider_unwritable"@,
        "provider_write_inspection_failed"@,
        "provider_pdf_unreadable"@,
        "provider_pdf_corrupt"@,
        "provider_inspection_failed"@,
        "provider_hydration_failed"@,
        "hook_conflict"@,
        "hook_missing"@,
        "hook_unreadable"@,
        "stale_lock"@,
        "lock_unreadable"@,
        "lock_active"@,
    ]
}

/// The place of a text in a list from `from` on, or the end of the list.
pub open spec fn place_in(list: Seq<Seq<char>>, text: Seq<char>, from: int) -> int
    decreases list.len() - from,
{
    if from >= list.len() || list[from] == text {
        from
    } else {
        place_in(list, text, from + 1)
    }
}

/// How urgent a problem is: a lower number is more urgent, and unknown ones come last.
pub open spec fn issue_rank(code: Seq<char>) -> int {
    place_in(urgency(), code, 0)
}

fn issue_priority(code: &str) -> (rank: usize)
    ensures
        rank == issue_rank(code@),
{
    let mut order: Vec<&str> = Vec::new();
    order.push("profile_missing");
    order.push("profile_unreadable");
    order.push("repository_incompatible");
    order.push("provider_root_invalid");
    order.push("provider_missing");
    order.push("provider_unreadable");
    order.push("provider_read_inspection_failed");
    order.push("provider_unwritable");
    order.push("provider_write_inspection_failed");
    order.push("provider_pdf_unreadable");
    order.push("provider_pdf_corrupt");
    order.push("provider_inspection_failed");
    order.push("provider_hydration_failed");
    order.push("hook_conflict");
    order.push("hook_missing");
    order.push("hook_unreadable");
    order.push("stale_lock");
    order.push("lock_unreadable");
    order.push("lock_active");
    let ghost list = order@.map_values(|text: &str| text@);
    assert(list == urgency());
    let mut i: usize = 0;
    while i < order.len()
        invariant
            i <= order.len(),
            list == order@.map_values(|text: &str| text@),
            list == urgency(),
            place_in(list, code@, 0) == place_in(list, code@, i as int),
        decreases order.len() - i,
    {
        assert(list[i as int] == order@[i as int]@);
        if same(order[i], code) {
            return i;
        }
        i += 1;
    }
    i
}

/// Of the first `n` checks, the place of the most urgent that is not healthy; of equally
/// urgent ones the first.
pub open spec fn primary_at(checks: Seq<DoctorCheckView>, n: int) -> Option<int>
    decreases n,
{
    if n <= 0 {
        None
    } else if checks[n - 1].status == DoctorCheckStatus::Healthy {
        primary_at(checks, n - 1)
    } else {
        match primary_at(checks, n - 1) {
            None => Some(n - 1),
            Some(best) => if issue_rank(checks[n - 1].code) < issue_rank(checks[best].code) {
                Some(n - 1)
            } else {
                Some(best)
            },
        }
    }
}

/// The most urgent problem that the checks found.
pub open spec fn primary(checks: Seq<DoctorCheckView>) -> Option<DoctorCheckView> {
    match primary_at(checks, checks.len() as int) {
        Some(at) => Some(checks[at]),
        None => None,
    }
}

fn primary_issue(checks: &Vec<DoctorCheck>) -> (issue: Option<&DoctorCheck>)
    ensures
        match issue {
            Some(check) => primary(checks.deep_view()) == Some(check.deep_view()),
            None => primary(checks.deep_view()) is None,
        },
{
    let ghost all = checks.deep_view();
    let mut best: Option<usize> = None;
    let mut lowest: usize = 0;
    let mut i: usize = 0;
    while i < checks.len()
        invariant
            i <= checks.len(),
            all == checks.deep_view(),
            match best {
                Some(at) => at < i && primary_at(all, i as int) == Some(at as int) && lowest
                    == issue_rank(all[at as int].code),
                None => primary_at(all, i as int) is None,
            },
        decreases checks.len() - i,
    {
        let check = &checks[i];
        assert(all[i as int] == check.deep_view());
        if check.status != DoctorCheckStatus::Healthy {
            let rank = issue_priority(check.code.as_str());
            let better = match best {
                Some(_) => rank < lowest,
                None => true,
            };
            if better {
                best = Some(i);
                lowest = rank;
            }
        }
        i += 1;
    }
    match best {
        Some(at) => {
            assert(all[at as int] == checks@[at as int].deep_view());
            Some(&checks[at])
        },
        None => None,
    }
}

impl DoctorReport {
    pub fn primary_issue(&self) -> (issue: Option<&DoctorCheck>)
        ensures
            match issue {
                Some(check) => primary(self.deep_view().checks) == Some(check.deep_view()),
                None => primary(self.deep_view().checks) is None,
            },
    {
        primary_issue(&self.checks)
    }
}

/// No check found anything.
pub open spec fn all_healthy(checks: Seq<DoctorCheckView>) -> bool {
    forall|i: int|
        0 <= i < checks.len() ==> #[trigger] checks[i].status == DoctorCheckStatus::Healthy
}

fn checks_are_healthy(checks: &Vec<DoctorCheck>) -> (result: bool)
    ensures
        result == all_healthy(checks.deep_view()),
{
    let ghost all = checks.deep_view();
    let mut i: usize = 0;
    while i < checks.len()
        invariant
            i <= checks.len(),
            all == checks.deep_view(),
            forall|k: int| 0 <= k < i ==> #[trigger] all[k].status == DoctorCheckStatus::Healthy,
        decreases checks.len() - i,
    {
        assert(all[i as int] == checks@[i as int].deep_view());
        if checks[i].status != DoctorCheckStatus::Healthy {
            return false;
        }
        i += 1;
    }
    true
}

/// What to do about a problem.
pub open spec fn action_for(code: Seq<char>) -> NextAction {
    if code == "profile_missing"@ || code == "profile_unreadable"@ || code
        == "repository_incompatible"@ || code == "provider_root_invalid"@ || code
        == "provider_missing"@ {
        NextAction::Configure
    } else if code == "provider_hydration_failed"@ {
        NextAction::Hydrate
    } else if code == "lock_active"@ {
        NextAction::Retry
    } else {
        NextAction::Repair
    }
}

fn action_for_issue(code: &str) -> (action: NextAction)
    ensures
        action == action_for(code@),
{
    if same(code, "profile_missing") || same(code, "profile_unreadable") || same(
        code,
        "repository_incompatible",
    ) || same(code, "provider_root_invalid") || same(code, "provider_missing") {
        NextAction::Configure
    } else if same(code, "provider_hydration_failed") {
        NextAction::Hydrate
    } else if same(code, "lock_active") {
        NextAction::Retry
    } else {
        NextAction::Repair
    }
}

/// The report on a set of checks.
pub open spec fn report_on(checks: Seq<DoctorCheckView>) -> DoctorReportView {
    DoctorReportView {
        healthy: all_healthy(checks),
        checks,
        next_action: match primary(checks) {
            Some(check) => action_for(check.code),
            None => NextAction::Nothing,
        },
    }
}

fn report(checks: Vec<DoctorCheck>) -> (report: DoctorReport)
    ensures
        report.deep_view() == report_on(checks.deep_view()),
{
    let healthy = checks_are_healthy(&checks);
    let next_action = match primary_issue(&checks) {
        Some(check) => action_for_issue(check.code.as_str()),
        None => NextAction::Nothing,
    };
    DoctorReport { healthy, checks, next_action }
}

/// What was found of the machine profile.
#[derive(Clone, Debug, PartialEq, Eq)]
pub enum ProfileReading {
    Valid { path: String },
    Missing { path: String },
    Unreadable { path: String },
    LocationUnknown,
}

pub open spec fn profile_finding(reading: ProfileReading) -> DoctorCheckView {
    let area = DiagnosticArea::Profile;
    match reading {
        ProfileReading::Valid { path } => healthy_check(
            area,
            "profile_valid"@,
            "machine profile schema is valid"@,
            Some(path@),
        ),
        ProfileReading::Missing { path } => blocked_check(
            area,
            "profile_missing"@,
            "machine profile is not configured"@,
            Some(path@),
            RecoveryKind::Configure,
        ),
        ProfileReading::Unreadable { path } => blocked_check(
            area,
            "profile_unreadable"@,
            "machine profile could not be read or validated"@,
            Some(path@),
            RecoveryKind::Configure,
        ),
        ProfileReading::LocationUnknown => blocked_check(
            area,
            "profile_unreadable"@,
            "machine profile location could not be inspected"@,
            None,
            RecoveryKind::Configure,
        ),
    }
}

fn profile_check(reading: &ProfileReading) -> (check: DoctorCheck)
    ensures
        check.deep_view() == profile_finding(*reading),
{
    match reading {
        ProfileReading::Valid { path } => healthy(
            DiagnosticArea::Profile,
            "profile_valid",
            "machine profile schema is valid",
            Some(path.as_str()),
        ),
        ProfileReading::Missing { path } => blocked(
            DiagnosticArea::Profile,
            "profile_missing",
            "machine profile is not configured",
            Some(path.as_str()),
            RecoveryKind::Configure,
        ),
        ProfileReading::Unreadable { path } => blocked(
            DiagnosticArea::Profile,
            "profile_unreadable",
            "machine profile could not be read or validated",
            Some(path.as_str()),
            RecoveryKind::Configure,
        ),
        ProfileReading::LocationUnknown => blocked(
            DiagnosticArea::Profile,
            "profile_unreadable",
            "machine profile location could not be inspected",
            None,
            RecoveryKind::Configure,
        ),
    }
}

/// Which context was selected, and what was found at its repository: `inspected` is the
/// canonical root of a compatible one.
#[derive(Clone, Debug, PartialEq, Eq)]
pub enum SelectedContext {
    /// A repository of its own; `provider` is the inbox that its environment variable names.
    Repository { repository_root: String, inspected: Option<String>, provider: Option<LocalPath> },
    /// The repository and the inbox of the profile.
    Profile { repository_root: String, inspected: Option<String>, provider_root: LocalPath },
    /// No context could be selected.
    Failed { code: String },
}

/// The repository and the provider that are diagnosed further, and what was found so far.
#[derive(Clone, Debug, PartialEq, Eq)]
pub struct ContextFinding {
    pub checks: Vec<DoctorCheck>,
    pub repository: Option<String>,
    pub provider: Option<LocalPath>,
}

#[verifier::ext_equal]
pub struct ContextFindingView {
    pub checks: Seq<DoctorCheckView>,
    pub repository: Option<Seq<char>>,
    pub provider: Option<LocalPathView>,
}

impl DeepView for ContextFinding {
    type V = ContextFindingView;

    open spec fn deep_view(&self) -> ContextFindingView {
        ContextFindingView {
            checks: self.checks.deep_view(),
            repository: self.repository.deep_view(),
            provider: self.provider.deep_view(),
        }
    }
}

pub open spec fn compatible_repository(root: Seq<char>) -> DoctorCheckView {
    healthy_check(
        DiagnosticArea::Repository,
        "repository_access"@,
        "repository is compatible"@,
        Some(root),
    )
}

pub open spec fn incompatible_repository(root: Seq<char>) -> DoctorCheckView {
    blocked_check(
        DiagnosticArea::Repository,
        "repository_incompatible"@,
        "repository is not a compatible Personal knowledge base"@,
        Some(root),
        RecoveryKind::Configure,
    )
}

/// What the selection of the context says.
pub open spec fn context_finding(selected: SelectedContext) -> ContextFindingView {
    match selected {
        SelectedContext::Repository { repository_root, inspected, provider } => match inspected {
            Some(root) => ContextFindingView {
                checks: if provider is Some {
                    seq![compatible_repository(root@)]
                } else {
                    seq![
                        compatible_repository(root@),
                        blocked_check(
                            DiagnosticArea::Provider,
                            "provider_missing"@,
                            "Personal Inbox environment path is not configured"@,
                            None,
                            RecoveryKind::Configure,
                        ),
                    ]
                },
                repository: Some(root@),
                provider: provider.deep_view(),
            },
            None => ContextFindingView {
                checks: seq![incompatible_repository(repository_root@)],
                repository: None,
                provider: None,
            },
        },
        SelectedContext::Profile { repository_root, inspected, provider_root } => match inspected {
            Some(root) => ContextFindingView {
                checks: seq![compatible_repository(root@)],
                repository: Some(root@),
                provider: Some(provider_root.deep_view()),
            },
            None => ContextFindingView {
                checks: seq![incompatible_repository(repository_root@)],
                repository: None,
                provider: Some(provider_root.deep_view()),
            },
        },
        SelectedContext::Failed { code } => ContextFindingView {
            checks: if code@ == "context_not_found"@ || "profile_"@.is_prefix_of(code@) {
                Seq::empty()
            } else {
                seq![
                    blocked_check(
                        DiagnosticArea::Repository,
                        "repository_incompatible"@,
                        "repository context could not be inspected"@,
                        None,
                        RecoveryKind::Configure,
                    ),
                ]
            },
            repository: None,
            provider: None,
        },
    }
}

/// Diagnoses the selected context.
pub fn diagnose_context(selected: &SelectedContext) -> (finding: ContextFinding)
    ensures
        finding.deep_view() == context_finding(*selected),
{
    let mut checks: Vec<DoctorCheck> = Vec::new();
    match selected {
        SelectedContext::Repository { repository_root, inspected, provider } => match inspected {
            Some(root) => {
                checks.push(
                    healthy(
                        DiagnosticArea::Repository,
                        "repository_access",
                        "repository is compatible",
                        Some(root.as_str()),
                    ),
                );
                if provider.is_none() {
                    checks.push(
                        blocked(
                            DiagnosticArea::Provider,
                            "provider_missing",
                            "Personal Inbox environment path is not configured",
                            None,
                            RecoveryKind::Configure,
                        ),
                    );
                }
                let finding = ContextFinding {
                    checks,
                    repository: Some(root.clone()),
                    provider: match provider {
                        Some(path) => Some(path.duplicate()),
                        None => None,
                    },
                };
                assert(finding.checks.deep_view() == context_finding(*selected).checks);
                finding
            },
            None => {
                checks.push(
                    blocked(
                        DiagnosticArea::Repository,
                        "repository_incompatible",
                        "repository is not a compatible Personal knowledge base",
                        Some(repository_root.as_str()),
                        RecoveryKind::Configure,
                    ),
                );
                let finding = ContextFinding { checks, repository: None, provider: None };
                assert(finding.checks.deep_view() == context_finding(*selected).checks);
                finding
            },
        },
        SelectedContext::Profile { repository_root, inspected, provider_root } => match inspected {
            Some(root) => {
                checks.push(
                    healthy(
                        DiagnosticArea::Repository,
                        "repository_access",
                        "repository is compatible",
                        Some(root.as_str()),
                    ),
                );
                let finding = ContextFinding {
                    checks,
                    repository: Some(root.clone()),
                    provider: Some(provider_root.duplicate()),
                };
                assert(finding.checks.deep_view() == context_finding(*selected).checks);
                finding
            },
            None => {
                checks.push(
                    blocked(
                        DiagnosticArea::Repository,
                        "repository_incompatible",
                        "repository is not a compatible Personal knowledge base",
                        Some(repository_root.as_str()),
                        RecoveryKind::Configure,
                    ),
                );
                let finding = ContextFinding {
                    checks,
                    repository: None,
                    provider: Some(provider_root.duplicate()),
                };
                assert(finding.checks.deep_view() == context_finding(*selected).checks);
                finding
            },
        },
        SelectedContext::Failed { code } => {
            if !same(code.as_str(), "context_not_found") && !starts_with(
                code.as_str(),
                "profile_",
            ) {
                checks.push(
                    blocked(
                        DiagnosticArea::Repository,
                        "repository_incompatible",
                        "repository context could not be inspected",
                        None,
                        RecoveryKind::Configure,
                    ),
                );
            }
            let finding = ContextFinding { checks, repository: None, provider: None };
            assert(finding.checks.deep_view() == context_finding(*selected).checks);
            finding
        },
    }
}

/// The place of a Personal Inbox: below the folder of an account.
pub open spec fn is_personal_inbox(provider: LocalPathView) -> bool {
    ends_below_a_name(provider, seq!["My-Knowledge-OS-Assets"@, "personal"@, "inbox"@])
}

fn is_exact_personal_inbox(provider: &LocalPath) -> (result: bool)
    ensures
        result == is_personal_inbox(provider.deep_view()),
{
    ends_in_three_names(provider, "My-Knowledge-OS-Assets", "personal", "inbox")
}

/// What stands at the place of the inbox.
#[derive(Clone, Copy, Debug, PartialEq, Eq, Structural)]
pub enum ProviderDirectory {
    Real,
    Absent,
    Other,
}

pub open spec fn identity_finding(provider: LocalPathView, directory: ProviderDirectory) -> DoctorCheckView {
    let area = DiagnosticArea::Provider;
    if !provider.is_absolute || !is_personal_inbox(provider) {
        blocked_check(
            area,
            "provider_root_invalid"@,
            "provider root must be the exact Personal Inbox"@,
            Some(provider.text),
            RecoveryKind::Configure,
        )
    } else {
        match directory {
            ProviderDirectory::Real => healthy_check(
                area,
                "provider_inbox"@,
                "provider root is the exact Personal Inbox"@,
                Some(provider.text),
            ),
            ProviderDirectory::Absent => blocked_check(
                area,
                "provider_missing"@,
                "Personal Inbox does not exist"@,
                Some(provider.text),
                RecoveryKind::Configure,
            ),
            ProviderDirectory::Other => blocked_check(
                area,
                "provider_root_invalid"@,
                "Personal Inbox must be a real directory"@,
                Some(provider.text),
                RecoveryKind::Configure,
            ),
        }
    }
}

/// Whether the provider is a Personal Inbox.
pub fn provider_identity_check(provider: &LocalPath, directory: ProviderDirectory) -> (check: DoctorCheck)
    ensures
        check.deep_view() == identity_finding(provider.deep_view(), directory),
{
    if !provider.is_absolute || !is_exact_personal_inbox(provider) {
        return blocked(
            DiagnosticArea::Provider,
            "provider_root_invalid",
            "provider root must be the exact Personal Inbox",
            Some(provider.text.as_str()),
            RecoveryKind::Configure,
        );
    }
    match directory {
        ProviderDirectory::Real => healthy(
            DiagnosticArea::Provider,
            "provider_inbox",
            "provider root is the exact Personal Inbox",
            Some(provider.text.as_str()),
        ),
        ProviderDirectory::Absent => blocked(
            DiagnosticArea::Provider,
            "provider_missing",
            "Personal Inbox does not exist",
            Some(provider.text.as_str()),
            RecoveryKind::Configure,
        ),
        ProviderDirectory::Other => blocked(
            DiagnosticArea::Provider,
            "provider_root_invalid",
            "Personal Inbox must be a real directory",
            Some(provider.text.as_str()),
            RecoveryKind::Configure,
        ),
    }
}

pub open spec fn read_finding(provider: Seq<char>, inspection: ProviderAccessInspection) -> DoctorCheckView {
    let area = DiagnosticArea::Provider;
    match inspection {
        ProviderAccessInspection::Allowed => healthy_check(
            area,
            "provider_readable"@,
            "Personal Inbox is readable by the current process"@,
            Some(provider),
        ),
        ProviderAccessInspection::Denied => blocked_check(
            area,
            "provider_unreadable"@,
            "Personal Inbox cannot be read by the current process"@,
            Some(provider),
            RecoveryKind::FixPermissions,
        ),
        ProviderAccessInspection::Indeterminate(detail) => blocked_check(
            area,
            "provider_read_inspection_failed"@,
            "Personal Inbox read access could not be determined: "@ + detail@,
            Some(provider),
            RecoveryKind::FixPermissions,
        ),
    }
}

fn provider_read_check(provider: &str, inspection: &ProviderAccessInspection) -> (check: DoctorCheck)
    ensures
        check.deep_view() == read_finding(provider@, *inspection),
{
    match inspection {
        ProviderAccessInspection::Allowed => healthy(
            DiagnosticArea::Provider,
            "provider_readable",
            "Personal Inbox is readable by the current process",
            Some(provider),
        ),
        ProviderAccessInspection::Denied => blocked(
            DiagnosticArea::Provider,
            "provider_unreadable",
            "Personal Inbox cannot be read by the current process",
            Some(provider),
            RecoveryKind::FixPermissions,
        ),
        ProviderAccessInspection::Indeterminate(detail) => {
            let message = cat2(
                "Personal Inbox read access could not be determined: ",
                detail.as_str(),
            );
            blocked(
                DiagnosticArea::Provider,
                "provider_read_inspection_failed",
                message.as_str(),
                Some(provider),
                RecoveryKind::FixPermissions,
            )
        },
    }
}

pub open spec fn write_finding(provider: Seq<char>, inspection: ProviderAccessInspection) -> DoctorCheckView {
    let area = DiagnosticArea::Provider;
    match inspection {
        ProviderAccessInspection::Allowed => healthy_check(
            area,
            "provider_writable"@,
            "Personal Inbox is writable by the current process"@,
            Some(provider),
        ),
        ProviderAccessInspection::Denied => blocked_check(
            area,
            "provider_unwritable"@,
            "Personal Inbox cannot be written by the current process"@,
            Some(provider),
            RecoveryKind::FixPermissions,
        ),
        ProviderAccessInspection::Indeterminate(detail) => blocked_check(
            area,
            "provider_write_inspection_failed"@,
            "Personal Inbox write access could not be determined: "@ + detail@,
            Some(provider),
            RecoveryKind::FixPermissions,
        ),
    }
}

fn provider_write_check(provider: &str, inspection: &ProviderAccessInspection) -> (check: DoctorCheck)
    ensures
        check.deep_view() == write_finding(provider@, *inspection),
{
    match inspection {
        ProviderAccessInspection::Allowed => healthy(
            DiagnosticArea::Provider,
            "provider_writable",
            "Personal Inbox is writable by the current process",
            Some(provider),
        ),
        ProviderAccessInspection::Denied => blocked(
            DiagnosticArea::Provider,
            "provider_unwritable",
            "Personal Inbox cannot be written by the current process",
            Some(provider),
            RecoveryKind::FixPermissions,
        ),
        ProviderAccessInspection::Indeterminate(detail) => {
            let message = cat2(
                "Personal Inbox write access could not be determined: ",
                detail.as_str(),
            );
            blocked(
                DiagnosticArea::Provider,
                "provider_write_inspection_failed",
                message.as_str(),
                Some(provider),
                RecoveryKind::FixPermissions,
            )
        },
    }
}

/// The detail of an entry as its message carries it.
pub open spec fn detail_suffix(detail: Option<Seq<char>>) -> Seq<char> {
    match detail {
        Some(text) => ": "@ + text,
        None => Seq::empty(),
    }
}

/// What an entry of the inbox is reported as, where something is wrong with it.
pub open spec fn entry_finding(entry: ProviderEntryInspectionView) -> Option<DoctorCheckView> {
    let area = DiagnosticArea::Provider;
    let detail = detail_suffix(entry.detail);
    match entry.state {
        ProviderEntryState::Hydrated => None,
        ProviderEntryState::Unsupported => None,
        ProviderEntryState::NotHydrated => Some(
            blocked_check(
                area,
                "provider_hydration_failed"@,
                "a Personal PDF is a cloud placeholder"@ + detail,
                Some(entry.path.text),
                RecoveryKind::Hydrate,
            ),
        ),
        ProviderEntryState::Corrupt => Some(
            blocked_check(
                area,
                "provider_pdf_corrupt"@,
                "a Personal PDF entry is invalid"@ + detail,
                Some(entry.path.text),
                RecoveryKind::Repair,
            ),
        ),
        ProviderEntryState::Unreadable => Some(
            blocked_check(
                area,
                "provider_pdf_unreadable"@,
                "a Personal PDF entry could not be inspected"@ + detail,
                Some(entry.path.text),
                RecoveryKind::FixPermissions,
            ),
        ),
        ProviderEntryState::Unknown => Some(
            blocked_check(
                area,
                "provider_inspection_failed"@,
                "a Personal PDF hydration state could not be determined"@ + detail,
                Some(entry.path.text),
                RecoveryKind::Repair,
            ),
        ),
    }
}

fn entry_check(entry: &ProviderEntryInspection) -> (check: Option<DoctorCheck>)
    ensures
        check.deep_view() == entry_finding(entry.deep_view()),
{
    let detail = match &entry.detail {
        Some(text) => cat2(": ", text.as_str()),
        None => String::new(),
    };
    assert(detail@ == detail_suffix(entry.detail.deep_view()));
    match entry.state {
        ProviderEntryState::Hydrated | ProviderEntryState::Unsupported => None,
        ProviderEntryState::NotHydrated => {
            let message = cat2("a Personal PDF is a cloud placeholder", detail.as_str());
            Some(
                blocked(
                    DiagnosticArea::Provider,
                    "provider_hydration_failed",
                    message.as_str(),
                    Some(entry.path.text.as_str()),
                    RecoveryKind::Hydrate,
                ),
            )
        },
        ProviderEntryState::Corrupt => {
            let message = cat2("a Personal PDF entry is invalid", detail.as_str());
            Some(
                blocked(
                    DiagnosticArea::Provider,
                    "provider_pdf_corrupt",
                    message.as_str(),
                    Some(entry.path.text.as_str()),
                    RecoveryKind::Repair,
                ),
            )
        },
        ProviderEntryState::Unreadable => {
            let message = cat2("a Personal PDF entry could not be inspected", detail.as_str());
            Some(
                blocked(
                    DiagnosticArea::Provider,
                    "provider_pdf_unreadable",
                    message.as_str(),
                    Some(entry.path.text.as_str()),
                    RecoveryKind::FixPermissions,
                ),
            )
        },
        ProviderEntryState::Unknown => {
            let message = cat2(
                "a Personal PDF hydration state could not be determined",
                detail.as_str(),
            );
            Some(
                blocked(
                    DiagnosticArea::Provider,
                    "provider_inspection_failed",
                    message.as_str(),
                    Some(entry.path.text.as_str()),
                    RecoveryKind::Repair,
                ),
            )
        },
    }
}

/// What is wrong with the entries, in their order.
pub open spec fn entry_findings(entries: Seq<ProviderEntryInspectionView>) -> Seq<DoctorCheckView>
    decreases entries.len(),
{
    if entries.len() == 0 {
        Seq::empty()
    } else {
        let front = entry_findings(entries.drop_last());
        match entry_finding(entries.last()) {
            Some(check) => front.push(check),
            None => front,
        }
    }
}

/// Placeholders cannot be told on this platform.
pub open spec fn hydration_unsupported(entries: Seq<ProviderEntryInspectionView>) -> bool {
    exists|i: int|
        0 <= i < entries.len() && #[trigger] entries[i].state == ProviderEntryState::Unsupported
}

/// What the entries of the inbox say: `inspections` is nothing but a detail where they
/// could not be listed.
pub open spec fn entries_finding(
    provider: Seq<char>,
    inspections: Result<Seq<ProviderEntryInspectionView>, Seq<char>>,
) -> Seq<DoctorCheckView> {
    let area = DiagnosticArea::Provider;
    match inspections {
        Err(detail) => seq![
            blocked_check(
                area,
                "provider_inspection_failed"@,
                "Personal Inbox entries could not be inspected: "@ + detail,
                Some(provider),
                RecoveryKind::Repair,
            ),
        ],
        Ok(entries) => {
            let found = entry_findings(stable_sort::<ProviderEntryInspection>(entries));
            if found.len() > 0 {
                found
            } else if hydration_unsupported(stable_sort::<ProviderEntryInspection>(entries)) {
                seq![
                    healthy_check(
                        area,
                        "provider_hydration_unsupported"@,
                        "Personal PDF placeholder metadata is unsupported on this platform"@,
                        Some(provider),
                    ),
                ]
            } else {
                seq![
                    healthy_check(
                        area,
                        "provider_hydration"@,
                        "Personal PDF placeholder metadata is healthy"@,
                        Some(provider),
                    ),
                ]
            }
        },
    }
}

/// The entries that were inspected, or the detail of the failure.
pub open spec fn inspected_entries(
    inspections: Result<Vec<ProviderEntryInspection>, String>,
) -> Result<Seq<ProviderEntryInspectionView>, Seq<char>> {
    match inspections {
        Ok(entries) => Ok(entries.deep_view()),
        Err(detail) => Err(detail@),
    }
}

pub fn provider_entry_checks(
    provider: &str,
    inspections: Result<Vec<ProviderEntryInspection>, String>,
) -> (checks: Vec<DoctorCheck>)
    ensures
        checks.deep_view() == entries_finding(provider@, inspected_entries(inspections)),
{
    let mut checks: Vec<DoctorCheck> = Vec::new();
    assert(checks.deep_view() == Seq::<DoctorCheckView>::empty());
    let entries = match inspections {
        Ok(entries) => entries,
        Err(detail) => {
            let message = cat2("Personal Inbox entries could not be inspected: ", detail.as_str());
            let check = blocked(
                DiagnosticArea::Provider,
                "provider_inspection_failed",
                message.as_str(),
                Some(provider),
                RecoveryKind::Repair,
            );
            checks.push(check);
            assert(checks.deep_view() == seq![check.deep_view()]);
            return checks;
        },
    };
    let entries = sort(entries);
    let ghost all = entries.deep_view();
    let mut unsupported = false;
    let mut i: usize = 0;
    assert(all.take(0) == Seq::<ProviderEntryInspectionView>::empty());
    while i < entries.len()
        invariant
            i <= entries.len(),
            all == entries.deep_view(),
            checks.deep_view() == entry_findings(all.take(i as int)),
            unsupported == exists|k: int|
                0 <= k < i && #[trigger] all[k].state == ProviderEntryState::Unsupported,
        decreases entries.len() - i,
    {
        let entry = &entries[i];
        assert(all[i as int] == entry.deep_view());
        assert(all.take(i + 1).drop_last() == all.take(i as int));
        if entry.state == ProviderEntryState::Unsupported {
            unsupported = true;
        }
        match entry_check(entry) {
            Some(check) => {
                let ghost before = checks.deep_view();
                checks.push(check);
                assert(checks.deep_view() == before.push(check.deep_view()));
            },
            None => {},
        }
        i += 1;
    }
    assert(all.take(i as int) == all);
    if checks.len() == 0 {
        let check = if unsupported {
            healthy(
                DiagnosticArea::Provider,
                "provider_hydration_unsupported",
                "Personal PDF placeholder metadata is unsupported on this platform",
                Some(provider),
            )
        } else {
            healthy(
                DiagnosticArea::Provider,
                "provider_hydration",
                "Personal PDF placeholder metadata is healthy",
                Some(provider),
            )
        };
        assert(entry_findings(all).len() == 0);
        checks.push(check);
        assert(checks.deep_view() == seq![check.deep_view()]);
    }
    checks
}

/// What was found out about a provider. What follows the directory matters only where the
/// provider is a Personal Inbox.
#[derive(Debug)]
pub struct ProviderObservation {
    pub directory: ProviderDirectory,
    pub read: ProviderAccessInspection,
    pub write: ProviderAccessInspection,
    pub entries: Result<Vec<ProviderEntryInspection>, String>,
}

pub open spec fn provider_findings(provider: LocalPathView, observed: ProviderObservation) -> Seq<
    DoctorCheckView,
> {
    let identity = identity_finding(provider, observed.directory);
    if identity.status != DoctorCheckStatus::Healthy {
        seq![identity]
    } else {
        seq![
            identity,
            read_finding(provider.text, observed.read),
            write_finding(provider.text, observed.write),
        ] + entries_finding(provider.text, inspected_entries(observed.entries))
    }
}

pub fn provider_checks(provider: &LocalPath, observed: ProviderObservation) -> (checks: Vec<DoctorCheck>)
    ensures
        checks.deep_view() == provider_findings(provider.deep_view(), observed),
{
    let identity = provider_identity_check(provider, observed.directory);
    let is_inbox = identity.status == DoctorCheckStatus::Healthy;
    let mut checks: Vec<DoctorCheck> = Vec::new();
    let ghost identified = identity.deep_view();
    checks.push(identity);
    assert(checks.deep_view() == seq![identified]);
    if !is_inbox {
        return checks;
    }
    let read = provider_read_check(provider.text.as_str(), &observed.read);
    let write = provider_write_check(provider.text.as_str(), &observed.write);
    let ghost start = seq![identified, read.deep_view(), write.deep_view()];
    checks.push(read);
    checks.push(write);
    assert(checks.deep_view() == start);
    let more = provider_entry_checks(provider.text.as_str(), observed.entries);
    extend(&mut checks, &more);
    checks
}

/// Appends the checks.
fn extend(checks: &mut Vec<DoctorCheck>, more: &Vec<DoctorCheck>)
    ensures
        final(checks).deep_view() == old(checks).deep_view() + more.deep_view(),
{
    let ghost start = checks.deep_view();
    let ghost all = more.deep_view();
    let mut i: usize = 0;
    assert(start + all.take(0) == start);
    while i < more.len()
        invariant
            i <= more.len(),
            all == more.deep_view(),
            checks.deep_view() == start + all.take(i as int),
        decreases more.len() - i,
    {
        let ghost before = checks.deep_view();
        let check = more[i].duplicate();
        assert(all[i as int] == check.deep_view());
        checks.push(check);
        assert(checks.deep_view() == before.push(check.deep_view()));
        assert(all.take(i + 1) == all.take(i as int).push(all[i as int]));
        i += 1;
    }
    assert(all.take(i as int) == all);
}

/// Bits that Windows sets on a file whose content is not at hand: offline, recalled when it
/// is opened, and recalled when its data is read.
pub const WINDOWS_PLACEHOLDER_ATTRIBUTES: u32 = 0x0044_1000;

/// The bit that macOS sets on a file without its data.
pub const MACOS_DATALESS_FLAG: u32 = 0x4000_0000;

pub open spec fn accessed_state(
    inspection: ProviderAccessInspection,
    hydration_unsupported: bool,
) -> ProviderEntryState {
    match inspection {
        ProviderAccessInspection::Allowed => if hydration_unsupported {
            ProviderEntryState::Unsupported
        } else {
            ProviderEntryState::Hydrated
        },
        ProviderAccessInspection::Denied => ProviderEntryState::Unreadable,
        ProviderAccessInspection::Indeterminate(_) => ProviderEntryState::Unknown,
    }
}

/// The state of an entry by whether it can be read.
pub fn state_after_access(inspection: ProviderAccessInspection, hydration_unsupported: bool) -> (state:
    ProviderEntryState)
    ensures
        state == accessed_state(inspection, hydration_unsupported),
{
    match inspection {
        ProviderAccessInspection::Allowed => if hydration_unsupported {
            ProviderEntryState::Unsupported
        } else {
            ProviderEntryState::Hydrated
        },
        ProviderAccessInspection::Denied => ProviderEntryState::Unreadable,
        ProviderAccessInspection::Indeterminate(_) => ProviderEntryState::Unknown,
    }
}

/// The state of a PDF by its attributes on Windows. A placeholder is told by them alone:
/// asking for access could bring its data in.
pub fn inspect_windows_pdf_attributes<F: FnOnce() -> ProviderAccessInspection>(
    attributes: u32,
    inspect_access: F,
) -> (state: ProviderEntryState)
    requires
        attributes & WINDOWS_PLACEHOLDER_ATTRIBUTES == 0 ==> inspect_access.requires(()),
    ensures
        if attributes & WINDOWS_PLACEHOLDER_ATTRIBUTES != 0 {
            state == ProviderEntryState::NotHydrated
        } else {
            exists|inspection: ProviderAccessInspection| #[trigger]
                inspect_access.ensures((), inspection) && state == accessed_state(
                    inspection,
                    false,
                )
        },
{
    if attributes & WINDOWS_PLACEHOLDER_ATTRIBUTES != 0 {
        return ProviderEntryState::NotHydrated;
    }
    let inspection = inspect_access();
    state_after_access(inspection, false)
}

/// The state of a PDF by its flags on macOS.
pub fn inspect_macos_pdf_attributes<F: FnOnce() -> ProviderAccessInspection>(
    attributes: u32,
    inspect_access: F,
) -> (state: ProviderEntryState)
    requires
        attributes & MACOS_DATALESS_FLAG == 0 ==> inspect_access.requires(()),
    ensures
        if attributes & MACOS_DATALESS_FLAG != 0 {
            state == ProviderEntryState::NotHydrated
        } else {
            exists|inspection: ProviderAccessInspection| #[trigger]
                inspect_access.ensures((), inspection) && state == accessed_state(
                    inspection,
                    false,
                )
        },
{
    if attributes & MACOS_DATALESS_FLAG != 0 {
        return ProviderEntryState::NotHydrated;
    }
    let inspection = inspect_access();
    state_after_access(inspection, false)
}

/// Something that could not be walked below the provider.
#[derive(Clone, Debug, PartialEq, Eq)]
pub struct WalkIssue {
    pub relative_path: Option<LocalPath>,
    pub message: String,
}

#[verifier::ext_equal]
pub struct WalkIssueView {
    pub relative_path: Option<LocalPathView>,
    pub message: Seq<char>,
}

impl DeepView for WalkIssue {
    type V = WalkIssueView;

    open spec fn deep_view(&self) -> WalkIssueView {
        WalkIssueView { relative_path: self.relative_path.deep_view(), message: self.message@ }
    }
}

pub open spec fn walked_entry(
    provider: LocalPathView,
    relative: LocalPathView,
    state: ProviderEntryState,
) -> ProviderEntryInspectionView {
    ProviderEntryInspectionView { path: joined_path(provider, relative), state, detail: None }
}

pub open spec fn walked_issue(provider: LocalPathView, issue: WalkIssueView) -> ProviderEntryInspectionView {
    ProviderEntryInspectionView {
        path: match issue.relative_path {
            Some(path) => joined_path(provider, path),
            None => provider,
        },
        state: ProviderEntryState::Unknown,
        detail: Some(issue.message),
    }
}

/// The inspections of a walk through the provider: `states` tells the state of each entry.
pub fn inspect_provider_entries(
    provider: &LocalPath,
    entries: &Vec<LocalPath>,
    states: &Vec<ProviderEntryState>,
    issues: &Vec<WalkIssue>,
) -> (inspections: Vec<ProviderEntryInspection>)
    requires
        entries@.len() == states@.len(),
    ensures
        inspections.deep_view() == Seq::new(
            entries@.len(),
            |i: int| walked_entry(provider.deep_view(), entries.deep_view()[i], states@[i]),
        ) + issues.deep_view().map_values(|issue: WalkIssueView| walked_issue(provider.deep_view(), issue)),
{
    let ghost names = entries.deep_view();
    let ghost front = Seq::new(
        entries@.len(),
        |i: int| walked_entry(provider.deep_view(), entries.deep_view()[i], states@[i]),
    );
    let ghost back = issues.deep_view().map_values(
        |issue: WalkIssueView| walked_issue(provider.deep_view(), issue),
    );
    let mut inspections: Vec<ProviderEntryInspection> = Vec::new();
    let mut i: usize = 0;
    assert(inspections.deep_view() == front.take(0));
    while i < entries.len()
        invariant
            i <= entries.len(),
            entries@.len() == states@.len(),
            names == entries.deep_view(),
            front == Seq::new(
                entries@.len(),
                |i: int| walked_entry(provider.deep_view(), entries.deep_view()[i], states@[i]),
            ),
            inspections.deep_view() == front.take(i as int),
        decreases entries.len() - i,
    {
        let ghost before = inspections.deep_view();
        let path = join_path(provider, &entries[i]);
        let inspection = ProviderEntryInspection { path, state: states[i], detail: None };
        assert(names[i as int] == entries@[i as int].deep_view());
        assert(inspection.deep_view() == front[i as int]);
        inspections.push(inspection);
        assert(inspections.deep_view() == before.push(inspection.deep_view()));
        assert(front.take(i + 1) == front.take(i as int).push(front[i as int]));
        i += 1;
    }
    assert(front.take(i as int) == front);
    let ghost told = issues.deep_view();
    let mut k: usize = 0;
    assert(front + back.take(0) == front);
    while k < issues.len()
        invariant
            k <= issues.len(),
            told == issues.deep_view(),
            back == told.map_values(|issue: WalkIssueView| walked_issue(provider.deep_view(), issue)),
            inspections.deep_view() == front + back.take(k as int),
        decreases issues.len() - k,
    {
        let ghost before = inspections.deep_view();
        let issue = &issues[k];
        assert(told[k as int] == issue.deep_view());
        let path = match &issue.relative_path {
            Some(relative) => join_path(provider, relative),
            None => provider.duplicate(),
        };
        let inspection = ProviderEntryInspection {
            path,
            state: ProviderEntryState::Unknown,
            detail: Some(issue.message.clone()),
        };
        assert(inspection.deep_view() == back[k as int]);
        inspections.push(inspection);
        assert(inspections.deep_view() == before.push(inspection.deep_view()));
        assert(back.take(k + 1) == back.take(k as int).push(back[k as int]));
        k += 1;
    }
    assert(back.take(k as int) == back);
    inspections
}

pub open spec fn hook_finding(repository: Seq<char>, state: Result<HookState, Seq<char>>) -> DoctorCheckView {
    let area = DiagnosticArea::Hook;
    match state {
        Ok(HookState::Managed) => healthy_check(
            area,
            "hook_managed"@,
            "managed Git hook is installed"@,
            Some(repository),
        ),
        Ok(HookState::Missing) => blocked_check(
            area,
            "hook_missing"@,
            "managed Git hook is not installed"@,
            Some(repository),
            RecoveryKind::Repair,
        ),
        Err(code) => if code == "hook_conflict"@ {
            blocked_check(
                area,
                "hook_conflict"@,
                "a custom Git hook must be preserved"@,
                Some(repository),
                RecoveryKind::ResolveHookConflict,
            )
        } else {
            blocked_check(
                area,
                "hook_unreadable"@,
                "Git hook state could not be inspected"@,
                Some(repository),
                RecoveryKind::Repair,
            )
        },
    }
}

/// The state of the hook, or the code of the error that its inspection gave.
pub open spec fn hook_outcome(state: Result<HookState, MkoError>) -> Result<HookState, Seq<char>> {
    match state {
        Ok(state) => Ok(state),
        Err(failure) => Err(failure.deep_view().code),
    }
}

fn hook_check(repository: &str, state: &Result<HookState, MkoError>) -> (check: DoctorCheck)
    ensures
        check.deep_view() == hook_finding(repository@, hook_outcome(*state)),
{
    match state {
        Ok(state) => match *state {
            HookState::Managed => healthy(
                DiagnosticArea::Hook,
                "hook_managed",
                "managed Git hook is installed",
                Some(repository),
            ),
            HookState::Missing => blocked(
                DiagnosticArea::Hook,
                "hook_missing",
                "managed Git hook is not installed",
                Some(repository),
                RecoveryKind::Repair,
            ),
        },
        Err(failure) => {
            if same(failure.code(), "hook_conflict") {
                blocked(
                    DiagnosticArea::Hook,
                    "hook_conflict",
                    "a custom Git hook must be preserved",
                    Some(repository),
                    RecoveryKind::ResolveHookConflict,
                )
            } else {
                blocked(
                    DiagnosticArea::Hook,
                    "hook_unreadable",
                    "Git hook state could not be inspected",
                    Some(repository),
                    RecoveryKind::Repair,
                )
            }
        },
    }
}

pub open spec fn lock_finding(inspection: LockInspectionView) -> DoctorCheckView {
    let area = DiagnosticArea::Lock;
    match inspection.state {
        LockState::Stale => warning_check(
            area,
            "stale_lock"@,
            "a stale operation lock needs explicit recovery"@,
            Some(inspection.path.text),
            RecoveryKind::Repair,
        ),
        LockState::Unreadable => warning_check(
            area,
            "lock_unreadable"@,
            "an operation lock could not be read"@,
            Some(inspection.path.text),
            RecoveryKind::Repair,
        ),
        LockState::Active => warning_check(
            area,
            "lock_active"@,
            "an operation lock is active"@,
            Some(inspection.path.text),
            RecoveryKind::Retry,
        ),
    }
}

pub open spec fn lock_findings(
    repository: Seq<char>,
    locks: Result<Seq<LockInspectionView>, ()>,
) -> Seq<DoctorCheckView> {
    let area = DiagnosticArea::Lock;
    match locks {
        Ok(inspections) => if inspections.len() == 0 {
            seq![
                healthy_check(
                    area,
                    "locks_clear"@,
                    "no operation locks are present"@,
                    Some(repository),
                ),
            ]
        } else {
            inspections.map_values(|inspection: LockInspectionView| lock_finding(inspection))
        },
        Err(_) => seq![
            warning_check(
                area,
                "lock_unreadable"@,
                "operation locks could not be inspected"@,
                Some(repository),
                RecoveryKind::Repair,
            ),
        ],
    }
}

/// The locks that were found, or that they could not be inspected.
pub open spec fn found_locks(locks: Result<Vec<LockInspection>, MkoError>) -> Result<
    Seq<LockInspectionView>,
    (),
> {
    match locks {
        Ok(inspections) => Ok(inspections.deep_view()),
        Err(_) => Err(()),
    }
}

fn lock_check(inspection: &LockInspection) -> (check: DoctorCheck)
    ensures
        check.deep_view() == lock_finding(inspection.deep_view()),
{
    match inspection.state {
        LockState::Stale => warning(
            DiagnosticArea::Lock,
            "stale_lock",
            "a stale operation lock needs explicit recovery",
            Some(inspection.path.text.as_str()),
            RecoveryKind::Repair,
        ),
        LockState::Unreadable => warning(
            DiagnosticArea::Lock,
            "lock_unreadable",
            "an operation lock could not be read",
            Some(inspection.path.text.as_str()),
            RecoveryKind::Repair,
        ),
        LockState::Active => warning(
            DiagnosticArea::Lock,
            "lock_active",
            "an operation lock is active",
            Some(inspection.path.text.as_str()),
            RecoveryKind::Retry,
        ),
    }
}

fn lock_checks(repository: &str, locks: &Result<Vec<LockInspection>, MkoError>) -> (checks: Vec<
    DoctorCheck,
>)
    ensures
        checks.deep_view() == lock_findings(repository@, found_locks(*locks)),
{
    let mut checks: Vec<DoctorCheck> = Vec::new();
    match locks {
        Ok(inspections) => {
            if inspections.len() == 0 {
                let check = healthy(
                    DiagnosticArea::Lock,
                    "locks_clear",
                    "no operation locks are present",
                    Some(repository),
                );
                checks.push(check);
                assert(checks.deep_view() == seq![check.deep_view()]);
                return checks;
            }
            let ghost all = inspections.deep_view();
            let ghost found = all.map_values(
                |inspection: LockInspectionView| lock_finding(inspection),
            );
            let mut i: usize = 0;
            assert(checks.deep_view() == found.take(0));
            while i < inspections.len()
                invariant
                    i <= inspections.len(),
                    all == inspections.deep_view(),
                    found == all.map_values(
                        |inspection: LockInspectionView| lock_finding(inspection),
                    ),
                    checks.deep_view() == found.take(i as int),
                decreases inspections.len() - i,
            {
                let ghost before = checks.deep_view();
                let check = lock_check(&inspections[i]);
                assert(all[i as int] == inspections@[i as int].deep_view());
                assert(check.deep_view() == found[i as int]);
                checks.push(check);
                assert(checks.deep_view() == before.push(check.deep_view()));
                assert(found.take(i + 1) == found.take(i as int).push(found[i as int]));
                i += 1;
            }
            assert(found.take(i as int) == found);
            checks
        },
        Err(_) => {
            let check = warning(
                DiagnosticArea::Lock,
                "lock_unreadable",
                "operation locks could not be inspected",
                Some(repository),
                RecoveryKind::Repair,
            );
            checks.push(check);
            assert(checks.deep_view() == seq![check.deep_view()]);
            checks
        },
    }
}

/// What was found out about a machine. The provider, the hook and the locks matter only
/// where the selected context has them.
#[derive(Debug)]
pub struct MachineObservation {
    pub profile: ProfileReading,
    pub selected: SelectedContext,
    pub provider: ProviderObservation,
    pub hook: Result<HookState, MkoError>,
    pub locks: Result<Vec<LockInspection>, MkoError>,
}

/// All the checks of a diagnosis, in their order.
pub open spec fn diagnosis(product_version: Seq<char>, observed: MachineObservation) -> Seq<
    DoctorCheckView,
> {
    let area = DiagnosticArea::Product;
    let context = context_finding(observed.selected);
    seq![
        healthy_check(area, "product_version"@, product_version, None),
        healthy_check(area, "contract_version"@, KNOWLEDGE_CONTRACT_VERSION@, None),
        profile_finding(observed.profile),
    ] + context.checks + (match context.provider {
        Some(provider) => provider_findings(provider, observed.provider),
        None => Seq::empty(),
    }) + (match context.repository {
        Some(repository) => seq![hook_finding(repository, hook_outcome(observed.hook))]
            + lock_findings(repository, found_locks(observed.locks)),
        None => Seq::empty(),
    })
}

pub fn diagnose(product_version: &str, observed: MachineObservation) -> (result: DoctorReport)
    ensures
        result.deep_view() == report_on(diagnosis(product_version@, observed)),
{
    let ghost whole = diagnosis(product_version@, observed);
    let context = diagnose_context(&observed.selected);
    let ghost found = context_finding(observed.selected);
    let product = healthy(DiagnosticArea::Product, "product_version", product_version, None);
    let contract = healthy(
        DiagnosticArea::Product,
        "contract_version",
        KNOWLEDGE_CONTRACT_VERSION,
        None,
    );
    let profile = profile_check(&observed.profile);
    let ghost head = seq![product.deep_view(), contract.deep_view(), profile.deep_view()];
    let mut checks: Vec<DoctorCheck> = Vec::new();
    checks.push(product);
    checks.push(contract);
    checks.push(profile);
    assert(checks.deep_view() == head);
    extend(&mut checks, &context.checks);
    let ghost of_provider = match found.provider {
        Some(provider) => provider_findings(provider, observed.provider),
        None => Seq::empty(),
    };
    let ghost of_repository = match found.repository {
        Some(repository) => seq![hook_finding(repository, hook_outcome(observed.hook))]
            + lock_findings(repository, found_locks(observed.locks)),
        None => Seq::empty(),
    };
    let ghost so_far = checks.deep_view();
    match &context.provider {
        Some(provider) => {
            let more = provider_checks(provider, observed.provider);
            extend(&mut checks, &more);
        },
        None => {},
    }
    assert(checks.deep_view() == so_far + of_provider);
    let ghost so_far = checks.deep_view();
    match &context.repository {
        Some(repository) => {
            let hook = hook_check(repository.as_str(), &observed.hook);
            let ghost hooked = hook.deep_view();
            checks.push(hook);
            assert(checks.deep_view() == so_far + seq![hooked]);
            let more = lock_checks(repository.as_str(), &observed.locks);
            extend(&mut checks, &more);
            assert(checks.deep_view() == so_far + (seq![hooked] + more.deep_view()));
        },
        None => {},
    }
    assert(checks.deep_view() == so_far + of_repository);
    assert(checks.deep_view() == whole);
    report(checks)
}

/// The checks at the end of a setup: `inspected` is the canonical root of a compatible
/// repository.
pub open spec fn setup_findings(
    repository: Seq<char>,
    inspected: Option<Seq<char>>,
    provider: LocalPathView,
    observed: ProviderObservation,
    hook: Result<HookState, Seq<char>>,
    locks: Result<Seq<LockInspectionView>, ()>,
) -> Seq<DoctorCheckView> {
    seq![
        match inspected {
            Some(root) => compatible_repository(root),
            None => incompatible_repository(repository),
        },
    ] + provider_findings(provider, observed) + seq![hook_finding(repository, hook)]
        + lock_findings(repository, locks)
}

pub fn final_setup_checks(
    repository: &str,
    inspected: &Option<String>,
    provider: &LocalPath,
    observed: ProviderObservation,
    hook: &Result<HookState, MkoError>,
    locks: &Result<Vec<LockInspection>, MkoError>,
) -> (checks: Vec<DoctorCheck>)
    ensures
        checks.deep_view() == setup_findings(
            repository@,
            inspected.deep_view(),
            provider.deep_view(),
            observed,
            hook_outcome(*hook),
            found_locks(*locks),
        ),
{
    let first = match inspected {
        Some(root) => healthy(
            DiagnosticArea::Repository,
            "repository_access",
            "repository is compatible",
            Some(root.as_str()),
        ),
        None => blocked(
            DiagnosticArea::Repository,
            "repository_incompatible",
            "repository is not a compatible Personal knowledge base",
            Some(repository),
            RecoveryKind::Configure,
        ),
    };
    let ghost head = first.deep_view();
    let mut checks: Vec<DoctorCheck> = Vec::new();
    checks.push(first);
    assert(checks.deep_view() == seq![head]);
    let more = provider_checks(provider, observed);
    extend(&mut checks, &more);
    let ghost so_far = checks.deep_view();
    let hooked = hook_check(repository, hook);
    let ghost on_hook = hooked.deep_view();
    checks.push(hooked);
    assert(checks.deep_view() == so_far + seq![on_hook]);
    let locked = lock_checks(repository, locks);
    extend(&mut checks, &locked);
    checks
}

/// Whether a setup is healthy, and its most urgent problem otherwise.
pub fn setup_checks_are_healthy(checks: &Vec<DoctorCheck>) -> (result: Result<(), DoctorCheck>)
    ensures
        match result {
            Ok(_) => all_healthy(checks.deep_view()),
            Err(failed) => !all_healthy(checks.deep_view()) && primary(checks.deep_view()) == Some(
                failed.deep_view(),
            ),
        },
{
    match primary_issue(checks) {
        Some(failed) => {
            proof {
                primary_is_most_urgent(checks.deep_view(), checks.deep_view().len() as int);
            }
            Err(failed.duplicate())
        },
        None => {
            proof {
                primary_is_most_urgent(checks.deep_view(), checks.deep_view().len() as int);
            }
            Ok(())
        },
    }
}

/// A set of checks has a primary issue exactly where one of them is not healthy. No other
/// problem is more urgent, and none that is as urgent comes before it.
pub proof fn primary_is_most_urgent(checks: Seq<DoctorCheckView>, n: int)
    requires
        0 <= n <= checks.len(),
    ensures
        primary_at(checks, n) is None ==> forall|k: int|
            0 <= k < n ==> #[trigger] checks[k].status == DoctorCheckStatus::Healthy,
        primary_at(checks, n) matches Some(at) ==> {
            &&& 0 <= at < n
            &&& checks[at].status != DoctorCheckStatus::Healthy
            &&& forall|k: int|
                0 <= k < n && #[trigger] checks[k].status != DoctorCheckStatus::Healthy
                    ==> issue_rank(checks[at].code) <= issue_rank(checks[k].code)
            &&& forall|k: int|
                0 <= k < at && #[trigger] checks[k].status != DoctorCheckStatus::Healthy
                    ==> issue_rank(checks[at].code) < issue_rank(checks[k].code)
        },
    decreases n,
{
    if n > 0 {
        primary_is_most_urgent(checks, n - 1);
    }
}

/// A report asks for nothing exactly where it is healthy.
pub proof fn healthy_reports_ask_for_nothing(checks: Seq<DoctorCheckView>)
    ensures
        report_on(checks).healthy == (report_on(checks).next_action == NextAction::Nothing),
{
    primary_is_most_urgent(checks, checks.len() as int);
}

} // verus!

use std::cell::Cell;

use mko_core::doctor::{
    diagnose, diagnose_context, final_setup_checks, inspect_macos_pdf_attributes,
    inspect_provider_entries, inspect_windows_pdf_attributes, provider_checks,
    provider_entry_checks, provider_identity_check, setup_checks_are_healthy, state_after_access,
    DiagnosticArea, DoctorCheck, DoctorReport, DoctorRequest, MachineObservation, ProfileReading,
    ProviderAccessInspection, ProviderDirectory, ProviderEntryInspection, ProviderEntryState,
    ProviderObservation, SelectedContext, WalkIssue,
};
use mko_core::error::MkoError;
use mko_core::hooks::HookState;
use mko_core::json_v1::{DoctorCheckStatus, NextAction, RecoveryKind};
use mko_core::local_path::{LocalPath, PathStep};
use mko_core::lock::{LockInspection, LockState};

fn posix(text: &str) -> LocalPath {
    let mut steps: Vec<PathStep> = Vec::new();
    if text.starts_with('/') {
        steps.push(PathStep::Root);
    }
    for (index, name) in text.split('/').enumerate() {
        match name {
            "" => {}
            "." if index > 0 => {}
            "." => steps.push(PathStep::Current),
            ".." => steps.push(PathStep::Parent),
            _ => steps.push(PathStep::Name(name.into())),
        }
    }
    LocalPath {
        text: text.into(),
        drive: String::new(),
        separator: '/',
        is_verbatim: false,
        is_absolute: text.starts_with('/'),
        steps,
    }
}

fn windows(drive: &str, rest: &str) -> LocalPath {
    let mut steps: Vec<PathStep> = Vec::new();
    if !drive.is_empty() {
        steps.push(PathStep::Prefix(drive.to_uppercase()));
    }
    if rest.starts_with('\\') {
        steps.push(PathStep::Root);
    }
    for (index, name) in rest.split(&['\\', '/'][..]).enumerate() {
        match name {
            "" => {}
            "." if index > 0 => {}
            "." => steps.push(PathStep::Current),
            ".." => steps.push(PathStep::Parent),
            _ => steps.push(PathStep::Name(name.into())),
        }
    }
    LocalPath {
        text: format!("{drive}{rest}"),
        drive: drive.into(),
        separator: '\\',
        is_verbatim: drive.starts_with("\\\\?\\"),
        is_absolute: !drive.is_empty() && rest.starts_with('\\'),
        steps,
    }
}

#[test]
fn windows_placeholder_attributes_skip_effective_access_data_open() {
    for attributes in [0x0000_1000, 0x0004_0000, 0x0040_0000] {
        let calls = Cell::new(0);
        let state = inspect_windows_pdf_attributes(attributes, || {
            calls.set(calls.get() + 1);
            ProviderAccessInspection::Allowed
        });

        assert_eq!(state, ProviderEntryState::NotHydrated);
        assert_eq!(calls.get(), 0, "attributes {attributes:#010x}");
    }
}

#[test]
fn windows_non_placeholder_denied_access_is_unreadable() {
    let calls = Cell::new(0);
    let state = inspect_windows_pdf_attributes(0, || {
        calls.set(calls.get() + 1);
        ProviderAccessInspection::Denied
    });

    assert_eq!(state, ProviderEntryState::Unreadable);
    assert_eq!(calls.get(), 1);
}

const INBOX: &str = "/drive/account/My-Knowledge-OS-Assets/personal/inbox";

fn observed() -> ProviderObservation {
    ProviderObservation {
        directory: ProviderDirectory::Real,
        read: ProviderAccessInspection::Allowed,
        write: ProviderAccessInspection::Allowed,
        entries: Ok(vec![]),
    }
}

fn machine() -> MachineObservation {
    MachineObservation {
        profile: ProfileReading::Valid { path: "/profile".into() },
        selected: SelectedContext::Repository {
            repository_root: "repo".into(),
            inspected: Some("/repo".into()),
            provider: Some(posix(INBOX)),
        },
        provider: observed(),
        hook: Ok(HookState::Managed),
        locks: Ok(vec![]),
    }
}

fn codes(checks: &[DoctorCheck]) -> Vec<&str> {
    checks.iter().map(|check| check.code.as_str()).collect()
}

fn diagnosed(edit: impl FnOnce(&mut MachineObservation)) -> DoctorReport {
    let mut found = machine();
    edit(&mut found);
    diagnose("0.3.0", found)
}

#[test]
fn healthy_machines_need_nothing() {
    let report = diagnosed(|_| {});
    assert!(report.healthy);
    assert_eq!(report.next_action, NextAction::Nothing);
    assert!(report.primary_issue().is_none());
    assert_eq!(
        codes(&report.checks),
        [
            "product_version",
            "contract_version",
            "profile_valid",
            "repository_access",
            "provider_inbox",
            "provider_readable",
            "provider_writable",
            "provider_hydration",
            "hook_managed",
            "locks_clear"
        ]
    );
    assert_eq!(report.checks[0].message, "0.3.0");
    assert_eq!(report.checks[1].message, "0.1.0");
    assert_eq!(report.checks[3].path.as_deref(), Some("/repo"));
    assert!(report.checks.iter().all(|check| check.recovery.is_none()));
}

#[test]
fn the_most_urgent_issue_comes_first() {
    let report = diagnosed(|m| {
        m.locks = Ok(vec![LockInspection { path: posix("/l"), state: LockState::Active }]);
        m.hook = Ok(HookState::Missing);
    });
    assert!(!report.healthy);
    assert_eq!(report.primary_issue().unwrap().code, "hook_missing");
    assert_eq!(report.next_action, NextAction::Repair);
    let report = diagnosed(|m| {
        m.locks = Ok(vec![LockInspection { path: posix("/l"), state: LockState::Active }]);
    });
    assert_eq!(report.next_action, NextAction::Retry);
    let lock = report.primary_issue().unwrap();
    assert_eq!((lock.area, lock.status), (DiagnosticArea::Lock, DoctorCheckStatus::Warning));
    assert_eq!(lock.recovery, Some(RecoveryKind::Retry));
    let report = diagnosed(|m| m.profile = ProfileReading::Missing { path: "/p".into() });
    assert_eq!(report.next_action, NextAction::Configure);
    let report = diagnosed(|m| {
        m.provider.entries =
            Ok(vec![ProviderEntryInspection::new(posix("a.pdf"), ProviderEntryState::NotHydrated)]);
    });
    assert_eq!(report.next_action, NextAction::Hydrate);
}

#[test]
fn locks_and_hooks_are_told_apart() {
    let found = |state| {
        let report = diagnosed(|m| m.locks = Ok(vec![LockInspection { path: posix("/l"), state }]));
        report.primary_issue().unwrap().code.clone()
    };
    assert_eq!(found(LockState::Stale), "stale_lock");
    assert_eq!(found(LockState::Unreadable), "lock_unreadable");
    assert_eq!(found(LockState::Active), "lock_active");
    let unlisted = diagnosed(|m| m.locks = Err(MkoError::new("x", "m")));
    assert_eq!(
        unlisted.primary_issue().unwrap().message,
        "operation locks could not be inspected"
    );
    let conflict = diagnosed(|m| m.hook = Err(MkoError::new("hook_conflict", "m")));
    assert_eq!(
        conflict.primary_issue().unwrap().recovery,
        Some(RecoveryKind::ResolveHookConflict)
    );
    let unread = diagnosed(|m| m.hook = Err(MkoError::new("git_unavailable", "m")));
    assert_eq!(unread.primary_issue().unwrap().code, "hook_unreadable");
}

#[test]
fn contexts_select_what_is_inspected() {
    let absent = diagnose_context(&SelectedContext::Failed { code: "context_not_found".into() });
    assert_eq!((absent.checks.len(), absent.repository, absent.provider), (0, None, None));
    let profile = diagnose_context(&SelectedContext::Failed { code: "profile_invalid".into() });
    assert!(profile.checks.is_empty());
    let other = diagnose_context(&SelectedContext::Failed { code: "x".into() });
    assert_eq!(other.checks[0].message, "repository context could not be inspected");
    let loose = diagnose_context(&SelectedContext::Repository {
        repository_root: "r".into(),
        inspected: Some("/r".into()),
        provider: None,
    });
    assert_eq!(codes(&loose.checks), ["repository_access", "provider_missing"]);
    assert_eq!(loose.repository.as_deref(), Some("/r"));
    let broken = diagnose_context(&SelectedContext::Profile {
        repository_root: "r".into(),
        inspected: None,
        provider_root: posix(INBOX),
    });
    assert_eq!(codes(&broken.checks), ["repository_incompatible"]);
    assert_eq!((broken.repository, broken.provider), (None, Some(posix(INBOX))));
    let unreadable = diagnosed(|m| m.profile = ProfileReading::LocationUnknown);
    assert_eq!(
        unreadable.primary_issue().unwrap().message,
        "machine profile location could not be inspected"
    );
}

#[test]
fn providers_are_the_exact_inbox() {
    let real = ProviderDirectory::Real;
    let check = |path: &str, directory| provider_identity_check(&posix(path), directory).code;
    assert_eq!(check(INBOX, real), "provider_inbox");
    assert_eq!(check("/a//My-Knowledge-OS-Assets/./personal/inbox/", real), "provider_inbox");
    for path in [
        "drive/My-Knowledge-OS-Assets/personal/inbox",
        "/My-Knowledge-OS-Assets/personal/inbox",
        "/a/My-Knowledge-OS-Assets/personal/inbox/b",
        "/a/my-knowledge-os-assets/personal/inbox",
        "/a/../My-Knowledge-OS-Assets/personal/inbox",
    ] {
        assert_eq!(check(path, real), "provider_root_invalid", "{path}");
    }
    assert_eq!(check(INBOX, ProviderDirectory::Absent), "provider_missing");
    assert_eq!(check(INBOX, ProviderDirectory::Other), "provider_root_invalid");
    let mut gone = observed();
    gone.directory = ProviderDirectory::Absent;
    assert_eq!(codes(&provider_checks(&posix(INBOX), gone)), ["provider_missing"]);
    let mut closed = observed();
    closed.read = ProviderAccessInspection::Denied;
    closed.write = ProviderAccessInspection::Indeterminate("why".into());
    let checks = provider_checks(&posix(INBOX), closed);
    assert_eq!(
        codes(&checks),
        [
            "provider_inbox",
            "provider_unreadable",
            "provider_write_inspection_failed",
            "provider_hydration"
        ]
    );
    assert_eq!(
        checks[2].message,
        "Personal Inbox write access could not be determined: why"
    );
}

#[test]
fn inboxes_are_found_on_every_machine() {
    let check = |path: &LocalPath| provider_identity_check(path, ProviderDirectory::Real);
    let inbox = windows("C:", "\\account\\My-Knowledge-OS-Assets\\personal\\inbox");
    assert_eq!(check(&inbox).code, "provider_inbox");
    assert_eq!(
        check(&inbox).path.as_deref(),
        Some("C:\\account\\My-Knowledge-OS-Assets\\personal\\inbox")
    );
    let mixed = windows("C:", "\\a/My-Knowledge-OS-Assets/personal\\inbox\\");
    assert_eq!(check(&mixed).code, "provider_inbox");
    for path in [
        windows("", "\\a\\My-Knowledge-OS-Assets\\personal\\inbox"),
        windows("C:", "a\\My-Knowledge-OS-Assets\\personal\\inbox"),
        windows("C:", "\\My-Knowledge-OS-Assets\\personal\\inbox"),
        windows("C:", "\\a\\My-Knowledge-OS-Assets\\inbox"),
    ] {
        assert_eq!(check(&path).code, "provider_root_invalid", "{}", path.text);
    }
    let found = inspect_provider_entries(
        &inbox,
        &vec![windows("", "b\\a.pdf"), windows("", "b a.pdf")],
        &vec![ProviderEntryState::Corrupt, ProviderEntryState::Unreadable],
        &vec![],
    );
    assert_eq!(
        found[0].path,
        windows("C:", "\\account\\My-Knowledge-OS-Assets\\personal\\inbox\\b\\a.pdf")
    );
    let checks = provider_entry_checks(&inbox.text, Ok(found));
    assert_eq!(codes(&checks), ["provider_pdf_corrupt", "provider_pdf_unreadable"]);
}

#[test]
fn entries_are_reported_in_order() {
    let entry = |path: &str, state| ProviderEntryInspection::new(posix(path), state);
    let checks = provider_entry_checks(
        INBOX,
        Ok(vec![
            entry("/b", ProviderEntryState::Corrupt),
            entry("/a b/c", ProviderEntryState::Unreadable),
            entry("/a/d", ProviderEntryState::NotHydrated),
            entry("/e", ProviderEntryState::Hydrated),
            ProviderEntryInspection::with_detail(posix("/f"), ProviderEntryState::Unknown, "why"),
        ]),
    );
    assert_eq!(
        codes(&checks),
        [
            "provider_hydration_failed",
            "provider_pdf_unreadable",
            "provider_pdf_corrupt",
            "provider_inspection_failed"
        ]
    );
    assert_eq!(
        checks[3].message,
        "a Personal PDF hydration state could not be determined: why"
    );
    let unsupported =
        provider_entry_checks(INBOX, Ok(vec![entry("/a", ProviderEntryState::Unsupported)]));
    assert_eq!(codes(&unsupported), ["provider_hydration_unsupported"]);
    let failed = provider_entry_checks(INBOX, Err("why".into()));
    assert_eq!(failed[0].message, "Personal Inbox entries could not be inspected: why");
}

#[test]
fn access_decides_the_state_of_an_entry() {
    assert_eq!(state_after_access(ProviderAccessInspection::Allowed, false), ProviderEntryState::Hydrated);
    assert_eq!(state_after_access(ProviderAccessInspection::Allowed, true), ProviderEntryState::Unsupported);
    assert_eq!(state_after_access(ProviderAccessInspection::Denied, true), ProviderEntryState::Unreadable);
    assert_eq!(state_after_access(ProviderAccessInspection::Indeterminate("m".into()), false), ProviderEntryState::Unknown);
    assert_eq!(
        inspect_macos_pdf_attributes(0x4000_0000, || ProviderAccessInspection::Allowed),
        ProviderEntryState::NotHydrated
    );
    assert_eq!(inspect_macos_pdf_attributes(1, || ProviderAccessInspection::Allowed), ProviderEntryState::Hydrated);
    let found = inspect_provider_entries(
        &posix("/in"),
        &vec![posix("a.pdf")],
        &vec![ProviderEntryState::Hydrated],
        &vec![
            WalkIssue { relative_path: Some(posix("b")), message: "m".into() },
            WalkIssue { relative_path: None, message: "n".into() },
        ],
    );
    let paths: Vec<&str> = found.iter().map(|entry| entry.path.text.as_str()).collect();
    assert_eq!(paths, ["/in/a.pdf", "/in/b", "/in"]);
    assert_eq!(found[1].state, ProviderEntryState::Unknown);
    assert_eq!(found[2].detail.as_deref(), Some("n"));
    assert_eq!(found[0].path, posix("/in/a.pdf"));
}

#[test]
fn setups_must_be_healthy() {
    let checks = final_setup_checks(
        "repo",
        &Some("/repo".into()),
        &posix(INBOX),
        observed(),
        &Ok(HookState::Managed),
        &Ok(vec![]),
    );
    assert!(setup_checks_are_healthy(&checks).is_ok());
    let checks = final_setup_checks(
        "repo",
        &None,
        &posix(INBOX),
        observed(),
        &Ok(HookState::Missing),
        &Ok(vec![]),
    );
    let failed = setup_checks_are_healthy(&checks).unwrap_err();
    assert_eq!(failed.code, "repository_incompatible");
    assert_eq!(failed.path.as_deref(), Some("repo"));
    let request = DoctorRequest::new();
    assert_eq!(request.repository_root(), &None);
    assert_eq!(request.with_repository("/r").repository_root().as_deref(), Some("/r"));
}

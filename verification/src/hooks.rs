//! The pre-commit hook that checks a repository of the first format.

use crate::error::{error, outcome, verdict, ErrorView, MkoError};
use crate::text::{same, same_bytes, trim, trimmed};
use vstd::prelude::*;
use vstd::utf8::encode_utf8;

verus! {

/// The managed hook.
pub const PRE_COMMIT_SCRIPT: &'static str = "#!/usr/bin/env bash\n# My Knowledge OS pre-commit v0.1\nset -euo pipefail\nmko check --repo \"$(git rev-parse --show-toplevel)\" --staged\n";

#[derive(Clone, Debug, PartialEq, Eq)]
pub struct HookInstallResult {
    pub result: String,
    pub hook_path: String,
}

#[verifier::ext_equal]
pub struct HookInstallResultView {
    pub result: Seq<char>,
    pub hook_path: Seq<char>,
}

impl DeepView for HookInstallResult {
    type V = HookInstallResultView;

    open spec fn deep_view(&self) -> HookInstallResultView {
        HookInstallResultView { result: self.result@, hook_path: self.hook_path@ }
    }
}

#[derive(Clone, Copy, Debug, PartialEq, Eq, Structural)]
pub enum HookState {
    Missing,
    Managed,
}

#[derive(Clone, Debug, PartialEq, Eq)]
pub struct HookInspection {
    pub repository_root: String,
    pub state: HookState,
}

#[verifier::ext_equal]
pub struct HookInspectionView {
    pub repository_root: Seq<char>,
    pub state: HookState,
}

impl DeepView for HookInspection {
    type V = HookInspectionView;

    open spec fn deep_view(&self) -> HookInspectionView {
        HookInspectionView { repository_root: self.repository_root@, state: self.state }
    }
}

/// What stands at the place of the hook directory.
#[derive(Clone, Debug, PartialEq, Eq)]
pub enum HookDirectory {
    Absent,
    Real,
    NotDirectory,
    Unreadable { detail: String },
}

/// What stands at the place of the hook.
#[derive(Clone, Debug, PartialEq, Eq)]
pub enum HookFile {
    Absent,
    Regular { content: Vec<u8>, executable: bool },
    NotRegular,
    Unreadable { detail: String },
}

/// The content is that of the managed hook.
pub open spec fn is_managed_script(content: Seq<u8>) -> bool {
    content == encode_utf8(PRE_COMMIT_SCRIPT@)
}

pub(crate) fn managed_script(content: &Vec<u8>) -> (result: bool)
    ensures
        result == is_managed_script(content@),
{
    same_bytes(content.as_slice(), PRE_COMMIT_SCRIPT.as_bytes())
}

/// The state of the hook. Another hook path and another script are left alone.
pub open spec fn hook_state(
    configured: Option<Seq<char>>,
    directory: HookDirectory,
    file: HookFile,
) -> Result<HookState, ErrorView> {
    if configured is Some && configured->0 != ".githooks"@ {
        Err(
            error(
                "hook_conflict"@,
                "custom core.hooksPath is configured; preserve it explicitly"@,
            ),
        )
    } else {
        match directory {
            HookDirectory::NotDirectory => Err(
                error("hook_path_invalid"@, ".githooks must be a real directory"@),
            ),
            HookDirectory::Unreadable { detail } => Err(
                error("hook_inspection_failed"@, detail@),
            ),
            HookDirectory::Absent => Ok(HookState::Missing),
            HookDirectory::Real => match file {
                HookFile::NotRegular => Err(
                    error("hook_path_invalid"@, "pre-commit hook must be a regular file"@),
                ),
                HookFile::Unreadable { detail } => Err(
                    error("hook_inspection_failed"@, detail@),
                ),
                HookFile::Absent => Ok(HookState::Missing),
                HookFile::Regular { content, executable } => if !is_managed_script(content@) {
                    Err(
                        error(
                            "hook_conflict"@,
                            "existing pre-commit hook is materially different; preserve or integrate it explicitly"@,
                        ),
                    )
                } else if executable && configured is Some {
                    Ok(HookState::Managed)
                } else {
                    Ok(HookState::Missing)
                },
            },
        }
    }
}

/// `configured` is the effective hook path of Git, if one is set.
pub fn inspect_hook(
    repository_root: String,
    configured: &Option<String>,
    directory: &HookDirectory,
    file: &HookFile,
) -> (result: Result<HookInspection, MkoError>)
    ensures
        outcome(result) == (match hook_state(configured.deep_view(), *directory, *file) {
            Err(failure) => Err(failure),
            Ok(state) => Ok(HookInspectionView { repository_root: repository_root@, state }),
        }),
{
    let points_here = match configured {
        Some(path) => {
            if !same(path.as_str(), ".githooks") {
                return Err(
                    MkoError::new(
                        "hook_conflict",
                        "custom core.hooksPath is configured; preserve it explicitly",
                    ),
                );
            }
            true
        },
        None => false,
    };
    match directory {
        HookDirectory::Real => {},
        HookDirectory::NotDirectory => {
            return Err(MkoError::new("hook_path_invalid", ".githooks must be a real directory"));
        },
        HookDirectory::Absent => {
            return Ok(HookInspection { repository_root, state: HookState::Missing });
        },
        HookDirectory::Unreadable { detail } => {
            return Err(MkoError::new("hook_inspection_failed", detail.as_str()));
        },
    }
    let managed = match file {
        HookFile::Regular { content, executable } => {
            if !managed_script(content) {
                return Err(
                    MkoError::new(
                        "hook_conflict",
                        "existing pre-commit hook is materially different; preserve or integrate it explicitly",
                    ),
                );
            }
            *executable
        },
        HookFile::NotRegular => {
            return Err(
                MkoError::new("hook_path_invalid", "pre-commit hook must be a regular file"),
            );
        },
        HookFile::Absent => false,
        HookFile::Unreadable { detail } => {
            return Err(MkoError::new("hook_inspection_failed", detail.as_str()));
        },
    };
    Ok(
        HookInspection {
            repository_root,
            state: if managed && points_here {
                HookState::Managed
            } else {
                HookState::Missing
            },
        },
    )
}

/// How the hook is installed.
#[derive(Clone, Copy, Debug, PartialEq, Eq, Structural)]
pub enum HookInstallPlan {
    /// Nothing is left to do.
    Installed,
    /// Make what is missing, then mark the hook executable and point Git at it.
    Install { create_directory: bool, write_hook: bool },
}

/// What installing takes; what another hand put there is never replaced.
pub open spec fn install_plan(
    state: HookState,
    directory: HookDirectory,
    file: HookFile,
) -> Result<HookInstallPlan, ErrorView> {
    if state == HookState::Managed {
        Ok(HookInstallPlan::Installed)
    } else {
        match directory {
            HookDirectory::NotDirectory => Err(
                error("hook_path_invalid"@, ".githooks must be a real directory"@),
            ),
            HookDirectory::Unreadable { detail } => Err(error("hook_install_failed"@, detail@)),
            _ => match file {
                HookFile::NotRegular => Err(
                    error("hook_path_invalid"@, "pre-commit hook must be a regular file"@),
                ),
                HookFile::Unreadable { detail } => Err(error("hook_install_failed"@, detail@)),
                HookFile::Regular { content, .. } => if is_managed_script(content@) {
                    Ok(
                        HookInstallPlan::Install {
                            create_directory: directory is Absent,
                            write_hook: false,
                        },
                    )
                } else {
                    Err(
                        error(
                            "hook_conflict"@,
                            "existing pre-commit hook is materially different; preserve or integrate it explicitly"@,
                        ),
                    )
                },
                HookFile::Absent => Ok(
                    HookInstallPlan::Install {
                        create_directory: directory is Absent,
                        write_hook: true,
                    },
                ),
            },
        }
    }
}

pub fn install_hooks(state: HookState, directory: &HookDirectory, file: &HookFile) -> (result: Result<
    HookInstallPlan,
    MkoError,
>)
    ensures
        match result {
            Ok(plan) => install_plan(state, *directory, *file) == Ok::<HookInstallPlan, ErrorView>(
                plan,
            ),
            Err(failure) => install_plan(state, *directory, *file) == Err::<
                HookInstallPlan,
                ErrorView,
            >(failure.deep_view()),
        },
{
    if state == HookState::Managed {
        return Ok(HookInstallPlan::Installed);
    }
    let create_directory = match directory {
        HookDirectory::Real => false,
        HookDirectory::NotDirectory => {
            return Err(MkoError::new("hook_path_invalid", ".githooks must be a real directory"));
        },
        HookDirectory::Absent => true,
        HookDirectory::Unreadable { detail } => {
            return Err(MkoError::new("hook_install_failed", detail.as_str()));
        },
    };
    match file {
        HookFile::NotRegular => Err(
            MkoError::new("hook_path_invalid", "pre-commit hook must be a regular file"),
        ),
        HookFile::Regular { content, executable: _ } => {
            if !managed_script(content) {
                return Err(
                    MkoError::new(
                        "hook_conflict",
                        "existing pre-commit hook is materially different; preserve or integrate it explicitly",
                    ),
                );
            }
            Ok(HookInstallPlan::Install { create_directory, write_hook: false })
        },
        HookFile::Absent => Ok(HookInstallPlan::Install { create_directory, write_hook: true }),
        HookFile::Unreadable { detail } => Err(
            MkoError::new("hook_install_failed", detail.as_str()),
        ),
    }
}

/// What a finished installation reports.
pub fn hook_installed() -> (result: HookInstallResult)
    ensures
        result.deep_view() == (HookInstallResultView {
            result: "installed"@,
            hook_path: ".githooks/pre-commit"@,
        }),
{
    HookInstallResult {
        result: "installed".to_owned(),
        hook_path: ".githooks/pre-commit".to_owned(),
    }
}

/// The hook reads records of the first format only; in a repository of the second it would
/// refuse every commit, so it is not installed there.
pub fn refuse_on_v2_knowledge_base(is_v2: bool) -> (result: Result<(), MkoError>)
    ensures
        verdict(result) == (if is_v2 {
            Err(
                error(
                    "hook_not_supported"@,
                    "the pre-commit check reads v0.1 records only and would reject every v0.3 revision; no hook was installed"@,
                ),
            )
        } else {
            Ok(())
        }),
{
    if is_v2 {
        return Err(
            MkoError::new(
                "hook_not_supported",
                "the pre-commit check reads v0.1 records only and would reject every v0.3 revision; no hook was installed",
            ),
        );
    }
    Ok(())
}

/// The hook path that Git answered: it succeeds with a value, or exits with one when none
/// is set. `output` is nothing when the answer is not valid UTF-8.
pub fn configured_hook_path(success: bool, exit_code: Option<i32>, output: Option<String>) -> (result:
    Result<Option<String>, MkoError>)
    ensures
        outcome(result) == (if success {
            match output.deep_view() {
                Some(value) => Ok(Some(trim(value))),
                None => Err(error("hook_inspection_failed"@, "hook path is not UTF-8"@)),
            }
        } else if exit_code == Some(1i32) {
            Ok(None)
        } else {
            Err(error("hook_inspection_failed"@, "cannot inspect effective core.hooksPath"@))
        }),
{
    if success {
        return match output {
            Some(value) => Ok(Some(trimmed(value.as_str()).to_owned())),
            None => Err(MkoError::new("hook_inspection_failed", "hook path is not UTF-8")),
        };
    }
    if let Some(code) = exit_code {
        if code == 1 {
            return Ok(None);
        }
    }
    Err(MkoError::new("hook_inspection_failed", "cannot inspect effective core.hooksPath"))
}

/// Refuses a directory that is not the root of a Git worktree: `top` is the canonical root
/// that Git names, or what kept it from being found.
pub fn validate_git_root(repository_root: &str, success: bool, top: Result<String, MkoError>) -> (result:
    Result<(), MkoError>)
    ensures
        verdict(result) == (if !success {
            Err(error("git_repository_required"@, "repository is not a Git worktree"@))
        } else {
            match outcome(top) {
                Err(failure) => Err(failure),
                Ok(path) => if path == repository_root@ {
                    Ok(())
                } else {
                    Err(
                        error(
                            "git_repository_required"@,
                            "--repo must name the Git worktree root"@,
                        ),
                    )
                },
            }
        }),
{
    if !success {
        return Err(MkoError::new("git_repository_required", "repository is not a Git worktree"));
    }
    match top {
        Err(failure) => Err(failure),
        Ok(path) => {
            if same(path.as_str(), repository_root) {
                Ok(())
            } else {
                Err(
                    MkoError::new(
                        "git_repository_required",
                        "--repo must name the Git worktree root",
                    ),
                )
            }
        },
    }
}

/// A hook that another hand wrote is neither taken for the managed one nor replaced.
pub proof fn foreign_hooks_are_preserved(
    configured: Option<Seq<char>>,
    state: HookState,
    content: Vec<u8>,
    executable: bool,
)
    requires
        !is_managed_script(content@),
        configured is None || configured->0 == ".githooks"@,
        state == HookState::Missing,
    ensures
        hook_state(
            configured,
            HookDirectory::Real,
            HookFile::Regular { content, executable },
        ) is Err,
        install_plan(state, HookDirectory::Real, HookFile::Regular { content, executable }) is Err,
{
}

} // verus!

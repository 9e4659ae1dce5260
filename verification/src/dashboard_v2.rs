//! The generated dashboard of a repository, which is never written over.

use crate::atomic::AtomicWriteResult;
use crate::error::{error, outcome, verdict, ErrorView, MkoError};
use crate::text::{cat3, same_bytes};
use vstd::prelude::*;
use vstd::utf8::encode_utf8;

verus! {

pub const HOME_PATH: &'static str = "HOME.md";

pub const HOME_CONTENT: &'static str = "---\ntype: dashboard\ngenerated_by: my-knowledge-os\n---\n\n# My Knowledge OS\n\n## 검토 대기\n\n![[views/review-queue.base]]\n\n## 승인된 지식\n\n![[views/knowledge-library.base]]\n\n터미널에서는 `mko queue`로 같은 검토 대기열을 확인할 수 있습니다.\n";

pub const REVIEW_QUEUE_PATH: &'static str = "views/review-queue.base";

pub const REVIEW_QUEUE_CONTENT: &'static str = "filters:\n  and:\n    - file.inFolder(\"views/records\")\n    - 'derived_state != \"approved\"'\nviews:\n  - type: table\n    name: Review Queue\n    order:\n      - title\n      - record_type\n      - derived_state\n      - domain\n      - current_revision\n";

pub const KNOWLEDGE_LIBRARY_PATH: &'static str = "views/knowledge-library.base";

pub const KNOWLEDGE_LIBRARY_CONTENT: &'static str = "filters:\n  and:\n    - file.inFolder(\"views/records\")\n    - 'record_type == \"knowledge\"'\n    - 'derived_state == \"approved\"'\nviews:\n  - type: table\n    name: Knowledge Library\n    order:\n      - title\n      - domain\n      - tags\n      - current_revision\n";

/// A file of the dashboard.
#[derive(Clone, Debug, PartialEq, Eq)]
pub struct GeneratedFileV2 {
    pub path: String,
    pub content: String,
}

#[verifier::ext_equal]
pub struct GeneratedFileV2View {
    pub path: Seq<char>,
    pub content: Seq<char>,
}

impl DeepView for GeneratedFileV2 {
    type V = GeneratedFileV2View;

    open spec fn deep_view(&self) -> GeneratedFileV2View {
        GeneratedFileV2View { path: self.path@, content: self.content@ }
    }
}

/// The files of the dashboard, in the order in which they are written.
pub open spec fn dashboard_files() -> Seq<GeneratedFileV2View> {
    seq![
        GeneratedFileV2View { path: HOME_PATH@, content: HOME_CONTENT@ },
        GeneratedFileV2View { path: REVIEW_QUEUE_PATH@, content: REVIEW_QUEUE_CONTENT@ },
        GeneratedFileV2View { path: KNOWLEDGE_LIBRARY_PATH@, content: KNOWLEDGE_LIBRARY_CONTENT@ },
    ]
}

pub fn generated_files() -> (files: Vec<GeneratedFileV2>)
    ensures
        files.deep_view() == dashboard_files(),
{
    let mut files: Vec<GeneratedFileV2> = Vec::new();
    files.push(
        GeneratedFileV2 { path: HOME_PATH.to_owned(), content: HOME_CONTENT.to_owned() },
    );
    files.push(
        GeneratedFileV2 {
            path: REVIEW_QUEUE_PATH.to_owned(),
            content: REVIEW_QUEUE_CONTENT.to_owned(),
        },
    );
    files.push(
        GeneratedFileV2 {
            path: KNOWLEDGE_LIBRARY_PATH.to_owned(),
            content: KNOWLEDGE_LIBRARY_CONTENT.to_owned(),
        },
    );
    assert(files.deep_view() == dashboard_files());
    files
}

#[derive(Clone, Copy, Debug, PartialEq, Eq, Structural)]
pub enum DashboardOutcomeV2 {
    Created,
    Existing,
}

#[derive(Clone, Debug, PartialEq, Eq)]
pub struct DashboardResultV2 {
    pub outcome: DashboardOutcomeV2,
    pub generated_files: Vec<String>,
}

#[verifier::ext_equal]
pub struct DashboardResultV2View {
    pub outcome: DashboardOutcomeV2,
    pub generated_files: Seq<Seq<char>>,
}

impl DeepView for DashboardResultV2 {
    type V = DashboardResultV2View;

    open spec fn deep_view(&self) -> DashboardResultV2View {
        DashboardResultV2View {
            outcome: self.outcome,
            generated_files: self.generated_files.deep_view(),
        }
    }
}

/// What already stands at the place of a generated file.
#[derive(Clone, Debug, PartialEq, Eq)]
pub enum ExistingDashboardFile {
    Unreadable { detail: String },
    NotRegular,
    Regular { content: Vec<u8> },
}

/// A file that is there must be exactly the generated one; an edited one is kept.
pub open spec fn drift_check(path: Seq<char>, expected: Seq<char>, existing: ExistingDashboardFile) -> Result<
    (),
    ErrorView,
> {
    match existing {
        ExistingDashboardFile::Unreadable { detail } => Err(error("dashboard_drift"@, detail@)),
        ExistingDashboardFile::NotRegular => Err(
            error(
                "dashboard_drift"@,
                "generated dashboard path "@ + path + " is not a regular file"@,
            ),
        ),
        ExistingDashboardFile::Regular { content } => if content@ == encode_utf8(expected) {
            Ok(())
        } else {
            Err(
                error(
                    "dashboard_drift"@,
                    "generated dashboard "@ + path
                        + " was edited; preserve it and choose an explicit repair"@,
                ),
            )
        },
    }
}

pub fn check_existing_dashboard(path: &str, expected: &str, existing: &ExistingDashboardFile) -> (result:
    Result<(), MkoError>)
    ensures
        verdict(result) == drift_check(path@, expected@, *existing),
{
    match existing {
        ExistingDashboardFile::Unreadable { detail } => Err(
            MkoError::new("dashboard_drift", detail.as_str()),
        ),
        ExistingDashboardFile::NotRegular => {
            let message = cat3("generated dashboard path ", path, " is not a regular file");
            Err(MkoError::new("dashboard_drift", message.as_str()))
        },
        ExistingDashboardFile::Regular { content } => {
            if same_bytes(content.as_slice(), expected.as_bytes()) {
                return Ok(());
            }
            let message = cat3(
                "generated dashboard ",
                path,
                " was edited; preserve it and choose an explicit repair",
            );
            Err(MkoError::new("dashboard_drift", message.as_str()))
        },
    }
}

/// The first write that failed, if any did.
pub open spec fn first_failure(written: Seq<Result<AtomicWriteResult, MkoError>>) -> Option<ErrorView>
    decreases written.len(),
{
    if written.len() == 0 {
        None
    } else {
        match first_failure(written.drop_last()) {
            Some(failure) => Some(failure),
            None => match written.last() {
                Ok(_) => None,
                Err(failure) => Some(failure.deep_view()),
            },
        }
    }
}

/// What making the dashboard comes to. The first file that could not be written stops it.
/// Otherwise it is new where one of its files is.
pub open spec fn dashboard_of(written: Seq<Result<AtomicWriteResult, MkoError>>) -> Result<
    DashboardResultV2View,
    ErrorView,
> {
    match first_failure(written) {
        Some(failure) => Err(failure),
        None => Ok(
            DashboardResultV2View {
                outcome: if exists|k: int|
                    0 <= k < written.len() && is_created(#[trigger] written[k]) {
                    DashboardOutcomeV2::Created
                } else {
                    DashboardOutcomeV2::Existing
                },
                generated_files: seq![HOME_PATH@, REVIEW_QUEUE_PATH@, KNOWLEDGE_LIBRARY_PATH@],
            },
        ),
    }
}

/// A write that made its file.
pub open spec fn is_created(written: Result<AtomicWriteResult, MkoError>) -> bool {
    written matches Ok(AtomicWriteResult::Created)
}

/// What making the dashboard comes to: `written` tells what came of writing each of its
/// files, in their order.
pub fn ensure_dashboard_v2(written: &Vec<Result<AtomicWriteResult, MkoError>>) -> (result: Result<
    DashboardResultV2,
    MkoError,
>)
    ensures
        outcome(result) == dashboard_of(written@),
{
    let mut created = false;
    let mut i: usize = 0;
    assert(written@.take(0) == Seq::<Result<AtomicWriteResult, MkoError>>::empty());
    while i < written.len()
        invariant
            i <= written.len(),
            first_failure(written@.take(i as int)) is None,
            created == exists|k: int| 0 <= k < i && is_created(#[trigger] written@[k]),
        decreases written.len() - i,
    {
        assert(written@.take(i + 1).drop_last() == written@.take(i as int));
        match &written[i] {
            Ok(AtomicWriteResult::Created) => {
                assert(is_created(written@[i as int]));
                created = true;
            },
            Ok(AtomicWriteResult::Existing) => {},
            Err(failure) => {
                let stopped = failure.duplicate();
                proof {
                    failures_stay_first(written@, i + 1);
                }
                return Err(stopped);
            },
        }
        i += 1;
    }
    assert(written@.take(i as int) == written@);
    let mut generated_files: Vec<String> = Vec::new();
    generated_files.push(HOME_PATH.to_owned());
    generated_files.push(REVIEW_QUEUE_PATH.to_owned());
    generated_files.push(KNOWLEDGE_LIBRARY_PATH.to_owned());
    assert(generated_files.deep_view() == seq![
        HOME_PATH@,
        REVIEW_QUEUE_PATH@,
        KNOWLEDGE_LIBRARY_PATH@,
    ]);
    Ok(
        DashboardResultV2 {
            outcome: if created {
                DashboardOutcomeV2::Created
            } else {
                DashboardOutcomeV2::Existing
            },
            generated_files,
        },
    )
}

proof fn failures_stay_first(written: Seq<Result<AtomicWriteResult, MkoError>>, n: int)
    requires
        0 <= n <= written.len(),
        first_failure(written.take(n)) is Some,
    ensures
        first_failure(written) == first_failure(written.take(n)),
    decreases written.len(),
{
    if n < written.len() {
        assert(written.drop_last().take(n) == written.take(n));
        failures_stay_first(written.drop_last(), n);
    } else {
        assert(written.take(n) == written);
    }
}

/// The directory of the views must be a real one.
pub fn require_real_views(is_directory: bool, is_symlink: bool) -> (result: Result<(), MkoError>)
    ensures
        verdict(result) == (if is_directory && !is_symlink {
            Ok(())
        } else {
            Err(
                error("dashboard_path_invalid"@, "dashboard parent must be a real directory"@),
            )
        }),
{
    if !is_directory || is_symlink {
        return Err(
            MkoError::new("dashboard_path_invalid", "dashboard parent must be a real directory"),
        );
    }
    Ok(())
}

/// A dashboard file that a person edited is never taken for the generated one, and it stops
/// the dashboard where every file before it could be written, whatever comes of those after
/// it.
pub proof fn edited_files_are_kept(
    path: Seq<char>,
    expected: Seq<char>,
    content: Vec<u8>,
    written: Seq<Result<AtomicWriteResult, MkoError>>,
    i: int,
    failure: MkoError,
)
    requires
        content@ != encode_utf8(expected),
        0 <= i < written.len(),
        forall|k: int| 0 <= k < i ==> (#[trigger] written[k]) is Ok,
        written[i] == Err::<AtomicWriteResult, MkoError>(failure),
        drift_check(path, expected, ExistingDashboardFile::Regular { content }) == Err::<
            (),
            ErrorView,
        >(failure.deep_view()),
    ensures
        dashboard_of(written) == Err::<DashboardResultV2View, ErrorView>(
            error(
                "dashboard_drift"@,
                "generated dashboard "@ + path
                    + " was edited; preserve it and choose an explicit repair"@,
            ),
        ),
{
    successes_do_not_fail(written, i);
    assert(written.take(i + 1).drop_last() == written.take(i));
    failures_stay_first(written, i + 1);
}

proof fn successes_do_not_fail(written: Seq<Result<AtomicWriteResult, MkoError>>, n: int)
    requires
        0 <= n <= written.len(),
        forall|k: int| 0 <= k < n ==> (#[trigger] written[k]) is Ok,
    ensures
        first_failure(written.take(n)) is None,
    decreases n,
{
    if n > 0 {
        successes_do_not_fail(written, n - 1);
        assert(written.take(n).drop_last() == written.take(n - 1));
        assert(written.take(n).last() == written[n - 1]);
    }
}

} // verus!

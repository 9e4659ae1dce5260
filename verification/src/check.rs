//! The check of a repository of the first format: what is wrong with its files, its
//! records and the relations between them.

use crate::asset_validation::{
    canonical_asset, is_canonical_asset, prefixed_hash, valid_prefixed_hash,
};
use crate::canonical_source::{canonical_source_path, is_canonical_path};
use crate::error::{error, outcome, ErrorView, MkoError};
use crate::front_matter::{document_parts, parse_markdown, ParsedMarkdown};
use crate::hooks::{is_managed_script, managed_script};
use crate::model::{
    AssetRecord, AssetRecordView, AssetStatus, LastSuccessfulStep, ReviewStatus, SourceRecord,
    SourceRecordView, SourceStatus,
};
use crate::order::{
    dedup, dedup_leaves_no_repetition, is_ordered, option_at_most, option_not_after, option_total,
    option_transitive, remove_repeats, sort, sorting_orders, stable_sort, text_total,
    text_transitive, Comparable, Ranked,
};
use crate::pdf::{EXTRACTOR_NAME, EXTRACTOR_VERSION};
use crate::prepare::{PROCESSOR_VERSION, PROMPT_VERSION};
use crate::text::{
    cat3, cat4, contains_char, ends_with, lines, lines_of, not_after, replace_first, same,
    same_option, split, split_text, starts_with, text_at_most, text_order_is_antisymmetric, trim,
    trimmed, with_first_replaced,
};
use crate::unicode::{collision_key, collision_key_of, lossy_text, to_lossy_text, to_text};
use crate::version::CORE_VERSION;
use vstd::prelude::*;
use vstd::utf8::{decode_utf8, valid_utf8};

verus! {

/// What is to be checked: the working tree, or what is staged.
#[derive(Clone, Debug, PartialEq, Eq)]
pub struct CheckRequest {
    repository_root: String,
    staged: bool,
}

#[verifier::ext_equal]
pub struct CheckRequestView {
    pub repository_root: Seq<char>,
    pub staged: bool,
}

impl DeepView for CheckRequest {
    type V = CheckRequestView;

    closed spec fn deep_view(&self) -> CheckRequestView {
        CheckRequestView { repository_root: self.repository_root@, staged: self.staged }
    }
}

impl CheckRequest {
    pub fn new(repository_root: &str) -> (request: Self)
        ensures
            request.deep_view() == (CheckRequestView {
                repository_root: repository_root@,
                staged: false,
            }),
    {
        CheckRequest { repository_root: repository_root.to_owned(), staged: false }
    }

    pub fn with_staged(self, staged: bool) -> (request: Self)
        ensures
            request.deep_view() == (CheckRequestView { staged, ..self.deep_view() }),
    {
        CheckRequest { repository_root: self.repository_root, staged }
    }

    pub fn repository_root(&self) -> (path: &str)
        ensures
            path@ == self.deep_view().repository_root,
    {
        self.repository_root.as_str()
    }

    pub fn staged(&self) -> (staged: bool)
        ensures
            staged == self.deep_view().staged,
    {
        self.staged
    }
}

/// Something that is wrong, and where it can be told, what is safe to do about it.
#[derive(Clone, Debug, PartialEq, Eq)]
pub struct CheckIssue {
    pub code: String,
    pub path: Option<String>,
    pub rule: Option<String>,
    pub message: String,
    pub safe_action: Option<String>,
}

#[verifier::ext_equal]
pub struct CheckIssueView {
    pub code: Seq<char>,
    pub path: Option<Seq<char>>,
    pub rule: Option<Seq<char>>,
    pub message: Seq<char>,
    pub safe_action: Option<Seq<char>>,
}

impl DeepView for CheckIssue {
    type V = CheckIssueView;

    open spec fn deep_view(&self) -> CheckIssueView {
        CheckIssueView {
            code: self.code@,
            path: self.path.deep_view(),
            rule: self.rule.deep_view(),
            message: self.message@,
            safe_action: self.safe_action.deep_view(),
        }
    }
}

#[derive(Clone, Debug, PartialEq, Eq)]
pub struct CheckReport {
    pub result: String,
    pub issues: Vec<CheckIssue>,
}

#[verifier::ext_equal]
pub struct CheckReportView {
    pub result: Seq<char>,
    pub issues: Seq<CheckIssueView>,
}

impl DeepView for CheckReport {
    type V = CheckReportView;

    open spec fn deep_view(&self) -> CheckReportView {
        CheckReportView {
            result: self.result@,
            issues: self.issues.deep_view(),
        }
    }
}

impl CheckReport {
    pub fn has_code(&self, code: &str) -> (found: bool)
        ensures
            found == exists|i: int|
                0 <= i < self.deep_view().issues.len() && #[trigger] self.deep_view().issues[i].code
                    == code@,
    {
        let ghost issues = self.deep_view().issues;
        let mut i: usize = 0;
        while i < self.issues.len()
            invariant
                i <= self.issues.len(),
                issues == self.deep_view().issues,
                forall|k: int| 0 <= k < i ==> #[trigger] issues[k].code != code@,
            decreases self.issues.len() - i,
        {
            if same(self.issues[i].code.as_str(), code) {
                assert(issues[i as int].code == code@);
                return true;
            }
            i += 1;
        }
        false
    }

    pub fn is_ok(&self) -> (result: bool)
        ensures
            result == (self.deep_view().issues.len() == 0),
    {
        self.issues.len() == 0
    }
}

impl Ranked for CheckIssue {
    open spec fn leq(left: CheckIssueView, right: CheckIssueView) -> bool {
        if left.code != right.code {
            text_at_most(left.code, right.code)
        } else if left.path != right.path {
            option_at_most(left.path, right.path)
        } else if left.rule != right.rule {
            option_at_most(left.rule, right.rule)
        } else {
            text_at_most(left.message, right.message)
        }
    }

    proof fn leq_total(left: CheckIssueView, right: CheckIssueView) {
        text_total(left.code, right.code);
        option_total(left.path, right.path);
        option_total(left.rule, right.rule);
        text_total(left.message, right.message);
    }

    proof fn leq_transitive(a: CheckIssueView, b: CheckIssueView, c: CheckIssueView) {
        if a.code != b.code || b.code != c.code {
            if a.code == c.code {
                text_order_is_antisymmetric(a.code, b.code);
            } else if a.code != b.code && b.code != c.code {
                text_transitive(a.code, b.code, c.code);
            }
        } else if a.path != b.path || b.path != c.path {
            if a.path == c.path {
                option_is_antisymmetric(a.path, b.path);
            } else if a.path != b.path && b.path != c.path {
                option_transitive(a.path, b.path, c.path);
            }
        } else if a.rule != b.rule || b.rule != c.rule {
            if a.rule == c.rule {
                option_is_antisymmetric(a.rule, b.rule);
            } else if a.rule != b.rule && b.rule != c.rule {
                option_transitive(a.rule, b.rule, c.rule);
            }
        } else {
            text_transitive(a.message, b.message, c.message);
        }
    }

    fn ranks_at_most(&self, other: &Self) -> (result: bool) {
        if !same(self.code.as_str(), other.code.as_str()) {
            not_after(self.code.as_str(), other.code.as_str())
        } else if !same_option(&self.path, &other.path) {
            option_not_after(&self.path, &other.path)
        } else if !same_option(&self.rule, &other.rule) {
            option_not_after(&self.rule, &other.rule)
        } else {
            not_after(self.message.as_str(), other.message.as_str())
        }
    }
}

proof fn option_is_antisymmetric(left: Option<Seq<char>>, right: Option<Seq<char>>)
    requires
        option_at_most(left, right),
        option_at_most(right, left),
    ensures
        left == right,
{
    if left is Some {
        text_order_is_antisymmetric(left->0, right->0);
    }
}

impl Comparable for CheckIssue {
    fn holds_same(&self, other: &Self) -> (result: bool) {
        same(self.code.as_str(), other.code.as_str()) && same_option(&self.path, &other.path)
            && same_option(&self.rule, &other.rule) && same(
            self.message.as_str(),
            other.message.as_str(),
        ) && same_option(&self.safe_action, &other.safe_action)
    }
}

/// An issue of a file, without an action.
pub open spec fn plain_issue(code: Seq<char>, path: Seq<char>, message: Seq<char>) -> CheckIssueView {
    CheckIssueView { code, path: Some(path), rule: None, message, safe_action: None }
}

/// An issue of a file, with what is safe to do about it.
pub open spec fn issue_with_action(
    code: Seq<char>,
    path: Seq<char>,
    message: Seq<char>,
    action: Seq<char>,
) -> CheckIssueView {
    CheckIssueView { code, path: Some(path), rule: None, message, safe_action: Some(action) }
}

/// The issue, where it was found.
pub open spec fn when(found: bool, issue: CheckIssueView) -> Seq<CheckIssueView> {
    if found {
        seq![issue]
    } else {
        Seq::empty()
    }
}

/// A record that could not be read is reported as its reader put it.
pub open spec fn unread_issue(path: Seq<char>, failure: ErrorView) -> CheckIssueView {
    plain_issue(failure.code, path, failure.message)
}

fn report(issues: &mut Vec<CheckIssue>, code: &str, path: &str, message: &str)
    ensures
        final(issues).deep_view() == old(issues).deep_view().push(
            plain_issue(code@, path@, message@),
        ),
{
    let ghost before = issues.deep_view();
    let issue = CheckIssue {
        code: code.to_owned(),
        path: Some(path.to_owned()),
        rule: None,
        message: message.to_owned(),
        safe_action: None,
    };
    issues.push(issue);
    assert(issues.deep_view() == before.push(issue.deep_view()));
}

fn report_with_action(
    issues: &mut Vec<CheckIssue>,
    code: &str,
    path: &str,
    message: &str,
    action: String,
)
    ensures
        final(issues).deep_view() == old(issues).deep_view().push(
            issue_with_action(code@, path@, message@, action@),
        ),
{
    let ghost before = issues.deep_view();
    let issue = CheckIssue {
        code: code.to_owned(),
        path: Some(path.to_owned()),
        rule: None,
        message: message.to_owned(),
        safe_action: Some(action),
    };
    issues.push(issue);
    assert(issues.deep_view() == before.push(issue.deep_view()));
}

/// Reports the issue where it was found.
fn report_if(issues: &mut Vec<CheckIssue>, found: bool, code: &str, path: &str, message: &str)
    ensures
        final(issues).deep_view() == old(issues).deep_view() + when(
            found,
            plain_issue(code@, path@, message@),
        ),
{
    if found {
        report(issues, code, path, message);
    }
}

proof fn joined(start: Seq<CheckIssueView>, found: Seq<CheckIssueView>, more: Seq<CheckIssueView>)
    ensures
        start + found + more == start + (found + more),
{
}

/// A step that the rules on durable states allow.
#[derive(Clone, Copy, Debug, PartialEq, Eq, Structural)]
pub struct Transition {
    pub from: AssetStatus,
    pub to: AssetStatus,
}

/// A Source record with the revision of its content, or why that has none.
#[derive(Debug)]
pub struct RevisedSource {
    pub source: SourceRecord,
    pub revision: Result<String, MkoError>,
}

#[verifier::ext_equal]
pub struct RevisedSourceView {
    pub source: SourceRecordView,
    pub revision: Result<Seq<char>, ErrorView>,
}

impl DeepView for RevisedSource {
    type V = RevisedSourceView;

    open spec fn deep_view(&self) -> RevisedSourceView {
        RevisedSourceView { source: self.source.deep_view(), revision: outcome(self.revision) }
    }
}

/// What a file holds for the check.
#[derive(Debug)]
pub enum FileRecord {
    Unread,
    Asset { asset: AssetRecord },
    Source { source: RevisedSource },
    Broken { failure: MkoError },
}

pub enum FileRecordView {
    Unread,
    Asset { asset: AssetRecordView },
    Source { source: RevisedSourceView },
    Broken { failure: ErrorView },
}

impl DeepView for FileRecord {
    type V = FileRecordView;

    open spec fn deep_view(&self) -> FileRecordView {
        match self {
            FileRecord::Unread => FileRecordView::Unread,
            FileRecord::Asset { asset } => FileRecordView::Asset { asset: asset.deep_view() },
            FileRecord::Source { source } => FileRecordView::Source { source: source.deep_view() },
            FileRecord::Broken { failure } => FileRecordView::Broken { failure: failure.deep_view() },
        }
    }
}

/// A file of the repository: its path and bytes, the credential rules that its bytes match,
/// and the record that was read from it.
#[derive(Debug)]
pub struct InspectedFile {
    pub path: String,
    pub bytes: Vec<u8>,
    pub secret_rules: Vec<String>,
    pub record: FileRecord,
}

pub struct InspectedFileView {
    pub path: Seq<char>,
    pub bytes: Seq<u8>,
    pub secret_rules: Seq<Seq<char>>,
    pub record: FileRecordView,
}

impl DeepView for InspectedFile {
    type V = InspectedFileView;

    open spec fn deep_view(&self) -> InspectedFileView {
        InspectedFileView {
            path: self.path@,
            bytes: self.bytes@,
            secret_rules: self.secret_rules.deep_view(),
            record: self.record.deep_view(),
        }
    }
}

impl Ranked for InspectedFile {
    open spec fn leq(left: InspectedFileView, right: InspectedFileView) -> bool {
        text_at_most(left.path, right.path)
    }

    proof fn leq_total(left: InspectedFileView, right: InspectedFileView) {
        text_total(left.path, right.path);
    }

    proof fn leq_transitive(a: InspectedFileView, b: InspectedFileView, c: InspectedFileView) {
        text_transitive(a.path, b.path, c.path);
    }

    fn ranks_at_most(&self, other: &Self) -> (result: bool) {
        not_after(self.path.as_str(), other.path.as_str())
    }
}

/// Which record a path is the place of.
#[derive(Clone, Copy, Debug, PartialEq, Eq, Structural)]
pub enum RecordKind {
    Other,
    Asset,
    Source,
}

pub open spec fn record_kind(path: Seq<char>) -> RecordKind {
    if "assets/registry/"@.is_prefix_of(path) && ".md"@.is_suffix_of(path) {
        RecordKind::Asset
    } else if "sources/"@.is_prefix_of(path) && ".md"@.is_suffix_of(path) {
        RecordKind::Source
    } else {
        RecordKind::Other
    }
}

pub fn record_kind_of(path: &str) -> (kind: RecordKind)
    ensures
        kind == record_kind(path@),
{
    if starts_with(path, "assets/registry/") && ends_with(path, ".md") {
        RecordKind::Asset
    } else if starts_with(path, "sources/") && ends_with(path, ".md") {
        RecordKind::Source
    } else {
        RecordKind::Other
    }
}

/// The metadata and the body of a record file, which must be UTF-8.
pub fn parse_utf8_markdown(bytes: &[u8]) -> (result: Result<ParsedMarkdown, MkoError>)
    ensures
        outcome(result) == (if valid_utf8(bytes@) {
            document_parts(decode_utf8(bytes@))
        } else {
            Err(error("schema_invalid"@, "record must be UTF-8"@))
        }),
{
    match to_text(bytes) {
        Some(text) => parse_markdown(text.as_str()),
        None => Err(MkoError::new("schema_invalid", "record must be UTF-8")),
    }
}

/// The Asset record of a file at the place of one.
pub open spec fn asset_in(file: InspectedFileView) -> Option<AssetRecordView> {
    match file.record {
        FileRecordView::Asset { asset } => if record_kind(file.path) == RecordKind::Asset {
            Some(asset)
        } else {
            None
        },
        _ => None,
    }
}

/// The Source record of a file at the place of one.
pub open spec fn source_in(file: InspectedFileView) -> Option<RevisedSourceView> {
    match file.record {
        FileRecordView::Source { source } => if record_kind(file.path) == RecordKind::Source {
            Some(source)
        } else {
            None
        },
        _ => None,
    }
}

fn asset_of(file: &InspectedFile) -> (asset: Option<&AssetRecord>)
    ensures
        asset is Some == asset_in(file.deep_view()) is Some,
        asset is Some ==> asset->0.deep_view() == asset_in(file.deep_view())->0,
{
    match &file.record {
        FileRecord::Asset { asset } => if record_kind_of(file.path.as_str()) == RecordKind::Asset {
            Some(asset)
        } else {
            None
        },
        _ => None,
    }
}

fn source_of(file: &InspectedFile) -> (source: Option<&RevisedSource>)
    ensures
        source is Some == source_in(file.deep_view()) is Some,
        source is Some ==> source->0.deep_view() == source_in(file.deep_view())->0,
{
    match &file.record {
        FileRecord::Source { source } => if record_kind_of(file.path.as_str())
            == RecordKind::Source {
            Some(source)
        } else {
            None
        },
        _ => None,
    }
}

/// A path inside the repository: relative, with forward slashes, and without steps to the
/// current or the parent directory.
pub open spec fn is_repository_path(path: Seq<char>) -> bool {
    &&& path.len() > 0
    &&& !path.contains('\0')
    &&& !path.contains('\\')
    &&& path[0] != '/'
    &&& split(path, '/')[0] != "."@
    &&& forall|i: int| 0 <= i < split(path, '/').len() ==> #[trigger] split(path, '/')[i] != ".."@
}

#[verifier::loop_isolation(false)]
pub(crate) fn portable_relative_path(path: &str) -> (result: bool)
    ensures
        result == is_repository_path(path@),
{
    if path.is_empty() || contains_char(path, '\0') || contains_char(path, '\\') || path.get_char(0)
        == '/' {
        return false;
    }
    let pieces = split_text(path, '/');
    let ghost all = pieces.deep_view();
    proof {
        crate::text::split_pieces(path@, '/');
    }
    assert(all[0] == pieces@[0]@);
    if same(pieces[0].as_str(), ".") {
        return false;
    }
    let mut i: usize = 0;
    while i < pieces.len()
        invariant
            i <= pieces.len(),
            forall|k: int| 0 <= k < i ==> #[trigger] all[k] != ".."@,
        decreases pieces.len() - i,
    {
        assert(all[i as int] == pieces@[i as int]@);
        if same(pieces[i].as_str(), "..") {
            return false;
        }
        i += 1;
    }
    true
}

/// A line that Git leaves where it could not merge.
pub open spec fn is_conflict_line(line: Seq<char>) -> bool {
    "<<<<<<< "@.is_prefix_of(line) || line == "======="@ || ">>>>>>> "@.is_prefix_of(line)
}

/// Some line of the text is a conflict marker.
pub open spec fn holds_conflict_line(text: Seq<char>) -> bool {
    exists|i: int| 0 <= i < lines(text).len() && #[trigger] is_conflict_line(lines(text)[i])
}

/// Some line of the content is a conflict marker.
pub open spec fn has_conflict_lines(bytes: Seq<u8>) -> bool {
    holds_conflict_line(lossy_text(bytes))
}

fn has_conflict_marker(bytes: &[u8]) -> (found: bool)
    ensures
        found == has_conflict_lines(bytes@),
{
    has_conflict_in(to_lossy_text(bytes).as_str())
}

/// Whether some line of a text is a conflict marker.
#[verifier::loop_isolation(false)]
pub fn has_conflict_in(text: &str) -> (found: bool)
    ensures
        found == holds_conflict_line(text@),
{
    let all = lines_of(text);
    let ghost views = all.deep_view();
    let mut i: usize = 0;
    while i < all.len()
        invariant
            i <= all.len(),
            forall|k: int| 0 <= k < i ==> !#[trigger] is_conflict_line(views[k]),
        decreases all.len() - i,
    {
        let line = all[i].as_str();
        assert(views[i as int] == line@);
        if starts_with(line, "<<<<<<< ") || same(line, "=======") || starts_with(line, ">>>>>>> ") {
            assert(is_conflict_line(views[i as int]));
            return true;
        }
        i += 1;
    }
    false
}

/// The step that a state calls for agrees with the last one that succeeded.
pub open spec fn step_agrees(status: AssetStatus, step: LastSuccessfulStep) -> bool {
    match status {
        AssetStatus::Registered => step == LastSuccessfulStep::Registered,
        AssetStatus::Extracted => step == LastSuccessfulStep::Extracted,
        AssetStatus::ReviewPending => step == LastSuccessfulStep::Drafted,
        AssetStatus::Processed => step == LastSuccessfulStep::Reviewed,
        _ => true,
    }
}

/// Every step of the history is among the allowed ones.
pub open spec fn history_allowed(history: Seq<AssetStatus>, allowed: Seq<Transition>) -> bool {
    forall|i: int|
        1 <= i < history.len() ==> allowed.contains(
            Transition { from: history[i - 1], to: #[trigger] history[i] },
        )
}

fn allows(allowed: &Vec<Transition>, wanted: Transition) -> (result: bool)
    ensures
        result == allowed@.contains(wanted),
{
    let mut i: usize = 0;
    while i < allowed.len()
        invariant
            i <= allowed.len(),
            forall|k: int| 0 <= k < i ==> allowed@[k] != wanted,
        decreases allowed.len() - i,
    {
        if allowed[i] == wanted {
            return true;
        }
        i += 1;
    }
    false
}

fn history_is_allowed(history: &Vec<AssetStatus>, allowed: &Vec<Transition>) -> (result: bool)
    ensures
        result == history_allowed(history@, allowed@),
{
    let mut i: usize = 1;
    while i < history.len()
        invariant
            1 <= i,
            forall|k: int|
                1 <= k < i && k < history.len() ==> allowed@.contains(
                    Transition { from: history@[k - 1], to: #[trigger] history@[k] },
                ),
        decreases history.len() - i,
    {
        if !allows(allowed, Transition { from: history[i - 1], to: history[i] }) {
            assert(!allowed@.contains(
                Transition { from: history@[i - 1], to: history@[i as int] },
            ));
            return false;
        }
        i += 1;
    }
    true
}

/// All that is wrong with an Asset record by itself.
pub open spec fn asset_record_issues(
    path: Seq<char>,
    asset: AssetRecordView,
    allowed: Seq<Transition>,
) -> Seq<CheckIssueView> {
    let recoverable = asset.asset_status == AssetStatus::Changed || asset.asset_status
        == AssetStatus::Missing || asset.asset_status == AssetStatus::Failed;
    when(
        !is_canonical_asset(path, asset),
        plain_issue(
            "registry_invalid"@,
            path,
            "Asset identity, Scope, schema, path, or fingerprint is not canonical"@,
        ),
    ) + when(
        !is_repository_path(asset.provider.locator),
        plain_issue(
            "path_not_portable"@,
            path,
            "Provider locator must be a portable relative path"@,
        ),
    ) + when(
        recoverable && asset.durable_state_history.len() == 0,
        plain_issue(
            "invalid_state_transition"@,
            path,
            "recoverable Asset state has no durable checkpoint"@,
        ),
    ) + when(
        !history_allowed(asset.durable_state_history, allowed),
        plain_issue(
            "invalid_state_transition"@,
            path,
            "durable state history contains a forbidden transition"@,
        ),
    ) + when(
        !step_agrees(asset.asset_status, asset.last_successful_step),
        plain_issue(
            "invalid_state_transition"@,
            path,
            "Asset state disagrees with its last successful step"@,
        ),
    )
}

fn validate_asset(
    path: &str,
    asset: &AssetRecord,
    allowed: &Vec<Transition>,
    issues: &mut Vec<CheckIssue>,
)
    ensures
        final(issues).deep_view() == old(issues).deep_view() + asset_record_issues(
            path@,
            asset.deep_view(),
            allowed@,
        ),
{
    let ghost start = issues.deep_view();
    let canonical = canonical_asset(path, asset);
    report_if(
        issues,
        !canonical,
        "registry_invalid",
        path,
        "Asset identity, Scope, schema, path, or fingerprint is not canonical",
    );
    let ghost on_identity = when(
        !canonical,
        plain_issue(
            "registry_invalid"@,
            path@,
            "Asset identity, Scope, schema, path, or fingerprint is not canonical"@,
        ),
    );
    let portable = portable_relative_path(asset.provider.locator.as_str());
    report_if(
        issues,
        !portable,
        "path_not_portable",
        path,
        "Provider locator must be a portable relative path",
    );
    let ghost on_place = when(
        !portable,
        plain_issue(
            "path_not_portable"@,
            path@,
            "Provider locator must be a portable relative path"@,
        ),
    );
    let status = asset.asset_status;
    let recoverable = status == AssetStatus::Changed || status == AssetStatus::Missing || status
        == AssetStatus::Failed;
    let unmarked = recoverable && asset.durable_state_history.len() == 0;
    report_if(
        issues,
        unmarked,
        "invalid_state_transition",
        path,
        "recoverable Asset state has no durable checkpoint",
    );
    let ghost on_checkpoint = when(
        unmarked,
        plain_issue(
            "invalid_state_transition"@,
            path@,
            "recoverable Asset state has no durable checkpoint"@,
        ),
    );
    let steps_allowed = history_is_allowed(&asset.durable_state_history, allowed);
    report_if(
        issues,
        !steps_allowed,
        "invalid_state_transition",
        path,
        "durable state history contains a forbidden transition",
    );
    let ghost on_history = when(
        !steps_allowed,
        plain_issue(
            "invalid_state_transition"@,
            path@,
            "durable state history contains a forbidden transition"@,
        ),
    );
    let step = asset.last_successful_step;
    let step_matches = match status {
        AssetStatus::Registered => step == LastSuccessfulStep::Registered,
        AssetStatus::Extracted => step == LastSuccessfulStep::Extracted,
        AssetStatus::ReviewPending => step == LastSuccessfulStep::Drafted,
        AssetStatus::Processed => step == LastSuccessfulStep::Reviewed,
        _ => true,
    };
    report_if(
        issues,
        !step_matches,
        "invalid_state_transition",
        path,
        "Asset state disagrees with its last successful step",
    );
    let ghost on_step = when(
        !step_matches,
        plain_issue(
            "invalid_state_transition"@,
            path@,
            "Asset state disagrees with its last successful step"@,
        ),
    );
    proof {
        joined(start, on_identity, on_place);
        joined(start, on_identity + on_place, on_checkpoint);
        joined(start, on_identity + on_place + on_checkpoint, on_history);
        joined(start, on_identity + on_place + on_checkpoint + on_history, on_step);
    }
}

/// The latest of the first `n` files whose path collides with `path`.
pub open spec fn colliding_before(files: Seq<InspectedFileView>, path: Seq<char>, n: int) -> Option<
    int,
>
    decreases n,
{
    if n <= 0 {
        None
    } else if collision_key(files[n - 1].path) == collision_key(path) {
        Some(n - 1)
    } else {
        colliding_before(files, path, n - 1)
    }
}

/// What the rules on every file say of one of them.
pub open spec fn content_issues(files: Seq<InspectedFileView>, i: int) -> Seq<CheckIssueView> {
    let file = files[i];
    (match colliding_before(files, file.path, i) {
        Some(other) => seq![
            issue_with_action(
                "path_collision"@,
                file.path,
                "repository paths collide after case and Unicode normalization"@,
                "rename either "@ + files[other].path + " or "@ + file.path,
            ),
        ],
        None => Seq::empty(),
    }) + file.secret_rules.map_values(
        |rule: Seq<char>|
            CheckIssueView {
                code: "secret_detected"@,
                path: Some(file.path),
                rule: Some(rule),
                message: "content matches a protected credential rule; the value is redacted"@,
                safe_action: None,
            },
    ) + when(
        has_conflict_lines(file.bytes),
        issue_with_action(
            "git_conflict"@,
            file.path,
            "file contains Git conflict markers"@,
            "resolve the conflict and stage the resolved file"@,
        ),
    )
}

#[verifier::loop_isolation(false)]
fn find_colliding(files: &Vec<InspectedFile>, keys: &Vec<String>, i: usize) -> (found: Option<usize>)
    requires
        i < keys.len() <= files.len(),
        forall|k: int|
            0 <= k < keys.len() ==> #[trigger] keys@[k]@ == collision_key(
                files.deep_view()[k].path,
            ),
    ensures
        match found {
            Some(at) => at < i && colliding_before(
                files.deep_view(),
                files.deep_view()[i as int].path,
                i as int,
            ) == Some(at as int),
            None => colliding_before(
                files.deep_view(),
                files.deep_view()[i as int].path,
                i as int,
            ) is None,
        },
{
    let mut n: usize = i;
    while n > 0
        invariant
            n <= i,
            colliding_before(files.deep_view(), files.deep_view()[i as int].path, i as int)
                == colliding_before(files.deep_view(), files.deep_view()[i as int].path, n as int),
        decreases n,
    {
        assert(keys@[n - 1]@ == collision_key(files.deep_view()[n - 1].path));
        assert(keys@[i as int]@ == collision_key(files.deep_view()[i as int].path));
        if same(keys[n - 1].as_str(), keys[i].as_str()) {
            return Some(n - 1);
        }
        n -= 1;
    }
    None
}

#[verifier::loop_isolation(false)]
fn inspect_content(
    files: &Vec<InspectedFile>,
    keys: &Vec<String>,
    i: usize,
    issues: &mut Vec<CheckIssue>,
)
    requires
        i < keys.len() <= files.len(),
        forall|k: int|
            0 <= k < keys.len() ==> #[trigger] keys@[k]@ == collision_key(
                files.deep_view()[k].path,
            ),
    ensures
        final(issues).deep_view() == old(issues).deep_view() + content_issues(
            files.deep_view(),
            i as int,
        ),
{
    let ghost start = issues.deep_view();
    let file = &files[i];
    let ghost view = files.deep_view()[i as int];
    let ghost secret = |rule: Seq<char>|
        CheckIssueView {
            code: "secret_detected"@,
            path: Some(view.path),
            rule: Some(rule),
            message: "content matches a protected credential rule; the value is redacted"@,
            safe_action: None,
        };
    match find_colliding(files, keys, i) {
        Some(other) => {
            let action = cat4(
                "rename either ",
                files[other].path.as_str(),
                " or ",
                file.path.as_str(),
            );
            report_with_action(
                issues,
                "path_collision",
                file.path.as_str(),
                "repository paths collide after case and Unicode normalization",
                action,
            );
        },
        None => {},
    }
    let ghost collided = issues.deep_view();
    let ghost rules = view.secret_rules;
    let ghost found = rules.map_values(secret);
    let mut k: usize = 0;
    assert(found.take(0) == Seq::<CheckIssueView>::empty());
    while k < file.secret_rules.len()
        invariant
            k <= file.secret_rules.len(),
            issues.deep_view() == collided + found.take(k as int),
        decreases file.secret_rules.len() - k,
    {
        let ghost before = issues.deep_view();
        let issue = CheckIssue {
            code: "secret_detected".to_owned(),
            path: Some(file.path.clone()),
            rule: Some(file.secret_rules[k].clone()),
            message: "content matches a protected credential rule; the value is redacted".to_owned(),
            safe_action: None,
        };
        assert(rules[k as int] == file.secret_rules@[k as int]@);
        assert(issue.deep_view() == found[k as int]);
        issues.push(issue);
        assert(issues.deep_view() == before.push(issue.deep_view()));
        assert(found.take(k + 1) == found.take(k as int).push(found[k as int]));
        k += 1;
    }
    assert(found.take(k as int) == found);
    assert(found == rules.map_values(
        |rule: Seq<char>|
            CheckIssueView {
                code: "secret_detected"@,
                path: Some(view.path),
                rule: Some(rule),
                message: "content matches a protected credential rule; the value is redacted"@,
                safe_action: None,
            },
    ));
    if has_conflict_marker(file.bytes.as_slice()) {
        report_with_action(
            issues,
            "git_conflict",
            file.path.as_str(),
            "file contains Git conflict markers",
            "resolve the conflict and stage the resolved file".to_owned(),
        );
    }
    assert(issues.deep_view() == start + content_issues(files.deep_view(), i as int));
}

/// The ID of the Asset in a file.
pub open spec fn asset_id_in(file: InspectedFileView) -> Seq<char> {
    asset_in(file)->0.id
}

/// The place of an ID in a registry.
pub open spec fn registered_at(
    files: Seq<InspectedFileView>,
    registry: Seq<int>,
    id: Seq<char>,
) -> Option<int>
    decreases registry.len(),
{
    if registry.len() == 0 {
        None
    } else if asset_id_in(files[registry.last()]) == id {
        Some(registry.len() - 1)
    } else {
        registered_at(files, registry.drop_last(), id)
    }
}

/// Where an ID that a registry does not hold belongs: behind all the IDs that do not come
/// after it.
pub open spec fn place_of(files: Seq<InspectedFileView>, registry: Seq<int>, id: Seq<char>) -> int
    decreases registry.len(),
{
    if registry.len() == 0 || text_at_most(asset_id_in(files[registry.last()]), id) {
        registry.len() as int
    } else {
        place_of(files, registry.drop_last(), id)
    }
}

/// The registry with the Asset of file `i`, which takes the place of one with the same ID.
pub open spec fn with_asset(files: Seq<InspectedFileView>, registry: Seq<int>, i: int) -> Seq<int> {
    let id = asset_id_in(files[i]);
    match registered_at(files, registry, id) {
        Some(at) => registry.update(at, i),
        None => registry.insert(place_of(files, registry, id), i),
    }
}

/// The Assets of the first `n` files, in the order of their IDs: of every ID the latest
/// file.
pub open spec fn registry_of(files: Seq<InspectedFileView>, n: int) -> Seq<int>
    decreases n,
{
    if n <= 0 {
        Seq::empty()
    } else if asset_in(files[n - 1]) is Some {
        with_asset(files, registry_of(files, n - 1), n - 1)
    } else {
        registry_of(files, n - 1)
    }
}

/// What is wrong with the record of a file by itself.
pub open spec fn record_issues(
    files: Seq<InspectedFileView>,
    i: int,
    allowed: Seq<Transition>,
) -> Seq<CheckIssueView> {
    let file = files[i];
    match asset_in(file) {
        Some(asset) => {
            let registry = registry_of(files, i);
            asset_record_issues(file.path, asset, allowed) + (match registered_at(
                files,
                registry,
                asset.id,
            ) {
                Some(at) => seq![same_id_issue(file.path, files[registry[at]].path)],
                None => Seq::empty(),
            })
        },
        None => match file.record {
            FileRecordView::Broken { failure } => when(
                record_kind(file.path) != RecordKind::Other,
                unread_issue(file.path, failure),
            ),
            _ => Seq::empty(),
        },
    }
}

/// What is wrong with each of the first `n` files.
pub open spec fn file_pass(
    files: Seq<InspectedFileView>,
    allowed: Seq<Transition>,
    n: int,
) -> Seq<CheckIssueView>
    decreases n,
{
    if n <= 0 {
        Seq::empty()
    } else {
        file_pass(files, allowed, n - 1) + content_issues(files, n - 1) + record_issues(
            files,
            n - 1,
            allowed,
        )
    }
}

/// The indexes of a registry.
pub open spec fn indexes(registry: Seq<usize>) -> Seq<int> {
    registry.map_values(|i: usize| i as int)
}

/// A registry names files that hold an Asset.
pub open spec fn names_assets(files: Seq<InspectedFileView>, registry: Seq<int>) -> bool {
    forall|k: int|
        0 <= k < registry.len() ==> 0 <= #[trigger] registry[k] < files.len() && asset_in(
            files[registry[k]],
        ) is Some
}

fn find_registered(files: &Vec<InspectedFile>, registry: &Vec<usize>, id: &str) -> (found: Option<
    usize,
>)
    requires
        names_assets(files.deep_view(), indexes(registry@)),
    ensures
        match found {
            Some(at) => at < registry.len() && registered_at(
                files.deep_view(),
                indexes(registry@),
                id@,
            ) == Some(at as int) && asset_id_in(files.deep_view()[registry@[at as int] as int]) == id@,
            None => registered_at(files.deep_view(), indexes(registry@), id@) is None,
        },
{
    let ghost all = files.deep_view();
    let ghost whole = indexes(registry@);
    let mut n: usize = registry.len();
    assert(whole.take(n as int) == whole);
    while n > 0
        invariant
            n <= registry.len(),
            all == files.deep_view(),
            whole == indexes(registry@),
            names_assets(all, whole),
            registered_at(all, whole, id@) == registered_at(all, whole.take(n as int), id@),
        decreases n,
    {
        assert(whole.take(n as int).drop_last() == whole.take(n - 1));
        assert(whole[n - 1] == registry@[n - 1]);
        assert(all[whole[n - 1]] == files@[whole[n - 1]].deep_view());
        match asset_of(&files[registry[n - 1]]) {
            Some(asset) => {
                if same(asset.id.as_str(), id) {
                    return Some(n - 1);
                }
            },
            None => {},
        }
        n -= 1;
    }
    None
}

fn find_place(files: &Vec<InspectedFile>, registry: &Vec<usize>, id: &str) -> (place: usize)
    requires
        names_assets(files.deep_view(), indexes(registry@)),
    ensures
        place <= registry.len(),
        place == place_of(files.deep_view(), indexes(registry@), id@),
{
    let ghost all = files.deep_view();
    let ghost whole = indexes(registry@);
    let mut n: usize = registry.len();
    assert(whole.take(n as int) == whole);
    while n > 0
        invariant
            n <= registry.len(),
            all == files.deep_view(),
            whole == indexes(registry@),
            names_assets(all, whole),
            place_of(all, whole, id@) == place_of(all, whole.take(n as int), id@),
        decreases n,
    {
        assert(whole.take(n as int).drop_last() == whole.take(n - 1));
        assert(whole[n - 1] == registry@[n - 1]);
        assert(all[whole[n - 1]] == files@[whole[n - 1]].deep_view());
        match asset_of(&files[registry[n - 1]]) {
            Some(asset) => {
                if not_after(asset.id.as_str(), id) {
                    return n;
                }
            },
            None => {},
        }
        n -= 1;
    }
    0
}

proof fn registered_in_bounds(files: Seq<InspectedFileView>, registry: Seq<int>, id: Seq<char>)
    ensures
        registered_at(files, registry, id) matches Some(at) ==> 0 <= at < registry.len()
            && asset_id_in(files[registry[at]]) == id,
        registered_at(files, registry, id) is None ==> forall|k: int|
            0 <= k < registry.len() ==> asset_id_in(files[#[trigger] registry[k]]) != id,
    decreases registry.len(),
{
    if registry.len() > 0 && asset_id_in(files[registry.last()]) != id {
        registered_in_bounds(files, registry.drop_last(), id);
        assert forall|k: int|
            registered_at(files, registry, id) is None && 0 <= k < registry.len() implies asset_id_in(
            files[#[trigger] registry[k]],
        ) != id by {
            if k < registry.len() - 1 {
                assert(registry.drop_last()[k] == registry[k]);
            }
        }
    }
}

proof fn place_in_bounds(files: Seq<InspectedFileView>, registry: Seq<int>, id: Seq<char>)
    ensures
        0 <= place_of(files, registry, id) <= registry.len(),
    decreases registry.len(),
{
    if registry.len() > 0 && !text_at_most(asset_id_in(files[registry.last()]), id) {
        place_in_bounds(files, registry.drop_last(), id);
    }
}

proof fn registry_names_assets(files: Seq<InspectedFileView>, n: int)
    requires
        n <= files.len(),
    ensures
        names_assets(files, registry_of(files, n)),
        forall|k: int| 0 <= k < registry_of(files, n).len() ==> #[trigger] registry_of(files, n)[k] < n,
    decreases n,
{
    if n > 0 {
        registry_names_assets(files, n - 1);
        let before = registry_of(files, n - 1);
        if asset_in(files[n - 1]) is Some {
            let id = asset_id_in(files[n - 1]);
            registered_in_bounds(files, before, id);
            place_in_bounds(files, before, id);
            let after = registry_of(files, n);
            assert forall|k: int| 0 <= k < after.len() implies 0 <= #[trigger] after[k] < n && asset_in(
                files[after[k]],
            ) is Some by {
                match registered_at(files, before, id) {
                    Some(at) => {
                        if k != at {
                            assert(after[k] == before[k]);
                        }
                    },
                    None => {
                        let place = place_of(files, before, id);
                        if k < place {
                            assert(after[k] == before[k]);
                        } else if k > place {
                            assert(after[k] == before[k - 1]);
                        }
                    },
                }
            }
        }
    }
}

/// A registry holds no ID twice.
pub proof fn registry_ids_are_unique(files: Seq<InspectedFileView>, n: int)
    requires
        n <= files.len(),
    ensures
        forall|j: int, k: int|
            0 <= j < k < registry_of(files, n).len() ==> asset_id_in(
                files[#[trigger] registry_of(files, n)[j]],
            ) != asset_id_in(files[#[trigger] registry_of(files, n)[k]]),
    decreases n,
{
    if n > 0 {
        registry_ids_are_unique(files, n - 1);
        let before = registry_of(files, n - 1);
        if asset_in(files[n - 1]) is Some {
            let id = asset_id_in(files[n - 1]);
            registered_in_bounds(files, before, id);
            place_in_bounds(files, before, id);
            let after = registry_of(files, n);
            assert forall|j: int, k: int| 0 <= j < k < after.len() implies asset_id_in(
                files[#[trigger] after[j]],
            ) != asset_id_in(files[#[trigger] after[k]]) by {
                match registered_at(files, before, id) {
                    Some(at) => {
                        assert(asset_id_in(files[before[j]]) != asset_id_in(files[before[k]]));
                    },
                    None => {
                        let place = place_of(files, before, id);
                        let was_j = if j < place { j } else { j - 1 };
                        let was_k = if k < place { k } else { k - 1 };
                        if j != place {
                            assert(after[j] == before[was_j]);
                        }
                        if k != place {
                            assert(after[k] == before[was_k]);
                        }
                    },
                }
            }
        }
    }
}

/// The registry behind a file.
pub open spec fn registry_with(files: Seq<InspectedFileView>, registry: Seq<int>, i: int) -> Seq<int> {
    if asset_in(files[i]) is Some {
        with_asset(files, registry, i)
    } else {
        registry
    }
}

/// Puts the Asset of file `i` into the registry, and gives the file whose place it takes.
fn register(files: &Vec<InspectedFile>, i: usize, id: &str, registry: &mut Vec<usize>) -> (replaced:
    Option<usize>)
    requires
        i < files.len(),
        asset_in(files.deep_view()[i as int]) is Some,
        id@ == asset_id_in(files.deep_view()[i as int]),
        names_assets(files.deep_view(), indexes(old(registry)@)),
    ensures
        indexes(final(registry)@) == with_asset(
            files.deep_view(),
            indexes(old(registry)@),
            i as int,
        ),
        match replaced {
            Some(other) => other < files.len() && registered_at(
                files.deep_view(),
                indexes(old(registry)@),
                id@,
            ) is Some && other == indexes(old(registry)@)[registered_at(
                files.deep_view(),
                indexes(old(registry)@),
                id@,
            )->0],
            None => registered_at(files.deep_view(), indexes(old(registry)@), id@) is None,
        },
{
    let ghost before = indexes(registry@);
    match find_registered(files, registry, id) {
        Some(at) => {
            let other = registry[at];
            assert(before[at as int] == other);
            registry.set(at, i);
            assert(indexes(registry@) == before.update(at as int, i as int));
            Some(other)
        },
        None => {
            let place = find_place(files, registry, id);
            registry.insert(place, i);
            assert(indexes(registry@) == before.insert(place as int, i as int));
            None
        },
    }
}

/// What another file with the same Asset ID is reported as.
pub open spec fn same_id_issue(path: Seq<char>, other: Seq<char>) -> CheckIssueView {
    issue_with_action(
        "duplicate_conflict"@,
        path,
        "multiple Registry files declare the same Asset ID"@,
        "compare with "@ + other + " and keep only the canonical record"@,
    )
}

#[verifier::rlimit(60)]
fn inspect_record(
    files: &Vec<InspectedFile>,
    i: usize,
    allowed: &Vec<Transition>,
    registry: &mut Vec<usize>,
    issues: &mut Vec<CheckIssue>,
)
    requires
        i < files.len(),
        indexes(old(registry)@) == registry_of(files.deep_view(), i as int),
    ensures
        final(issues).deep_view() == old(issues).deep_view() + record_issues(
            files.deep_view(),
            i as int,
            allowed@,
        ),
        indexes(final(registry)@) == registry_with(
            files.deep_view(),
            registry_of(files.deep_view(), i as int),
            i as int,
        ),
{
    let file = &files[i];
    assert(files.deep_view()[i as int] == file.deep_view());
    let ghost seen = issues.deep_view();
    proof {
        registry_names_assets(files.deep_view(), i as int);
    }
    match asset_of(file) {
        Some(asset) => {
            validate_asset(file.path.as_str(), asset, allowed, issues);
            let ghost alone = asset_record_issues(file.path@, asset.deep_view(), allowed@);
            match register(files, i, asset.id.as_str(), registry) {
                Some(other) => {
                    assert(files.deep_view()[other as int] == files@[other as int].deep_view());
                    let action = cat3(
                        "compare with ",
                        files[other].path.as_str(),
                        " and keep only the canonical record",
                    );
                    report_with_action(
                        issues,
                        "duplicate_conflict",
                        file.path.as_str(),
                        "multiple Registry files declare the same Asset ID",
                        action,
                    );
                    let ghost twice = same_id_issue(file.path@, files[other as int].path@);
                    proof {
                        assert(issues.deep_view() == seen + alone + seq![twice]);
                        joined(seen, alone, seq![twice]);
                    }
                },
                None => {
                    proof {
                        assert(issues.deep_view() == seen + alone + Seq::<CheckIssueView>::empty());
                        joined(seen, alone, Seq::empty());
                    }
                },
            }
        },
        None => {
            match &file.record {
                FileRecord::Broken { failure } => {
                    let misplaced = record_kind_of(file.path.as_str()) == RecordKind::Other;
                    report_if(
                        issues,
                        !misplaced,
                        failure.code(),
                        file.path.as_str(),
                        failure.message(),
                    );
                },
                _ => {
                    assert(issues.deep_view() == seen + Seq::<CheckIssueView>::empty());
                },
            }
        },
    }
}

#[verifier::loop_isolation(false)]
fn inspect_each_file(files: &Vec<InspectedFile>, allowed: &Vec<Transition>, issues: &mut Vec<CheckIssue>) -> (registry:
    Vec<usize>)
    ensures
        final(issues).deep_view() == old(issues).deep_view() + file_pass(
            files.deep_view(),
            allowed@,
            files.deep_view().len() as int,
        ),
        indexes(registry@) == registry_of(files.deep_view(), files.deep_view().len() as int),
{
    let ghost all = files.deep_view();
    let ghost start = issues.deep_view();
    let mut keys: Vec<String> = Vec::new();
    let mut registry: Vec<usize> = Vec::new();
    let mut i: usize = 0;
    assert(indexes(registry@) == Seq::<int>::empty());
    assert(start + file_pass(all, allowed@, 0) == start);
    while i < files.len()
        invariant
            i <= files.len(),
            keys.len() == i,
            forall|k: int|
                0 <= k < keys.len() ==> #[trigger] keys@[k]@ == collision_key(all[k].path),
            indexes(registry@) == registry_of(all, i as int),
            issues.deep_view() == start + file_pass(all, allowed@, i as int),
        decreases files.len() - i,
    {
        let file = &files[i];
        assert(all[i as int] == file.deep_view());
        let key = collision_key_of(file.path.as_str());
        keys.push(key);
        inspect_content(files, &keys, i, issues);
        inspect_record(files, i, allowed, &mut registry, issues);
        proof {
            let earlier = file_pass(all, allowed@, i as int);
            let content = content_issues(all, i as int);
            joined(start, earlier, content);
            joined(start, earlier + content, record_issues(all, i as int, allowed@));
        }
        i += 1;
    }
    registry
}

/// Some earlier Asset of the registry has the same fingerprint under another ID.
pub open spec fn repeats_fingerprint(
    files: Seq<InspectedFileView>,
    registry: Seq<int>,
    k: int,
) -> bool {
    exists|j: int|
        0 <= j < k && asset_in(files[#[trigger] registry[j]])->0.fingerprint.value == asset_in(
            files[registry[k]],
        )->0.fingerprint.value && asset_id_in(files[registry[j]]) != asset_id_in(files[registry[k]])
}

/// What is wrong between an Asset and the rest of the registry.
pub open spec fn entry_issues(
    files: Seq<InspectedFileView>,
    registry: Seq<int>,
    k: int,
) -> Seq<CheckIssueView> {
    let file = files[registry[k]];
    let asset = asset_in(file)->0;
    when(
        repeats_fingerprint(files, registry, k),
        issue_with_action(
            "duplicate_conflict"@,
            file.path,
            "different Asset IDs declare the same fingerprint"@,
            "use the canonical content-addressed Asset ID instead of "@ + asset.id,
        ),
    ) + when(
        asset.supersedes is Some && registered_at(files, registry, asset.supersedes->0) is None,
        plain_issue(
            "relation_missing"@,
            file.path,
            "Asset supersedes a Registry record that is absent"@,
        ),
    )
}

pub open spec fn registry_pass(
    files: Seq<InspectedFileView>,
    registry: Seq<int>,
    n: int,
) -> Seq<CheckIssueView>
    decreases n,
{
    if n <= 0 {
        Seq::empty()
    } else {
        registry_pass(files, registry, n - 1) + entry_issues(files, registry, n - 1)
    }
}

#[verifier::loop_isolation(false)]
fn fingerprint_repeats(files: &Vec<InspectedFile>, registry: &Vec<usize>, k: usize) -> (result: bool)
    requires
        names_assets(files.deep_view(), indexes(registry@)),
        k < registry.len(),
    ensures
        result == repeats_fingerprint(files.deep_view(), indexes(registry@), k as int),
{
    let ghost all = files.deep_view();
    let ghost whole = indexes(registry@);
    assert(whole[k as int] == registry@[k as int]);
    assert(all[whole[k as int]] == files@[whole[k as int]].deep_view());
    let asset = match asset_of(&files[registry[k]]) {
        Some(asset) => asset,
        None => {
            return false;
        },
    };
    let mut j: usize = 0;
    while j < k
        invariant
            j <= k,
            forall|m: int|
                0 <= m < j ==> !(asset_in(files.deep_view()[#[trigger] whole[m]])->0.fingerprint.value
                    == asset.fingerprint.value@ && asset_id_in(files.deep_view()[whole[m]])
                    != asset.id@),
        decreases k - j,
    {
        assert(whole[j as int] == registry@[j as int]);
        assert(all[whole[j as int]] == files@[whole[j as int]].deep_view());
        match asset_of(&files[registry[j]]) {
            Some(earlier) => {
                if same(earlier.fingerprint.value.as_str(), asset.fingerprint.value.as_str())
                    && !same(earlier.id.as_str(), asset.id.as_str()) {
                    return true;
                }
            },
            None => {},
        }
        j += 1;
    }
    false
}

#[verifier::loop_isolation(false)]
fn inspect_registry(files: &Vec<InspectedFile>, registry: &Vec<usize>, issues: &mut Vec<CheckIssue>)
    requires
        names_assets(files.deep_view(), indexes(registry@)),
    ensures
        final(issues).deep_view() == old(issues).deep_view() + registry_pass(
            files.deep_view(),
            indexes(registry@),
            registry@.len() as int,
        ),
{
    let ghost all = files.deep_view();
    let ghost whole = indexes(registry@);
    let ghost start = issues.deep_view();
    assert(start + registry_pass(all, whole, 0) == start);
    let mut k: usize = 0;
    while k < registry.len()
        invariant
            k <= registry.len(),
            issues.deep_view() == start + registry_pass(all, whole, k as int),
        decreases registry.len() - k,
    {
        let ghost before = issues.deep_view();
        assert(whole[k as int] == registry@[k as int]);
        assert(all[whole[k as int]] == files@[whole[k as int]].deep_view());
        let file = &files[registry[k]];
        match asset_of(file) {
            Some(asset) => {
                if fingerprint_repeats(files, registry, k) {
                    let action = crate::text::cat2(
                        "use the canonical content-addressed Asset ID instead of ",
                        asset.id.as_str(),
                    );
                    report_with_action(
                        issues,
                        "duplicate_conflict",
                        file.path.as_str(),
                        "different Asset IDs declare the same fingerprint",
                        action,
                    );
                }
                match &asset.supersedes {
                    Some(superseded) => {
                        if find_registered(files, registry, superseded.as_str()).is_none() {
                            report(
                                issues,
                                "relation_missing",
                                file.path.as_str(),
                                "Asset supersedes a Registry record that is absent",
                            );
                        }
                    },
                    None => {},
                }
            },
            None => {},
        }
        assert(issues.deep_view() == before + entry_issues(all, whole, k as int));
        assert(issues.deep_view() == start + (registry_pass(all, whole, k as int) + entry_issues(
            all,
            whole,
            k as int,
        )));
        k += 1;
    }
}

/// A Source record that this version made, at its place, of one Asset.
pub open spec fn is_canonical_source_record(path: Seq<char>, source: SourceRecordView) -> bool {
    &&& prefixed_hash(source.id, "personal-source-"@) is Some
    &&& source.record_type == "source"@
    &&& source.schema_version == 1
    &&& source.scope == "personal"@
    &&& source.relations.asset_ids.len() == 1
    &&& is_repository_path(path)
    &&& is_canonical_path(path, source.id, source.created_at.seconds)
    &&& source.generation.extractor_name == EXTRACTOR_NAME@
    &&& source.generation.extractor_version == EXTRACTOR_VERSION@
    &&& source.generation.core_version == CORE_VERSION@
    &&& source.generation.processor_version == PROCESSOR_VERSION@
    &&& source.generation.prompt_version == PROMPT_VERSION@
}

fn canonical_source_record(path: &str, source: &SourceRecord) -> (result: bool)
    ensures
        result == is_canonical_source_record(path@, source.deep_view()),
{
    let generation = &source.generation;
    valid_prefixed_hash(source.id.as_str(), "personal-source-").is_some() && same(
        source.record_type.as_str(),
        "source",
    ) && source.schema_version == 1 && same(source.scope.as_str(), "personal")
        && source.relations.asset_ids.len() == 1 && portable_relative_path(path)
        && canonical_source_path(path, source.id.as_str(), source.created_at.seconds) && same(
        generation.extractor_name.as_str(),
        EXTRACTOR_NAME,
    ) && same(generation.extractor_version.as_str(), EXTRACTOR_VERSION) && same(
        generation.core_version.as_str(),
        CORE_VERSION,
    ) && same(generation.processor_version.as_str(), PROCESSOR_VERSION) && same(
        generation.prompt_version.as_str(),
        PROMPT_VERSION,
    )
}

/// The status of a Source and its review fit together. A stale or archived Source keeps
/// whatever review it had.
pub open spec fn review_fits(source: SourceRecordView, actual: Seq<char>) -> bool {
    let review = source.review;
    let untouched = review.approved_revision is None && review.reviewed_at is None;
    let refused = review.approved_revision is None && review.reviewed_at is Some;
    match source.status {
        SourceStatus::ReviewPending => review.status == ReviewStatus::Pending && untouched,
        SourceStatus::Approved => review.status == ReviewStatus::Approved && review.reviewed_at
            is Some && review.approved_revision == Some(actual),
        SourceStatus::Rejected => review.status == ReviewStatus::Rejected && refused,
        SourceStatus::Stale | SourceStatus::Archived => match review.status {
            ReviewStatus::Pending => untouched,
            ReviewStatus::Approved => review.approved_revision is Some && review.reviewed_at is Some,
            ReviewStatus::Rejected => refused,
        },
    }
}

fn is_revision(approved: &Option<String>, actual: &str) -> (result: bool)
    ensures
        result == (approved.deep_view() == Some(actual@)),
{
    match approved {
        Some(revision) => same(revision.as_str(), actual),
        None => false,
    }
}

fn review_is_fitting(source: &SourceRecord, actual: &str) -> (result: bool)
    ensures
        result == review_fits(source.deep_view(), actual@),
{
    let review = &source.review;
    let untouched = review.approved_revision.is_none() && review.reviewed_at.is_none();
    let refused = review.approved_revision.is_none() && review.reviewed_at.is_some();
    match source.status {
        SourceStatus::ReviewPending => review.status == ReviewStatus::Pending && untouched,
        SourceStatus::Approved => review.status == ReviewStatus::Approved
            && review.reviewed_at.is_some() && is_revision(&review.approved_revision, actual),
        SourceStatus::Rejected => review.status == ReviewStatus::Rejected && refused,
        SourceStatus::Stale | SourceStatus::Archived => match review.status {
            ReviewStatus::Pending => untouched,
            ReviewStatus::Approved => review.approved_revision.is_some()
                && review.reviewed_at.is_some(),
            ReviewStatus::Rejected => refused,
        },
    }
}

/// The command that brings the state of a Source and its Asset back together.
pub open spec fn repair_command(repository_root: Seq<char>, asset_id: Seq<char>) -> Seq<char> {
    "mko source repair-state --repo \""@ + repository_root + "\" --asset-id "@ + asset_id
}

fn repair_action(repository_root: &str, asset_id: &str) -> (action: String)
    ensures
        action@ == repair_command(repository_root@, asset_id@),
{
    cat4("mko source repair-state --repo \"", repository_root, "\" --asset-id ", asset_id)
}

/// What is wrong between a Source and the Asset it names.
pub open spec fn relation_issues(
    repository_root: Seq<char>,
    path: Seq<char>,
    source: SourceRecordView,
    files: Seq<InspectedFileView>,
    registry: Seq<int>,
) -> Seq<CheckIssueView> {
    let ids = source.relations.asset_ids;
    if ids.len() == 0 {
        Seq::empty()
    } else {
        match registered_at(files, registry, ids[0]) {
            None => seq![
                plain_issue(
                    "relation_missing"@,
                    path,
                    "Source relation targets an absent Asset Registry record"@,
                ),
            ],
            Some(at) => {
                let asset = asset_in(files[registry[at]])->0;
                when(
                    source.id != replace_first(asset.id, "asset"@, "source"@)
                        || source.generation.asset_fingerprint != asset.fingerprint.value,
                    plain_issue(
                        "relation_mismatch"@,
                        path,
                        "Source ID or generation fingerprint disagrees with its Asset"@,
                    ),
                ) + when(
                    (source.status == SourceStatus::ReviewPending && asset.asset_status
                        != AssetStatus::ReviewPending) || (source.status == SourceStatus::Approved
                        && asset.asset_status != AssetStatus::Processed),
                    issue_with_action(
                        "source_state_mismatch"@,
                        path,
                        "Source publication state and Asset durable state disagree"@,
                        repair_command(repository_root, ids[0]),
                    ),
                )
            },
        }
    }
}

/// What is wrong with the revision and the review of a Source.
pub open spec fn review_issues(
    path: Seq<char>,
    source: SourceRecordView,
    actual: Seq<char>,
) -> Seq<CheckIssueView> {
    when(
        source.content_revision != actual,
        issue_with_action(
            "revision_mismatch"@,
            path,
            "stored content_revision does not match recomputed semantic content"@,
            "review the semantic diff before approving the current revision"@,
        ),
    ) + when(
        source.review.status == ReviewStatus::Approved && source.review.approved_revision != Some(
            actual,
        ),
        issue_with_action(
            "approval_stale"@,
            path,
            "approval is not bound to the recomputed current revision"@,
            "run the human-only approval command after reviewing the current diff"@,
        ),
    ) + when(
        !review_fits(source, actual),
        plain_issue(
            "review_invalid"@,
            path,
            "Source status and review metadata are inconsistent"@,
        ),
    )
}

fn inspect_review(path: &str, source: &SourceRecord, actual: &str, issues: &mut Vec<CheckIssue>)
    ensures
        final(issues).deep_view() == old(issues).deep_view() + review_issues(
            path@,
            source.deep_view(),
            actual@,
        ),
{
    if !same(source.content_revision.as_str(), actual) {
        report_with_action(
            issues,
            "revision_mismatch",
            path,
            "stored content_revision does not match recomputed semantic content",
            "review the semantic diff before approving the current revision".to_owned(),
        );
    }
    if source.review.status == ReviewStatus::Approved && !is_revision(
        &source.review.approved_revision,
        actual,
    ) {
        report_with_action(
            issues,
            "approval_stale",
            path,
            "approval is not bound to the recomputed current revision",
            "run the human-only approval command after reviewing the current diff".to_owned(),
        );
    }
    if !review_is_fitting(source, actual) {
        report(
            issues,
            "review_invalid",
            path,
            "Source status and review metadata are inconsistent",
        );
    }
}

/// All that is wrong with a Source record.
pub open spec fn source_record_issues(
    repository_root: Seq<char>,
    path: Seq<char>,
    revised: RevisedSourceView,
    files: Seq<InspectedFileView>,
    registry: Seq<int>,
) -> Seq<CheckIssueView> {
    let source = revised.source;
    when(
        !is_canonical_source_record(path, source),
        plain_issue(
            "source_invalid"@,
            path,
            "Source identity, Scope, schema, path, or canonical relation is invalid"@,
        ),
    ) + (match revised.revision {
        Err(failure) => seq![unread_issue(path, failure)],
        Ok(actual) => review_issues(path, source, actual) + relation_issues(
            repository_root,
            path,
            source,
            files,
            registry,
        ),
    })
}

fn inspect_relation(
    repository_root: &str,
    path: &str,
    source: &SourceRecord,
    files: &Vec<InspectedFile>,
    registry: &Vec<usize>,
    issues: &mut Vec<CheckIssue>,
)
    requires
        names_assets(files.deep_view(), indexes(registry@)),
    ensures
        final(issues).deep_view() == old(issues).deep_view() + relation_issues(
            repository_root@,
            path@,
            source.deep_view(),
            files.deep_view(),
            indexes(registry@),
        ),
{
    if source.relations.asset_ids.len() == 0 {
        assert(issues.deep_view() + Seq::<CheckIssueView>::empty() == issues.deep_view());
        return;
    }
    let asset_id = source.relations.asset_ids[0].as_str();
    assert(source.deep_view().relations.asset_ids[0] == asset_id@);
    let at = match find_registered(files, registry, asset_id) {
        Some(at) => at,
        None => {
            report(
                issues,
                "relation_missing",
                path,
                "Source relation targets an absent Asset Registry record",
            );
            return;
        },
    };
    assert(indexes(registry@)[at as int] == registry@[at as int]);
    assert(files.deep_view()[registry@[at as int] as int] == files@[registry@[at as int] as int].deep_view());
    match asset_of(&files[registry[at]]) {
        Some(asset) => {
            let expected_id = with_first_replaced(asset.id.as_str(), "asset", "source");
            if !same(source.id.as_str(), expected_id.as_str()) || !same(
                source.generation.asset_fingerprint.as_str(),
                asset.fingerprint.value.as_str(),
            ) {
                report(
                    issues,
                    "relation_mismatch",
                    path,
                    "Source ID or generation fingerprint disagrees with its Asset",
                );
            }
            if (source.status == SourceStatus::ReviewPending && asset.asset_status
                != AssetStatus::ReviewPending) || (source.status == SourceStatus::Approved
                && asset.asset_status != AssetStatus::Processed) {
                let action = repair_action(repository_root, asset_id);
                report_with_action(
                    issues,
                    "source_state_mismatch",
                    path,
                    "Source publication state and Asset durable state disagree",
                    action,
                );
            }
        },
        None => {},
    }
}

fn validate_source(
    repository_root: &str,
    path: &str,
    revised: &RevisedSource,
    files: &Vec<InspectedFile>,
    registry: &Vec<usize>,
    issues: &mut Vec<CheckIssue>,
)
    requires
        names_assets(files.deep_view(), indexes(registry@)),
    ensures
        final(issues).deep_view() == old(issues).deep_view() + source_record_issues(
            repository_root@,
            path@,
            revised.deep_view(),
            files.deep_view(),
            indexes(registry@),
        ),
{
    let source = &revised.source;
    let ghost start = issues.deep_view();
    if !canonical_source_record(path, source) {
        report(
            issues,
            "source_invalid",
            path,
            "Source identity, Scope, schema, path, or canonical relation is invalid",
        );
    }
    let ghost identified = issues.deep_view();
    let actual = match &revised.revision {
        Ok(actual) => actual.as_str(),
        Err(failure) => {
            report(issues, failure.code(), path, failure.message());
            return;
        },
    };
    let ghost told = source_record_issues(
        repository_root@,
        path@,
        revised.deep_view(),
        files.deep_view(),
        indexes(registry@),
    );
    inspect_review(path, source, actual, issues);
    let ghost on_review = review_issues(path@, source.deep_view(), actual@);
    inspect_relation(repository_root, path, source, files, registry, issues);
    let ghost on_relation = relation_issues(
        repository_root@,
        path@,
        source.deep_view(),
        files.deep_view(),
        indexes(registry@),
    );
    assert(issues.deep_view() == identified + (on_review + on_relation));
    assert(issues.deep_view() == start + told);
}

/// The Source of a file names the Asset first.
pub open spec fn relates_first(file: InspectedFileView, asset_id: Seq<char>) -> bool {
    match source_in(file) {
        Some(revised) => {
            let ids = revised.source.relations.asset_ids;
            ids.len() > 0 && ids[0] == asset_id
        },
        None => false,
    }
}

/// The latest of the first `n` files whose Source names the Asset first.
pub open spec fn source_before(files: Seq<InspectedFileView>, asset_id: Seq<char>, n: int) -> Option<
    int,
>
    decreases n,
{
    if n <= 0 {
        None
    } else if relates_first(files[n - 1], asset_id) {
        Some(n - 1)
    } else {
        source_before(files, asset_id, n - 1)
    }
}

/// Another Source relates to the same Asset.
pub open spec fn conflict_issues(files: Seq<InspectedFileView>, i: int) -> Seq<CheckIssueView> {
    let ids = source_in(files[i])->0.source.relations.asset_ids;
    if ids.len() == 0 {
        Seq::empty()
    } else {
        match source_before(files, ids[0], i) {
            Some(other) => seq![
                issue_with_action(
                    "relation_conflict"@,
                    files[i].path,
                    "more than one canonical Source relates to the same Asset"@,
                    "compare with "@ + files[other].path + " and keep one canonical Source"@,
                ),
            ],
            None => Seq::empty(),
        }
    }
}

pub open spec fn source_pass(
    repository_root: Seq<char>,
    files: Seq<InspectedFileView>,
    registry: Seq<int>,
    n: int,
) -> Seq<CheckIssueView>
    decreases n,
{
    if n <= 0 {
        Seq::empty()
    } else {
        let before = source_pass(repository_root, files, registry, n - 1);
        match source_in(files[n - 1]) {
            Some(revised) => before + source_record_issues(
                repository_root,
                files[n - 1].path,
                revised,
                files,
                registry,
            ) + conflict_issues(files, n - 1),
            None => before,
        }
    }
}

fn names_first(file: &InspectedFile, asset_id: &str) -> (result: bool)
    ensures
        result == relates_first(file.deep_view(), asset_id@),
{
    match source_of(file) {
        Some(revised) => {
            let ids = &revised.source.relations.asset_ids;
            if ids.len() == 0 {
                return false;
            }
            assert(ids.deep_view()[0] == ids@[0]@);
            same(ids[0].as_str(), asset_id)
        },
        None => false,
    }
}

#[verifier::loop_isolation(false)]
fn inspect_sources(
    repository_root: &str,
    files: &Vec<InspectedFile>,
    registry: &Vec<usize>,
    issues: &mut Vec<CheckIssue>,
)
    requires
        names_assets(files.deep_view(), indexes(registry@)),
    ensures
        final(issues).deep_view() == old(issues).deep_view() + source_pass(
            repository_root@,
            files.deep_view(),
            indexes(registry@),
            files.deep_view().len() as int,
        ),
{
    let ghost all = files.deep_view();
    let ghost whole = indexes(registry@);
    let ghost start = issues.deep_view();
    assert(start + source_pass(repository_root@, all, whole, 0) == start);
    let mut i: usize = 0;
    while i < files.len()
        invariant
            i <= files.len(),
            issues.deep_view() == start + source_pass(repository_root@, all, whole, i as int),
        decreases files.len() - i,
    {
        let file = &files[i];
        assert(all[i as int] == file.deep_view());
        match source_of(file) {
            Some(revised) => {
                let ghost before = issues.deep_view();
                validate_source(
                    repository_root,
                    file.path.as_str(),
                    revised,
                    files,
                    registry,
                    issues,
                );
                let ghost validated = issues.deep_view();
                inspect_conflict(files, i, issues);
                assert(issues.deep_view() == start + (source_pass(
                    repository_root@,
                    all,
                    whole,
                    i as int,
                ) + source_record_issues(
                    repository_root@,
                    file.path@,
                    revised.deep_view(),
                    all,
                    whole,
                ) + conflict_issues(all, i as int)));
            },
            None => {},
        }
        i += 1;
    }
}

#[verifier::loop_isolation(false)]
fn inspect_conflict(files: &Vec<InspectedFile>, i: usize, issues: &mut Vec<CheckIssue>)
    requires
        i < files.len(),
        source_in(files.deep_view()[i as int]) is Some,
    ensures
        final(issues).deep_view() == old(issues).deep_view() + conflict_issues(
            files.deep_view(),
            i as int,
        ),
{
    let ghost all = files.deep_view();
    let ghost start = issues.deep_view();
    let file = &files[i];
    assert(all[i as int] == file.deep_view());
    assert(start + Seq::<CheckIssueView>::empty() == start);
    match source_of(file) {
        Some(revised) => {
            let ids = &revised.source.relations.asset_ids;
            if ids.len() == 0 {
                return;
            }
            let asset_id = ids[0].as_str();
            assert(ids.deep_view()[0] == asset_id@);
            let mut n: usize = i;
            while n > 0
                invariant
                    n <= i,
                    source_before(all, asset_id@, i as int) == source_before(
                        all,
                        asset_id@,
                        n as int,
                    ),
                    *issues == *old(issues),
                decreases n,
            {
                assert(all[n - 1] == files@[n - 1].deep_view());
                if names_first(&files[n - 1], asset_id) {
                    let action = cat3(
                        "compare with ",
                        files[n - 1].path.as_str(),
                        " and keep one canonical Source",
                    );
                    report_with_action(
                        issues,
                        "relation_conflict",
                        file.path.as_str(),
                        "more than one canonical Source relates to the same Asset",
                        action,
                    );
                    return;
                }
                n -= 1;
            }
        },
        None => {},
    }
}

/// The first file whose Source relates to the Asset and to nothing else.
pub open spec fn source_related(files: Seq<InspectedFileView>, asset_id: Seq<char>, from: int) -> Option<
    RevisedSourceView,
>
    decreases files.len() - from,
{
    if from >= files.len() {
        None
    } else {
        match source_in(files[from]) {
            Some(revised) => if revised.source.relations.asset_ids == seq![asset_id] {
                Some(revised)
            } else {
                source_related(files, asset_id, from + 1)
            },
            None => source_related(files, asset_id, from + 1),
        }
    }
}

/// A Source whose content awaits review as it stands.
pub open spec fn is_current_draft(related: Option<RevisedSourceView>) -> bool {
    related matches Some(revised) && revised.revision matches Ok(actual) && revised.source.status
        == SourceStatus::ReviewPending && revised.source.review.status == ReviewStatus::Pending
        && revised.source.content_revision == actual
}

/// A Source that is approved as it stands.
pub open spec fn is_current_approval(related: Option<RevisedSourceView>) -> bool {
    related matches Some(revised) && revised.source.status == SourceStatus::Approved
        && revised.source.review.status == ReviewStatus::Approved
        && revised.source.review.approved_revision == (match revised.revision {
        Ok(actual) => Some(actual),
        Err(_) => None,
    })
}

/// Some Asset of the registry supersedes the one with the ID.
pub open spec fn has_successor(
    files: Seq<InspectedFileView>,
    registry: Seq<int>,
    asset_id: Seq<char>,
) -> bool {
    exists|k: int|
        0 <= k < registry.len() && asset_in(files[#[trigger] registry[k]])->0.supersedes == Some(
            asset_id,
        )
}

/// What is wrong between the state of an Asset and the rest of the repository.
pub open spec fn state_issues(
    repository_root: Seq<char>,
    files: Seq<InspectedFileView>,
    registry: Seq<int>,
    k: int,
) -> Seq<CheckIssueView> {
    let file = files[registry[k]];
    let asset = asset_in(file)->0;
    let related = source_related(files, asset.id, 0);
    when(
        asset.asset_status == AssetStatus::Changed && has_successor(files, registry, asset.id),
        issue_with_action(
            "lineage_repair_needed"@,
            file.path,
            "an authoritative successor exists but the old Asset is still changed"@,
            "mko asset repair-lineage --repo \""@ + repository_root + "\" --asset-id "@ + asset.id,
        ),
    ) + when(
        asset.asset_status == AssetStatus::ReviewPending && !is_current_draft(related),
        issue_with_action(
            "relation_missing"@,
            file.path,
            "review_pending Asset does not have one current pending Source"@,
            "restore or regenerate the canonical pending Source"@,
        ),
    ) + when(
        asset.asset_status == AssetStatus::Processed && !is_current_approval(related),
        issue_with_action(
            "source_state_mismatch"@,
            file.path,
            "processed Asset does not have one current approved Source"@,
            repair_command(repository_root, asset.id),
        ),
    )
}

pub open spec fn state_pass(
    repository_root: Seq<char>,
    files: Seq<InspectedFileView>,
    registry: Seq<int>,
    n: int,
) -> Seq<CheckIssueView>
    decreases n,
{
    if n <= 0 {
        Seq::empty()
    } else {
        state_pass(repository_root, files, registry, n - 1) + state_issues(
            repository_root,
            files,
            registry,
            n - 1,
        )
    }
}

#[verifier::loop_isolation(false)]
fn find_related<'a>(files: &'a Vec<InspectedFile>, asset_id: &str) -> (related: Option<
    &'a RevisedSource,
>)
    ensures
        match related {
            Some(revised) => source_related(files.deep_view(), asset_id@, 0) == Some(
                revised.deep_view(),
            ),
            None => source_related(files.deep_view(), asset_id@, 0) is None,
        },
{
    let ghost all = files.deep_view();
    let mut i: usize = 0;
    while i < files.len()
        invariant
            i <= files.len(),
            source_related(all, asset_id@, 0) == source_related(all, asset_id@, i as int),
        decreases files.len() - i,
    {
        assert(all[i as int] == files@[i as int].deep_view());
        match source_of(&files[i]) {
            Some(revised) => {
                let ids = &revised.source.relations.asset_ids;
                assert(seq![asset_id@].len() == 1 && seq![asset_id@][0] == asset_id@);
                if ids.len() == 1 {
                    assert(ids.deep_view()[0] == ids@[0]@);
                    if same(ids[0].as_str(), asset_id) {
                        assert(ids.deep_view() == seq![asset_id@]);
                        return Some(revised);
                    }
                }
                assert(ids.deep_view() != seq![asset_id@]);
            },
            None => {},
        }
        i += 1;
    }
    None
}

#[verifier::loop_isolation(false)]
fn successor_exists(files: &Vec<InspectedFile>, registry: &Vec<usize>, asset_id: &str) -> (found: bool)
    requires
        names_assets(files.deep_view(), indexes(registry@)),
    ensures
        found == has_successor(files.deep_view(), indexes(registry@), asset_id@),
{
    let ghost all = files.deep_view();
    let ghost whole = indexes(registry@);
    let mut k: usize = 0;
    while k < registry.len()
        invariant
            k <= registry.len(),
            forall|m: int|
                0 <= m < k ==> asset_in(files.deep_view()[#[trigger] whole[m]])->0.supersedes != Some(
                    asset_id@,
                ),
        decreases registry.len() - k,
    {
        assert(whole[k as int] == registry@[k as int]);
        assert(all[whole[k as int]] == files@[whole[k as int]].deep_view());
        match asset_of(&files[registry[k]]) {
            Some(asset) => {
                if is_revision(&asset.supersedes, asset_id) {
                    return true;
                }
            },
            None => {},
        }
        k += 1;
    }
    false
}

fn current_draft(related: Option<&RevisedSource>) -> (result: bool)
    ensures
        result == is_current_draft(
            match related {
                Some(revised) => Some(revised.deep_view()),
                None => None,
            },
        ),
{
    match related {
        Some(revised) => match &revised.revision {
            Ok(actual) => revised.source.status == SourceStatus::ReviewPending
                && revised.source.review.status == ReviewStatus::Pending && same(
                revised.source.content_revision.as_str(),
                actual.as_str(),
            ),
            Err(_) => false,
        },
        None => false,
    }
}

fn current_approval(related: Option<&RevisedSource>) -> (result: bool)
    ensures
        result == is_current_approval(
            match related {
                Some(revised) => Some(revised.deep_view()),
                None => None,
            },
        ),
{
    match related {
        Some(revised) => revised.source.status == SourceStatus::Approved
            && revised.source.review.status == ReviewStatus::Approved && match &revised.revision {
            Ok(actual) => is_revision(&revised.source.review.approved_revision, actual.as_str()),
            Err(_) => revised.source.review.approved_revision.is_none(),
        },
        None => false,
    }
}

#[verifier::loop_isolation(false)]
fn inspect_states(
    repository_root: &str,
    files: &Vec<InspectedFile>,
    registry: &Vec<usize>,
    issues: &mut Vec<CheckIssue>,
)
    requires
        names_assets(files.deep_view(), indexes(registry@)),
    ensures
        final(issues).deep_view() == old(issues).deep_view() + state_pass(
            repository_root@,
            files.deep_view(),
            indexes(registry@),
            registry@.len() as int,
        ),
{
    let ghost all = files.deep_view();
    let ghost whole = indexes(registry@);
    let ghost start = issues.deep_view();
    assert(start + state_pass(repository_root@, all, whole, 0) == start);
    let mut k: usize = 0;
    while k < registry.len()
        invariant
            k <= registry.len(),
            issues.deep_view() == start + state_pass(repository_root@, all, whole, k as int),
        decreases registry.len() - k,
    {
        let ghost before = issues.deep_view();
        assert(whole[k as int] == registry@[k as int]);
        assert(all[whole[k as int]] == files@[whole[k as int]].deep_view());
        inspect_state(repository_root, files, registry, k, issues);
        assert(issues.deep_view() == start + (state_pass(repository_root@, all, whole, k as int)
            + state_issues(repository_root@, all, whole, k as int)));
        k += 1;
    }
}

fn inspect_state(
    repository_root: &str,
    files: &Vec<InspectedFile>,
    registry: &Vec<usize>,
    k: usize,
    issues: &mut Vec<CheckIssue>,
)
    requires
        names_assets(files.deep_view(), indexes(registry@)),
        k < registry.len(),
    ensures
        final(issues).deep_view() == old(issues).deep_view() + state_issues(
            repository_root@,
            files.deep_view(),
            indexes(registry@),
            k as int,
        ),
{
    let ghost all = files.deep_view();
    let ghost whole = indexes(registry@);
    assert(whole[k as int] == registry@[k as int]);
    assert(all[whole[k as int]] == files@[whole[k as int]].deep_view());
    let file = &files[registry[k]];
    match asset_of(file) {
        Some(asset) => {
            let related = find_related(files, asset.id.as_str());
            if asset.asset_status == AssetStatus::Changed && successor_exists(
                files,
                registry,
                asset.id.as_str(),
            ) {
                let action = cat4(
                    "mko asset repair-lineage --repo \"",
                    repository_root,
                    "\" --asset-id ",
                    asset.id.as_str(),
                );
                report_with_action(
                    issues,
                    "lineage_repair_needed",
                    file.path.as_str(),
                    "an authoritative successor exists but the old Asset is still changed",
                    action,
                );
            }
            if asset.asset_status == AssetStatus::ReviewPending && !current_draft(related) {
                report_with_action(
                    issues,
                    "relation_missing",
                    file.path.as_str(),
                    "review_pending Asset does not have one current pending Source",
                    "restore or regenerate the canonical pending Source".to_owned(),
                );
            }
            if asset.asset_status == AssetStatus::Processed && !current_approval(related) {
                let action = repair_action(repository_root, asset.id.as_str());
                report_with_action(
                    issues,
                    "source_state_mismatch",
                    file.path.as_str(),
                    "processed Asset does not have one current approved Source",
                    action,
                );
            }
        },
        None => {},
    }
}

/// All that is wrong with the files of a repository, in the order in which it is found.
pub open spec fn inspection(
    repository_root: Seq<char>,
    files: Seq<InspectedFileView>,
    allowed: Seq<Transition>,
) -> Seq<CheckIssueView> {
    let registry = registry_of(files, files.len() as int);
    file_pass(files, allowed, files.len() as int) + registry_pass(
        files,
        registry,
        registry.len() as int,
    ) + source_pass(repository_root, files, registry, files.len() as int) + state_pass(
        repository_root,
        files,
        registry,
        registry.len() as int,
    )
}

/// Adds all that is wrong with the files to `issues`.
pub fn inspect_files(
    repository_root: &str,
    files: &Vec<InspectedFile>,
    allowed: &Vec<Transition>,
    issues: &mut Vec<CheckIssue>,
)
    ensures
        final(issues).deep_view() == old(issues).deep_view() + inspection(
            repository_root@,
            files.deep_view(),
            allowed@,
        ),
{
    let ghost start = issues.deep_view();
    let registry = inspect_each_file(files, allowed, issues);
    proof {
        registry_names_assets(files.deep_view(), files.deep_view().len() as int);
        assert(indexes(registry@).len() == registry@.len());
    }
    inspect_registry(files, &registry, issues);
    inspect_sources(repository_root, files, &registry, issues);
    inspect_states(repository_root, files, &registry, issues);
    assert(issues.deep_view() == start + inspection(repository_root@, files.deep_view(), allowed@));
}

/// What was found at the place of the runtime locks.
#[derive(Clone, Debug, PartialEq, Eq)]
pub enum LockListing {
    Absent,
    NotDirectory,
    Listed { names: Vec<String> },
}

/// An Asset operation holds a lock of this name.
pub open spec fn is_lock_name(name: Seq<char>) -> bool {
    ".lock"@.is_suffix_of(name) || ".lock.takeover"@.is_suffix_of(name)
}

pub open spec fn lock_issue(name: Seq<char>) -> CheckIssueView {
    issue_with_action(
        "lock_held"@,
        ".knowledge-os/runtime/locks/"@ + name,
        "an Asset operation lock exists"@,
        "verify the owner process before using --clear-stale-lock"@,
    )
}

pub open spec fn lock_issues(listing: LockListing) -> Seq<CheckIssueView> {
    match listing {
        LockListing::Absent => Seq::empty(),
        LockListing::NotDirectory => seq![
            plain_issue(
                "runtime_path_invalid"@,
                ".knowledge-os/runtime/locks"@,
                "runtime lock path is not a real directory"@,
            ),
        ],
        LockListing::Listed { names } => names.deep_view().filter(
            |name: Seq<char>| is_lock_name(name),
        ).map_values(|name: Seq<char>| lock_issue(name)),
    }
}

#[verifier::loop_isolation(false)]
fn inspect_lock_names(names: &Vec<String>, issues: &mut Vec<CheckIssue>)
    ensures
        final(issues).deep_view() == old(issues).deep_view() + names.deep_view().filter(
            |name: Seq<char>| is_lock_name(name),
        ).map_values(|name: Seq<char>| lock_issue(name)),
{
    let ghost start = issues.deep_view();
    let ghost all = names.deep_view();
    let ghost held = |name: Seq<char>| is_lock_name(name);
    let ghost told = |name: Seq<char>| lock_issue(name);
    let mut i: usize = 0;
    proof {
        reveal(Seq::filter);
        assert(all.take(0).filter(held).map_values(told) == Seq::<CheckIssueView>::empty());
    }
    while i < names.len()
        invariant
            i <= names.len(),
            issues.deep_view() == start + all.take(i as int).filter(held).map_values(told),
        decreases names.len() - i,
    {
        let ghost before = all.take(i as int).filter(held);
        proof {
            reveal(Seq::filter);
            assert(all.take(i + 1).drop_last() == all.take(i as int));
            assert(all.take(i + 1).last() == names@[i as int]@);
        }
        let name = names[i].as_str();
        if ends_with(name, ".lock") || ends_with(name, ".lock.takeover") {
            let path = crate::text::cat2(".knowledge-os/runtime/locks/", name);
            report_with_action(
                issues,
                "lock_held",
                path.as_str(),
                "an Asset operation lock exists",
                "verify the owner process before using --clear-stale-lock".to_owned(),
            );
            assert(before.push(name@).map_values(told) == before.map_values(told).push(told(name@)));
        }
        i += 1;
    }
    assert(all.take(i as int) == all);
}

/// Adds the locks that are held to `issues`.
pub fn inspect_locks(listing: &LockListing, issues: &mut Vec<CheckIssue>)
    ensures
        final(issues).deep_view() == old(issues).deep_view() + lock_issues(*listing),
{
    match listing {
        LockListing::Absent => {
            assert(issues.deep_view() + Seq::<CheckIssueView>::empty() == issues.deep_view());
        },
        LockListing::NotDirectory => {
            report(
                issues,
                "runtime_path_invalid",
                ".knowledge-os/runtime/locks",
                "runtime lock path is not a real directory",
            );
        },
        LockListing::Listed { names } => {
            inspect_lock_names(names, issues);
        },
    }
}

/// The first file at the place of the hook.
pub open spec fn hook_in(files: Seq<InspectedFileView>, from: int) -> Option<Seq<u8>>
    decreases files.len() - from,
{
    if from >= files.len() {
        None
    } else if files[from].path == ".githooks/pre-commit"@ {
        Some(files[from].bytes)
    } else {
        hook_in(files, from + 1)
    }
}

/// What is wrong with the hook. `configured` is the hook path of the repository, if Git
/// names one.
pub open spec fn hook_issues(
    repository_root: Seq<char>,
    files: Seq<InspectedFileView>,
    configured: Option<Seq<char>>,
) -> Seq<CheckIssueView> {
    let command = "mko hooks install --repo \""@ + repository_root + "\""@;
    when(
        !(hook_in(files, 0) matches Some(content) && is_managed_script(content)),
        issue_with_action(
            "hook_missing"@,
            ".githooks/pre-commit"@,
            "managed pre-commit hook is absent or differs from the v0.1 script"@,
            command,
        ),
    ) + when(
        !(configured matches Some(value) && trim(value) == ".githooks"@),
        issue_with_action(
            "hook_not_configured"@,
            ".git/config"@,
            "Git core.hooksPath is not configured as .githooks"@,
            command,
        ),
    )
}

#[verifier::loop_isolation(false)]
fn hook_is_managed(files: &Vec<InspectedFile>) -> (result: bool)
    ensures
        result == (hook_in(files.deep_view(), 0) matches Some(content) && is_managed_script(
            content,
        )),
{
    let ghost all = files.deep_view();
    let mut i: usize = 0;
    while i < files.len()
        invariant
            i <= files.len(),
            hook_in(all, 0) == hook_in(all, i as int),
        decreases files.len() - i,
    {
        assert(all[i as int] == files@[i as int].deep_view());
        if same(files[i].path.as_str(), ".githooks/pre-commit") {
            return managed_script(&files[i].bytes);
        }
        i += 1;
    }
    false
}

/// Adds what is wrong with the hook to `issues`.
pub fn inspect_hook(
    repository_root: &str,
    files: &Vec<InspectedFile>,
    configured: &Option<String>,
    issues: &mut Vec<CheckIssue>,
)
    ensures
        final(issues).deep_view() == old(issues).deep_view() + hook_issues(
            repository_root@,
            files.deep_view(),
            configured.deep_view(),
        ),
{
    if !hook_is_managed(files) {
        let action = cat3("mko hooks install --repo \"", repository_root, "\"");
        report_with_action(
            issues,
            "hook_missing",
            ".githooks/pre-commit",
            "managed pre-commit hook is absent or differs from the v0.1 script",
            action,
        );
    }
    let points_here = match configured {
        Some(value) => same(trimmed(value.as_str()), ".githooks"),
        None => false,
    };
    if !points_here {
        let action = cat3("mko hooks install --repo \"", repository_root, "\"");
        report_with_action(
            issues,
            "hook_not_configured",
            ".git/config",
            "Git core.hooksPath is not configured as .githooks",
            action,
        );
    }
}

/// The issues in order, each once.
pub open spec fn tidy(issues: Seq<CheckIssueView>) -> Seq<CheckIssueView> {
    dedup(stable_sort::<CheckIssue>(issues))
}

pub fn sort_and_deduplicate(issues: Vec<CheckIssue>) -> (result: Vec<CheckIssue>)
    ensures
        result.deep_view() == tidy(issues.deep_view()),
{
    let sorted = sort(issues);
    remove_repeats(sorted)
}

/// The report on a repository: `found` are the files that could be read, and
/// `collected` what was wrong with those that could not.
pub open spec fn report_of(
    repository_root: Seq<char>,
    found: Seq<InspectedFileView>,
    collected: Seq<CheckIssueView>,
    allowed: Seq<Transition>,
    locks: LockListing,
    hooks_path: Option<Seq<char>>,
) -> CheckReportView {
    let files = stable_sort::<InspectedFile>(found);
    let issues = tidy(
        collected + inspection(repository_root, files, allowed) + lock_issues(locks) + hook_issues(
            repository_root,
            files,
            hooks_path,
        ),
    );
    CheckReportView {
        result: if issues.len() == 0 {
            "ok"@
        } else {
            "failed"@
        },
        issues,
    }
}

/// Checks a repository whose files have been collected.
pub fn check_repository(
    repository_root: &str,
    found: Vec<InspectedFile>,
    collected: Vec<CheckIssue>,
    allowed: &Vec<Transition>,
    locks: &LockListing,
    hooks_path: &Option<String>,
) -> (report: CheckReport)
    ensures
        report.deep_view() == report_of(
            repository_root@,
            found.deep_view(),
            collected.deep_view(),
            allowed@,
            *locks,
            hooks_path.deep_view(),
        ),
{
    let files = sort(found);
    let mut issues = collected;
    inspect_files(repository_root, &files, allowed, &mut issues);
    inspect_locks(locks, &mut issues);
    inspect_hook(repository_root, &files, hooks_path, &mut issues);
    let issues = sort_and_deduplicate(issues);
    let result = if issues.len() == 0 {
        "ok"
    } else {
        "failed"
    };
    CheckReport { result: result.to_owned(), issues }
}

/// The root of a check: a path that resolves to a directory.
pub fn resolve_check_root(resolved: Result<String, String>, is_directory: bool) -> (result: Result<
    String,
    MkoError,
>)
    ensures
        outcome(result) == (match resolved {
            Err(detail) => Err(
                error(
                    "repository_root_invalid"@,
                    "cannot resolve repository root: "@ + detail@,
                ),
            ),
            Ok(path) => if is_directory {
                Ok(path@)
            } else {
                Err(error("repository_root_invalid"@, "repository root must be a directory"@))
            },
        }),
{
    match resolved {
        Err(detail) => {
            let message = crate::text::cat2("cannot resolve repository root: ", detail.as_str());
            Err(MkoError::new("repository_root_invalid", message.as_str()))
        },
        Ok(path) => if is_directory {
            Ok(path)
        } else {
            Err(MkoError::new("repository_root_invalid", "repository root must be a directory"))
        },
    }
}

proof fn dedup_picks(items: Seq<CheckIssueView>)
    ensures
        forall|k: int| 0 <= k < dedup(items).len() ==> items.contains(#[trigger] dedup(items)[k]),
        dedup(items).len() <= items.len(),
        items.len() > 0 ==> dedup(items).len() > 0 && dedup(items).last() == items.last(),
    decreases items.len(),
{
    if items.len() >= 2 {
        let front = items.drop_last();
        dedup_picks(front);
        assert(front.last() == items[items.len() - 2]);
        assert forall|k: int| 0 <= k < dedup(items).len() implies items.contains(
            #[trigger] dedup(items)[k],
        ) by {
            if k < dedup(front).len() {
                assert(dedup(items)[k] == dedup(front)[k]);
                let at = choose|at: int| 0 <= at < front.len() && front[at] == dedup(front)[k];
                assert(items[at] == dedup(items)[k]);
            } else {
                assert(items[items.len() - 1] == dedup(items)[k]);
            }
        }
    } else {
        assert forall|k: int| 0 <= k < dedup(items).len() implies items.contains(
            #[trigger] dedup(items)[k],
        ) by {
            assert(items[k] == dedup(items)[k]);
        }
    }
}

proof fn dedup_keeps_order(items: Seq<CheckIssueView>)
    requires
        is_ordered::<CheckIssue>(items),
    ensures
        is_ordered::<CheckIssue>(dedup(items)),
    decreases items.len(),
{
    if items.len() >= 2 {
        let front = items.drop_last();
        assert(is_ordered::<CheckIssue>(front)) by {
            assert forall|i: int, j: int| 0 <= i <= j < front.len() implies #[trigger] CheckIssue::leq(
                front[i],
                front[j],
            ) by {
                assert(CheckIssue::leq(items[i], items[j]));
            }
        }
        dedup_keeps_order(front);
        dedup_picks(front);
        let kept = dedup(items);
        assert forall|i: int, j: int| 0 <= i <= j < kept.len() implies #[trigger] CheckIssue::leq(
            kept[i],
            kept[j],
        ) by {
            if j < dedup(front).len() {
                assert(CheckIssue::leq(dedup(front)[i], dedup(front)[j]));
            } else {
                assert(kept[j] == items.last());
                if i < dedup(front).len() {
                    let at = choose|at: int| 0 <= at < front.len() && front[at] == dedup(front)[i];
                    assert(front.contains(dedup(front)[i]));
                    assert(CheckIssue::leq(items[at], items[items.len() - 1]));
                } else {
                    assert(CheckIssue::leq(items[items.len() - 1], items[items.len() - 1]));
                }
            }
        }
    }
}

/// A report lists its issues in order and never the same one twice in a row.
pub proof fn reports_are_tidy(issues: Seq<CheckIssueView>)
    ensures
        is_ordered::<CheckIssue>(tidy(issues)),
        forall|i: int| 1 <= i < tidy(issues).len() ==> tidy(issues)[i - 1] != #[trigger] tidy(issues)[i],
{
    sorting_orders::<CheckIssue>(issues);
    dedup_keeps_order(stable_sort::<CheckIssue>(issues));
    dedup_leaves_no_repetition(stable_sort::<CheckIssue>(issues));
}

} // verus!

//! Which files of a repository are checked, within fixed bounds: those of the working tree,
//! or those that Git has staged.

use crate::check::{
    is_repository_path, issue_with_action, plain_issue, portable_relative_path, CheckIssue,
    CheckIssueView,
};
use crate::error::{error, verdict, MkoError};
use crate::order::lists_text;
use crate::text::{
    cat3, parse_number, same, starts_with, trim, trimmed, words, words_of, written_number,
};
use crate::unicode::{lossy_text, to_lossy_text, to_text};
use vstd::prelude::*;
use vstd::utf8::{decode_utf8, valid_utf8};

verus! {

/// The largest file that is checked.
pub const MAX_CHECK_FILE_BYTES: u64 = 2_097_152;

/// The most bytes that are checked together.
pub const MAX_CHECK_TOTAL_BYTES: u64 = 33_554_432;

/// The most files that are checked.
pub const MAX_CHECK_FILES: usize = 20_000;

/// The longest listing that Git may give.
pub const MAX_GIT_LIST_BYTES: u64 = 8_388_608;

/// The longest answer of Git to the question for a size.
pub const MAX_GIT_SIZE_BYTES: u64 = 64;

/// A file that is checked.
#[derive(Clone, Debug, PartialEq, Eq)]
pub struct RepositoryFile {
    pub path: String,
    pub bytes: Vec<u8>,
}

#[verifier::ext_equal]
pub struct RepositoryFileView {
    pub path: Seq<char>,
    pub bytes: Seq<u8>,
}

impl DeepView for RepositoryFile {
    type V = RepositoryFileView;

    open spec fn deep_view(&self) -> RepositoryFileView {
        RepositoryFileView { path: self.path@, bytes: self.bytes@ }
    }
}

/// The bytes of the files together.
pub open spec fn total_bytes(files: Seq<RepositoryFileView>) -> nat
    decreases files.len(),
{
    if files.len() == 0 {
        0
    } else {
        total_bytes(files.drop_last()) + files.last().bytes.len()
    }
}

/// The files that have been collected, and what was wrong with those that were left out.
#[derive(Debug)]
pub struct FileCollector {
    files: Vec<RepositoryFile>,
    issues: Vec<CheckIssue>,
    total: u64,
}

#[verifier::ext_equal]
pub struct FileCollectorView {
    pub files: Seq<RepositoryFileView>,
    pub issues: Seq<CheckIssueView>,
}

impl DeepView for FileCollector {
    type V = FileCollectorView;

    closed spec fn deep_view(&self) -> FileCollectorView {
        FileCollectorView { files: self.files.deep_view(), issues: self.issues.deep_view() }
    }
}

impl FileCollectorView {
    pub open spec fn with_issue(self, issue: CheckIssueView) -> FileCollectorView {
        FileCollectorView { issues: self.issues.push(issue), ..self }
    }

    pub open spec fn with_file(self, path: Seq<char>, bytes: Seq<u8>) -> FileCollectorView {
        FileCollectorView { files: self.files.push(RepositoryFileView { path, bytes }), ..self }
    }

    /// The bytes of one more file of this size would be too many.
    pub open spec fn is_full_for(self, size: u64) -> bool {
        total_bytes(self.files) + size > MAX_CHECK_TOTAL_BYTES
    }
}

/// An issue that belongs to no file.
pub open spec fn general_issue(code: Seq<char>, message: Seq<char>) -> CheckIssueView {
    CheckIssueView { code, path: None, rule: None, message, safe_action: None }
}

/// What is done with an entry of a directory.
#[derive(Clone, Debug, PartialEq, Eq)]
pub enum EntryStep {
    /// No further entry of the directory is looked at.
    Leave,
    /// The entry is passed over.
    Skip,
    /// The type of the entry decides.
    Inspect { relative: String },
}

/// The path of an entry below the root.
pub open spec fn relative_path(prefix: Seq<char>, name: Seq<char>) -> Seq<char> {
    if prefix.len() == 0 {
        name
    } else {
        prefix + "/"@ + name
    }
}

/// What is never checked: what Git keeps, build outputs and runtime state.
pub open spec fn is_ignored(path: Seq<char>) -> bool {
    ||| path == ".git"@
    ||| ".git/"@.is_prefix_of(path)
    ||| path == "target"@
    ||| "target/"@.is_prefix_of(path)
    ||| path == ".knowledge-os/runtime"@
    ||| ".knowledge-os/runtime/"@.is_prefix_of(path)
}

fn ignored(path: &str) -> (result: bool)
    ensures
        result == is_ignored(path@),
{
    same(path, ".git") || starts_with(path, ".git/") || same(path, "target") || starts_with(
        path,
        "target/",
    ) || same(path, ".knowledge-os/runtime") || starts_with(path, ".knowledge-os/runtime/")
}

/// What an entry of a directory is.
#[derive(Clone, Copy, Debug, PartialEq, Eq, Structural)]
pub enum EntryType {
    Symlink,
    Directory,
    File,
    Other,
}

/// What is done with an entry of a known type.
#[derive(Clone, Copy, Debug, PartialEq, Eq, Structural)]
pub enum TypeStep {
    Skip,
    Descend,
    Measure,
}

impl FileCollector {
    /// The count of bytes is that of the files, which keep within the bounds. A file may
    /// grow while it is read, so the last one may pass the bound on all of them.
    pub closed spec fn wf(self) -> bool {
        &&& self.total == total_bytes(self.files.deep_view())
        &&& self.total <= MAX_CHECK_TOTAL_BYTES + MAX_CHECK_FILE_BYTES + 1
        &&& self.files.len() <= MAX_CHECK_FILES
    }

    pub fn new() -> (collector: Self)
        ensures
            collector.wf(),
            collector.deep_view() == (FileCollectorView {
                files: Seq::empty(),
                issues: Seq::empty(),
            }),
    {
        let collector = FileCollector { files: Vec::new(), issues: Vec::new(), total: 0 };
        assert(collector.files.deep_view() == Seq::<RepositoryFileView>::empty());
        assert(collector.issues.deep_view() == Seq::<CheckIssueView>::empty());
        collector
    }

    /// The files and the issues.
    pub fn finish(self) -> (result: (Vec<RepositoryFile>, Vec<CheckIssue>))
        ensures
            result.0.deep_view() == self.deep_view().files,
            result.1.deep_view() == self.deep_view().issues,
    {
        (self.files, self.issues)
    }

    fn add_issue(
        &mut self,
        code: &str,
        path: Option<&str>,
        message: &str,
        safe_action: Option<String>,
    )
        requires
            old(self).wf(),
        ensures
            final(self).wf(),
            final(self).deep_view() == old(self).deep_view().with_issue(
                CheckIssueView {
                    code: code@,
                    path: path.deep_view(),
                    rule: None,
                    message: message@,
                    safe_action: safe_action.deep_view(),
                },
            ),
    {
        let ghost before = self.issues.deep_view();
        let issue = CheckIssue {
            code: code.to_owned(),
            path: match path {
                Some(path) => Some(path.to_owned()),
                None => None,
            },
            rule: None,
            message: message.to_owned(),
            safe_action,
        };
        self.issues.push(issue);
        assert(self.issues.deep_view() == before.push(issue.deep_view()));
    }

    fn add_file(&mut self, path: String, bytes: Vec<u8>)
        requires
            old(self).wf(),
            old(self).deep_view().files.len() < MAX_CHECK_FILES,
            total_bytes(old(self).deep_view().files) <= MAX_CHECK_TOTAL_BYTES,
            bytes@.len() <= MAX_CHECK_FILE_BYTES + 1,
        ensures
            final(self).wf(),
            final(self).deep_view() == old(self).deep_view().with_file(path@, bytes@),
    {
        let ghost before = self.files.deep_view();
        self.total = self.total + bytes.len() as u64;
        let file = RepositoryFile { path, bytes };
        self.files.push(file);
        assert(self.files.deep_view() == before.push(file.deep_view()));
        assert(before.push(file.deep_view()).drop_last() == before);
    }

    /// Looks at one entry of the directory at `prefix`; `name` is nothing where it is not
    /// UTF-8.
    pub fn begin_entry(&mut self, prefix: &str, name: Option<&str>) -> (step: EntryStep)
        requires
            old(self).wf(),
        ensures
            final(self).wf(),
            ({
                let before = old(self).deep_view();
                let relative = relative_path(prefix@, name->0@);
                if before.files.len() >= MAX_CHECK_FILES {
                    &&& step == EntryStep::Leave
                    &&& final(self).deep_view() == before.with_issue(
                        general_issue(
                            "check_input_too_large"@,
                            "repository file count exceeds the check limit"@,
                        ),
                    )
                } else if name is None {
                    &&& step == EntryStep::Skip
                    &&& final(self).deep_view() == before.with_issue(
                        general_issue("path_not_portable"@, "repository path is not UTF-8"@),
                    )
                } else if !is_repository_path(relative) {
                    &&& step == EntryStep::Skip
                    &&& final(self).deep_view() == before.with_issue(
                        plain_issue(
                            "path_not_portable"@,
                            relative,
                            "repository path is not portable"@,
                        ),
                    )
                } else if is_ignored(relative) {
                    &&& step == EntryStep::Skip
                    &&& final(self).deep_view() == before
                } else {
                    &&& step matches EntryStep::Inspect { relative: path } && path@ == relative
                    &&& final(self).deep_view() == before
                }
            }),
    {
        if self.files.len() >= MAX_CHECK_FILES {
            self.add_issue(
                "check_input_too_large",
                None,
                "repository file count exceeds the check limit",
                None,
            );
            return EntryStep::Leave;
        }
        let name = match name {
            Some(name) => name,
            None => {
                self.add_issue("path_not_portable", None, "repository path is not UTF-8", None);
                return EntryStep::Skip;
            },
        };
        let relative = if prefix.is_empty() {
            name.to_owned()
        } else {
            cat3(prefix, "/", name)
        };
        if !portable_relative_path(relative.as_str()) {
            self.add_issue(
                "path_not_portable",
                Some(relative.as_str()),
                "repository path is not portable",
                None,
            );
            return EntryStep::Skip;
        }
        if ignored(relative.as_str()) {
            return EntryStep::Skip;
        }
        EntryStep::Inspect { relative }
    }

    /// Symbolic links are not followed, and what is neither a file nor a directory is
    /// passed over.
    pub fn inspect_type(&mut self, relative: &str, entry_type: EntryType) -> (step: TypeStep)
        requires
            old(self).wf(),
        ensures
            final(self).wf(),
            step == (match entry_type {
                EntryType::Directory => TypeStep::Descend,
                EntryType::File => TypeStep::Measure,
                _ => TypeStep::Skip,
            }),
            final(self).deep_view() == (if entry_type == EntryType::Symlink {
                old(self).deep_view().with_issue(
                    issue_with_action(
                        "symlink_not_allowed"@,
                        relative@,
                        "repository checks do not follow symbolic links"@,
                        "replace the symlink with a regular repository file or directory"@,
                    ),
                )
            } else {
                old(self).deep_view()
            }),
    {
        match entry_type {
            EntryType::Symlink => {
                self.add_issue(
                    "symlink_not_allowed",
                    Some(relative),
                    "repository checks do not follow symbolic links",
                    Some(
                        "replace the symlink with a regular repository file or directory".to_owned(),
                    ),
                );
                TypeStep::Skip
            },
            EntryType::Directory => TypeStep::Descend,
            EntryType::File => TypeStep::Measure,
            EntryType::Other => TypeStep::Skip,
        }
    }

    /// Whether a file of the given size is read.
    pub fn accepts_size(&mut self, relative: &str, size: u64) -> (accepted: bool)
        requires
            old(self).wf(),
        ensures
            final(self).wf(),
            accepted == (size <= MAX_CHECK_FILE_BYTES && !old(self).deep_view().is_full_for(size)),
            final(self).deep_view() == (if size > MAX_CHECK_FILE_BYTES {
                old(self).deep_view().with_issue(
                    plain_issue(
                        "check_input_too_large"@,
                        relative@,
                        "file exceeds the 2 MiB check limit"@,
                    ),
                )
            } else if old(self).deep_view().is_full_for(size) {
                old(self).deep_view().with_issue(
                    plain_issue(
                        "check_input_too_large"@,
                        relative@,
                        "repository input exceeds the 32 MiB aggregate check limit"@,
                    ),
                )
            } else {
                old(self).deep_view()
            }),
    {
        if size > MAX_CHECK_FILE_BYTES {
            self.add_issue(
                "check_input_too_large",
                Some(relative),
                "file exceeds the 2 MiB check limit",
                None,
            );
            return false;
        }
        if self.total + size > MAX_CHECK_TOTAL_BYTES {
            self.add_issue(
                "check_input_too_large",
                Some(relative),
                "repository input exceeds the 32 MiB aggregate check limit",
                None,
            );
            return false;
        }
        true
    }

    /// Takes up the content of a file that was accepted by its size. One that has grown
    /// beyond the limit since is left out.
    pub fn take_content(&mut self, relative: &str, bytes: Vec<u8>)
        requires
            old(self).wf(),
            old(self).deep_view().files.len() < MAX_CHECK_FILES,
            !old(self).deep_view().is_full_for(0),
        ensures
            final(self).wf(),
            final(self).deep_view() == (if bytes@.len() > MAX_CHECK_FILE_BYTES {
                old(self).deep_view().with_issue(
                    plain_issue(
                        "check_input_too_large"@,
                        relative@,
                        "file changed beyond the 2 MiB check limit"@,
                    ),
                )
            } else {
                old(self).deep_view().with_file(relative@, bytes@)
            }),
    {
        if bytes.len() as u64 > MAX_CHECK_FILE_BYTES {
            self.add_issue(
                "check_input_too_large",
                Some(relative),
                "file changed beyond the 2 MiB check limit",
                None,
            );
            return;
        }
        self.add_file(relative.to_owned(), bytes);
    }

    /// Whether another file may be taken up; `take_content` and `take_blob` are called only
    /// then.
    pub fn has_room(&self) -> (result: bool)
        requires
            self.wf(),
        ensures
            result == (self.deep_view().files.len() < MAX_CHECK_FILES
                && !self.deep_view().is_full_for(0)),
    {
        self.files.len() < MAX_CHECK_FILES && self.total <= MAX_CHECK_TOTAL_BYTES
    }
}

/// The bytes between zero bytes.
pub open spec fn split_at_zero(bytes: Seq<u8>) -> Seq<Seq<u8>>
    decreases bytes.len(),
{
    if bytes.len() == 0 {
        seq![Seq::empty()]
    } else {
        let front = split_at_zero(bytes.drop_last());
        if bytes.last() == 0 {
            front.push(Seq::empty())
        } else {
            front.drop_last().push(front.last().push(bytes.last()))
        }
    }
}

/// The entries of a listing that Git ends with zero bytes.
pub open spec fn listed_entries(output: Seq<u8>) -> Seq<Seq<u8>> {
    split_at_zero(output).filter(|entry: Seq<u8>| entry.len() > 0)
}

proof fn split_is_not_empty(bytes: Seq<u8>)
    ensures
        split_at_zero(bytes).len() > 0,
    decreases bytes.len(),
{
    if bytes.len() > 0 {
        split_is_not_empty(bytes.drop_last());
    }
}

/// Cuts the listing of the index into its entries.
#[verifier::loop_isolation(false)]
pub fn index_entries(output: &[u8]) -> (entries: Vec<Vec<u8>>)
    ensures
        entries.deep_view() == listed_entries(output@),
{
    let ghost keep = |entry: Seq<u8>| entry.len() > 0;
    let mut entries: Vec<Vec<u8>> = Vec::new();
    let mut entry: Vec<u8> = Vec::new();
    let mut i: usize = 0;
    proof {
        reveal(Seq::filter);
        assert(output@.take(0).len() == 0);
        assert(split_at_zero(output@.take(0)).drop_last() == Seq::<Seq<u8>>::empty());
        assert(entries.deep_view() == Seq::<Seq<u8>>::empty());
    }
    while i < output.len()
        invariant
            i <= output.len(),
            entry@ == split_at_zero(output@.take(i as int)).last(),
            entries.deep_view() == split_at_zero(output@.take(i as int)).drop_last().filter(keep),
        decreases output.len() - i,
    {
        let byte = output[i];
        let ghost front = split_at_zero(output@.take(i as int));
        let ghost pieces = split_at_zero(output@.take(i + 1));
        proof {
            reveal(Seq::filter);
            split_is_not_empty(output@.take(i as int));
            assert(output@.take(i + 1).drop_last() == output@.take(i as int));
            assert(output@.take(i + 1).last() == byte);
        }
        if byte == 0 {
            assert(pieces.drop_last() == front);
            if entry.len() > 0 {
                let ghost before = entries.deep_view();
                entries.push(entry);
                assert(entry.deep_view() == entry@);
                assert(entries.deep_view() == before.push(entry@));
            }
            entry = Vec::new();
        } else {
            assert(pieces.drop_last() == front.drop_last());
            entry.push(byte);
        }
        i += 1;
    }
    proof {
        reveal(Seq::filter);
        assert(output@.take(i as int) == output@);
        split_is_not_empty(output@);
    }
    if entry.len() > 0 {
        let ghost before = entries.deep_view();
        entries.push(entry);
        assert(entry.deep_view() == entry@);
        assert(entries.deep_view() == before.push(entry@));
    }
    entries
}

/// The place of the first tab from `from` on.
pub open spec fn tab_from(entry: Seq<u8>, from: int) -> Option<int>
    decreases entry.len() - from,
{
    if from >= entry.len() {
        None
    } else if entry[from] == 9 {
        Some(from)
    } else {
        tab_from(entry, from + 1)
    }
}

fn find_tab(entry: &[u8]) -> (tab: Option<usize>)
    ensures
        match tab {
            Some(at) => at < entry@.len() && tab_from(entry@, 0) == Some(at as int),
            None => tab_from(entry@, 0) is None,
        },
{
    let mut i: usize = 0;
    while i < entry.len()
        invariant
            i <= entry.len(),
            tab_from(entry@, 0) == tab_from(entry@, i as int),
        decreases entry.len() - i,
    {
        if entry[i] == 9 {
            return Some(i);
        }
        i += 1;
    }
    None
}

/// The word at a place, or nothing where there are not so many.
pub open spec fn word_at(text: Seq<char>, at: int) -> Seq<char> {
    if at < words(text).len() {
        words(text)[at]
    } else {
        Seq::empty()
    }
}

fn copied(bytes: &[u8], from: usize, to: usize) -> (part: Vec<u8>)
    requires
        from <= to <= bytes@.len(),
    ensures
        part@ == bytes@.subrange(from as int, to as int),
{
    let mut part: Vec<u8> = Vec::new();
    let mut i: usize = from;
    while i < to
        invariant
            from <= i <= to <= bytes@.len(),
            part@ == bytes@.subrange(from as int, i as int),
        decreases to - i,
    {
        part.push(bytes[i]);
        assert(bytes@.subrange(from as int, i + 1) == bytes@.subrange(from as int, i as int).push(
            bytes@[i as int],
        ));
        i += 1;
    }
    part
}

/// What an entry of the index says.
#[verifier::ext_equal]
pub struct IndexEntryView {
    pub mode: Seq<char>,
    pub stage: Seq<char>,
    pub path: Seq<u8>,
}

/// An entry: the mode, the object and the stage, then a tab and the path.
pub open spec fn index_entry(entry: Seq<u8>) -> Option<IndexEntryView> {
    match tab_from(entry, 0) {
        None => None,
        Some(tab) => {
            let header = lossy_text(entry.subrange(0, tab));
            Some(
                IndexEntryView {
                    mode: word_at(header, 0),
                    stage: word_at(header, 2),
                    path: entry.subrange(tab + 1, entry.len() as int),
                },
            )
        },
    }
}

/// What is done with an entry of the index.
#[derive(Clone, Debug, PartialEq, Eq)]
pub enum StagedStep {
    /// No further entry is looked at.
    Leave,
    /// The entry is passed over.
    Skip,
    /// The size of the staged content decides.
    Measure { path: String },
}

/// The staged files that have been collected, and the paths that were met.
#[derive(Debug)]
pub struct StagedCollector {
    collector: FileCollector,
    seen: Vec<String>,
}

#[verifier::ext_equal]
pub struct StagedCollectorView {
    pub collected: FileCollectorView,
    pub seen: Seq<Seq<char>>,
}

impl DeepView for StagedCollector {
    type V = StagedCollectorView;

    closed spec fn deep_view(&self) -> StagedCollectorView {
        StagedCollectorView {
            collected: self.collector.deep_view(),
            seen: self.seen.deep_view(),
        }
    }
}

impl StagedCollectorView {
    pub open spec fn with_issue(self, issue: CheckIssueView) -> StagedCollectorView {
        StagedCollectorView { collected: self.collected.with_issue(issue), ..self }
    }

    pub open spec fn with_seen(self, path: Seq<char>) -> StagedCollectorView {
        StagedCollectorView { seen: self.seen.push(path), ..self }
    }
}

/// What the rules on staged entries make of one: what is done with it, by the path where
/// its content is asked for, and the collection behind it.
pub open spec fn staged_entry(before: StagedCollectorView, entry: Seq<u8>) -> (
    Option<Option<Seq<char>>>,
    StagedCollectorView,
) {
    let skip = Some(None);
    if before.collected.files.len() >= MAX_CHECK_FILES {
        (
            None,
            before.with_issue(
                general_issue(
                    "check_input_too_large"@,
                    "Git index file count exceeds the check limit"@,
                ),
            ),
        )
    } else {
        match index_entry(entry) {
            None => (
                skip,
                before.with_issue(general_issue("git_index_invalid"@, "malformed Git index entry"@)),
            ),
            Some(fields) => {
                let path = decode_utf8(fields.path);
                if !valid_utf8(fields.path) {
                    (
                        skip,
                        before.with_issue(
                            general_issue("path_not_portable"@, "Git index path is not UTF-8"@),
                        ),
                    )
                } else if !is_repository_path(path) {
                    (
                        skip,
                        before.with_issue(
                            plain_issue(
                                "path_not_portable"@,
                                path,
                                "Git index path is not portable"@,
                            ),
                        ),
                    )
                } else if fields.stage != "0"@ {
                    (
                        skip,
                        before.with_issue(
                            issue_with_action(
                                "git_conflict"@,
                                path,
                                "Git index contains an unmerged entry"@,
                                "resolve the index conflict before committing"@,
                            ),
                        ),
                    )
                } else if before.seen.contains(path) {
                    (skip, before)
                } else if fields.mode == "120000"@ {
                    (
                        skip,
                        before.with_seen(path).with_issue(
                            plain_issue(
                                "symlink_not_allowed"@,
                                path,
                                "staged symbolic links are not allowed"@,
                            ),
                        ),
                    )
                } else if fields.mode != "100644"@ && fields.mode != "100755"@ {
                    (
                        skip,
                        before.with_seen(path).with_issue(
                            plain_issue(
                                "path_not_portable"@,
                                path,
                                "unsupported staged file mode"@,
                            ),
                        ),
                    )
                } else {
                    (Some(Some(path)), before.with_seen(path))
                }
            },
        }
    }
}

/// The step in the terms of `staged_entry`.
pub open spec fn step_taken(step: StagedStep) -> Option<Option<Seq<char>>> {
    match step {
        StagedStep::Leave => None,
        StagedStep::Skip => Some(None),
        StagedStep::Measure { path } => Some(Some(path@)),
    }
}

fn nth_word(found: &Vec<String>, at: usize) -> (word: String)
    ensures
        word@ == (if at < found.deep_view().len() {
            found.deep_view()[at as int]
        } else {
            Seq::empty()
        }),
{
    if at < found.len() {
        assert(found.deep_view()[at as int] == found@[at as int]@);
        found[at].clone()
    } else {
        String::new()
    }
}

impl StagedCollector {
    pub closed spec fn wf(self) -> bool {
        self.collector.wf()
    }

    pub fn new() -> (collector: Self)
        ensures
            collector.wf(),
            collector.deep_view() == (StagedCollectorView {
                collected: FileCollectorView { files: Seq::empty(), issues: Seq::empty() },
                seen: Seq::empty(),
            }),
    {
        let collector = StagedCollector { collector: FileCollector::new(), seen: Vec::new() };
        assert(collector.seen.deep_view() == Seq::<Seq<char>>::empty());
        collector
    }

    /// The files and the issues.
    pub fn finish(self) -> (result: (Vec<RepositoryFile>, Vec<CheckIssue>))
        ensures
            result.0.deep_view() == self.deep_view().collected.files,
            result.1.deep_view() == self.deep_view().collected.issues,
    {
        self.collector.finish()
    }

    /// Looks at one entry of the index.
    pub fn begin_entry(&mut self, entry: &[u8]) -> (step: StagedStep)
        requires
            old(self).wf(),
        ensures
            final(self).wf(),
            (step_taken(step), final(self).deep_view()) == staged_entry(
                old(self).deep_view(),
                entry@,
            ),
    {
        if self.collector.files.len() >= MAX_CHECK_FILES {
            self.collector.add_issue(
                "check_input_too_large",
                None,
                "Git index file count exceeds the check limit",
                None,
            );
            return StagedStep::Leave;
        }
        let tab = match find_tab(entry) {
            Some(tab) => tab,
            None => {
                self.collector.add_issue(
                    "git_index_invalid",
                    None,
                    "malformed Git index entry",
                    None,
                );
                return StagedStep::Skip;
            },
        };
        let head = copied(entry, 0, tab);
        let header = to_lossy_text(head.as_slice());
        let fields = words_of(header.as_str());
        let mode = nth_word(&fields, 0);
        let stage = nth_word(&fields, 2);
        let end: usize = entry.len();
        assert(tab < end);
        let tail = copied(entry, tab + 1, end);
        let path = match to_text(tail.as_slice()) {
            Some(path) => path,
            None => {
                self.collector.add_issue(
                    "path_not_portable",
                    None,
                    "Git index path is not UTF-8",
                    None,
                );
                return StagedStep::Skip;
            },
        };
        if !portable_relative_path(path.as_str()) {
            self.collector.add_issue(
                "path_not_portable",
                Some(path.as_str()),
                "Git index path is not portable",
                None,
            );
            return StagedStep::Skip;
        }
        if !same(stage.as_str(), "0") {
            self.collector.add_issue(
                "git_conflict",
                Some(path.as_str()),
                "Git index contains an unmerged entry",
                Some("resolve the index conflict before committing".to_owned()),
            );
            return StagedStep::Skip;
        }
        if lists_text(&self.seen, path.as_str()) {
            return StagedStep::Skip;
        }
        let ghost met = self.seen.deep_view();
        let kept = path.clone();
        self.seen.push(kept);
        assert(self.seen.deep_view() == met.push(path@));
        if same(mode.as_str(), "120000") {
            self.collector.add_issue(
                "symlink_not_allowed",
                Some(path.as_str()),
                "staged symbolic links are not allowed",
                None,
            );
            return StagedStep::Skip;
        }
        if !same(mode.as_str(), "100644") && !same(mode.as_str(), "100755") {
            self.collector.add_issue(
                "path_not_portable",
                Some(path.as_str()),
                "unsupported staged file mode",
                None,
            );
            return StagedStep::Skip;
        }
        StagedStep::Measure { path }
    }

    /// Whether the staged content of the size that Git answered is read, and how much of
    /// it at most.
    pub fn accepts_size(&mut self, path: &str, answer: &[u8]) -> (result: Result<
        Option<u64>,
        MkoError,
    >)
        requires
            old(self).wf(),
        ensures
            final(self).wf(),
            match written_number(trim(lossy_text(answer@))) {
                None => {
                    &&& result matches Err(failure) && failure.deep_view() == error(
                        "git_index_invalid"@,
                        "invalid staged blob size"@,
                    )
                    &&& final(self).deep_view() == old(self).deep_view()
                },
                Some(size) => if size > MAX_CHECK_FILE_BYTES {
                    &&& result == Ok::<Option<u64>, MkoError>(None)
                    &&& final(self).deep_view() == old(self).deep_view().with_issue(
                        plain_issue(
                            "check_input_too_large"@,
                            path@,
                            "staged file exceeds the 2 MiB check limit"@,
                        ),
                    )
                } else if old(self).deep_view().collected.is_full_for(size) {
                    &&& result == Ok::<Option<u64>, MkoError>(None)
                    &&& final(self).deep_view() == old(self).deep_view().with_issue(
                        plain_issue(
                            "check_input_too_large"@,
                            path@,
                            "staged input exceeds the 32 MiB aggregate check limit"@,
                        ),
                    )
                } else {
                    &&& result == Ok::<Option<u64>, MkoError>(Some((size + 1) as u64))
                    &&& final(self).deep_view() == old(self).deep_view()
                },
            },
    {
        let text = to_lossy_text(answer);
        let size = match parse_number(trimmed(text.as_str())) {
            Some(size) => size,
            None => {
                return Err(MkoError::new("git_index_invalid", "invalid staged blob size"));
            },
        };
        if size > MAX_CHECK_FILE_BYTES {
            self.collector.add_issue(
                "check_input_too_large",
                Some(path),
                "staged file exceeds the 2 MiB check limit",
                None,
            );
            return Ok(None);
        }
        if self.collector.total + size > MAX_CHECK_TOTAL_BYTES {
            self.collector.add_issue(
                "check_input_too_large",
                Some(path),
                "staged input exceeds the 32 MiB aggregate check limit",
                None,
            );
            return Ok(None);
        }
        Ok(Some(size + 1))
    }

    /// Whether another file may be taken up.
    pub fn has_room(&self) -> (result: bool)
        requires
            self.wf(),
        ensures
            result == (self.deep_view().collected.files.len() < MAX_CHECK_FILES
                && !self.deep_view().collected.is_full_for(0)),
    {
        self.collector.has_room()
    }

    /// Takes up staged content that was accepted by its size.
    pub fn take_blob(&mut self, path: &str, bytes: Vec<u8>)
        requires
            old(self).wf(),
            old(self).deep_view().collected.files.len() < MAX_CHECK_FILES,
            !old(self).deep_view().collected.is_full_for(0),
            bytes@.len() <= MAX_CHECK_FILE_BYTES + 1,
        ensures
            final(self).wf(),
            final(self).deep_view() == (StagedCollectorView {
                collected: old(self).deep_view().collected.with_file(path@, bytes@),
                ..old(self).deep_view()
            }),
    {
        self.collector.add_file(path.to_owned(), bytes);
    }
}

/// What a bounded call of Git gives: it must succeed, and its output fit the limit. `read`
/// is how much was read, which is at most one byte more than the limit.
pub fn check_git_output(success: bool, read: u64, limit: u64) -> (result: Result<(), MkoError>)
    ensures
        verdict(result) == (if !success {
            Err(error("git_index_invalid"@, "cannot read the staged Git index"@))
        } else if read > limit {
            Err(
                error(
                    "check_input_too_large"@,
                    "Git command output exceeds its bounded transport"@,
                ),
            )
        } else {
            Ok(())
        }),
{
    if !success {
        return Err(MkoError::new("git_index_invalid", "cannot read the staged Git index"));
    }
    if read > limit {
        return Err(
            MkoError::new(
                "check_input_too_large",
                "Git command output exceeds its bounded transport",
            ),
        );
    }
    Ok(())
}

/// The name under which Git knows the staged content of a path.
pub fn staged_object(path: &str) -> (object: String)
    ensures
        object@ == ":0:"@ + path@,
{
    crate::text::cat2(":0:", path)
}

/// A path that was met is never asked for again.
pub proof fn staged_paths_are_asked_for_once(
    before: StagedCollectorView,
    entry: Seq<u8>,
    path: Seq<char>,
)
    requires
        staged_entry(before, entry).0 == Some(Some(path)),
    ensures
        !before.seen.contains(path),
        staged_entry(before, entry).1.seen.contains(path),
        staged_entry(before, entry).1.collected == before.collected,
{
    let after = staged_entry(before, entry).1.seen;
    assert(after == before.seen.push(path));
    assert(after[after.len() - 1] == path);
}

} // verus!

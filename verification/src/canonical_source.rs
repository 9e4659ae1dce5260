//! What a Source document has to look like.

use crate::asset_validation::{prefixed_hash, valid_prefixed_hash};
use crate::clock::{seoul_date, seoul_date_of};
use crate::error::{error, outcome, verdict, ErrorView, MkoError};
use crate::model::{
    AssetRecord, AssetRecordView, ReviewStatus, SourceRecord, SourceRecordView, SourceStatus,
};
use crate::pdf::{EXTRACTOR_NAME, EXTRACTOR_VERSION};
use crate::prepare::{PROCESSOR_VERSION, PROMPT_VERSION};
use crate::text::{
    after_prefix, before_suffix, cat2, cat3, contains_char, contains_text, has_slug, has_text,
    is_slug, replace_first, same, split, split_text, starts_with, strip_prefix, strip_suffix,
    with_first_replaced,
};
use crate::version::KNOWLEDGE_CONTRACT_VERSION;
use vstd::prelude::*;

verus! {

/// The sections of a Source document, in their order.
pub open spec fn section_titles() -> Seq<Seq<char>> {
    seq![
        "Source Metadata"@,
        "One-Sentence Summary"@,
        "Problem"@,
        "Method"@,
        "Contributions"@,
        "Reported Evidence"@,
        "Stated Limitations"@,
        "Domain Perspective"@,
        "Implementation Considerations"@,
        "Questions and Unknowns"@,
        "Related Knowledge"@,
    ]
}

fn body_sections() -> (sections: Vec<String>)
    ensures
        sections.deep_view() == section_titles(),
{
    let mut sections: Vec<String> = Vec::new();
    sections.push("Source Metadata".to_owned());
    sections.push("One-Sentence Summary".to_owned());
    sections.push("Problem".to_owned());
    sections.push("Method".to_owned());
    sections.push("Contributions".to_owned());
    sections.push("Reported Evidence".to_owned());
    sections.push("Stated Limitations".to_owned());
    sections.push("Domain Perspective".to_owned());
    sections.push("Implementation Considerations".to_owned());
    sections.push("Questions and Unknowns".to_owned());
    sections.push("Related Knowledge".to_owned());
    assert(sections.deep_view() == section_titles());
    sections
}

/// The headings of a document with this title, in their order.
pub open spec fn expected_headings(title: Seq<char>) -> Seq<Seq<char>> {
    seq!["# "@ + title] + section_titles().map_values(|section: Seq<char>| "## "@ + section)
}

/// The lines of a text that are headings.
pub open spec fn headings(text: Seq<char>) -> Seq<Seq<char>> {
    split(text, '\n').filter(|line: Seq<char>| line.len() > 0 && line[0] == '#')
}

/// The shape of the body: line feeds only, a final line feed, exactly the expected headings
/// in their order, and an empty line on either side of each.
pub open spec fn is_canonical_body(title: Seq<char>, body: Seq<char>) -> bool {
    &&& !body.contains('\r')
    &&& body.len() > 0 && body.last() == '\n'
    &&& headings(body) == expected_headings(title)
    &&& ("# "@ + title + "\n\n"@).is_prefix_of(body)
    &&& forall|i: int|
        0 <= i < section_titles().len() ==> contains_text(
            body,
            "\n\n## "@ + #[trigger] section_titles()[i] + "\n\n"@,
        )
}

fn headings_of(text: &str) -> (result: Vec<String>)
    ensures
        result.deep_view() == headings(text@),
{
    let pieces = split_text(text, '\n');
    let ghost all = pieces.deep_view();
    let ghost keep = |line: Seq<char>| line.len() > 0 && line[0] == '#';
    let mut result: Vec<String> = Vec::new();
    let mut i: usize = 0;
    proof {
        reveal(Seq::filter);
        assert(result.deep_view() == Seq::<Seq<char>>::empty());
    }
    while i < pieces.len()
        invariant
            i <= pieces.len(),
            all == pieces.deep_view(),
            keep == (|line: Seq<char>| line.len() > 0 && line[0] == '#'),
            result.deep_view() == all.take(i as int).filter(keep),
        decreases pieces.len() - i,
    {
        proof {
            reveal(Seq::filter);
            assert(all.take(i + 1).drop_last() == all.take(i as int));
            assert(all.take(i + 1).last() == pieces@[i as int]@);
        }
        let line = pieces[i].as_str();
        if !line.is_empty() && line.get_char(0) == '#' {
            let ghost before = result.deep_view();
            result.push(pieces[i].clone());
            assert(result.deep_view() == before.push(pieces@[i as int]@));
        }
        i += 1;
    }
    assert(all.take(i as int) == all);
    result
}

pub(crate) fn same_list(left: &Vec<String>, right: &Vec<String>) -> (equal: bool)
    ensures
        equal == (left.deep_view() == right.deep_view()),
{
    let ghost a = left.deep_view();
    let ghost b = right.deep_view();
    if left.len() != right.len() {
        assert(a.len() != b.len());
        return false;
    }
    let mut i: usize = 0;
    while i < left.len()
        invariant
            i <= left.len(),
            left.len() == right.len(),
            a == left.deep_view(),
            b == right.deep_view(),
            forall|k: int| 0 <= k < i ==> #[trigger] a[k] == b[k],
        decreases left.len() - i,
    {
        if !same(left[i].as_str(), right[i].as_str()) {
            assert(a[i as int] != b[i as int]);
            return false;
        }
        i += 1;
    }
    assert(a == b);
    true
}

fn canonical_body_shape(title: &str, body: &str) -> (result: bool)
    ensures
        result == is_canonical_body(title@, body@),
{
    let len: usize = body.unicode_len();
    if contains_char(body, '\r') || len == 0 || body.get_char(len - 1) != '\n' {
        return false;
    }
    let sections = body_sections();
    let ghost titles = section_titles();
    let ghost wanted = expected_headings(title@);
    let mut expected: Vec<String> = Vec::new();
    let first = cat2("# ", title);
    expected.push(first);
    assert(expected.deep_view() == wanted.take(1));
    let mut i: usize = 0;
    while i < sections.len()
        invariant
            i <= sections.len(),
            titles == section_titles(),
            sections.deep_view() == titles,
            wanted == expected_headings(title@),
            wanted.len() == titles.len() + 1,
            expected.deep_view() == wanted.take(i + 1),
        decreases sections.len() - i,
    {
        let ghost before = expected.deep_view();
        assert(titles[i as int] == sections@[i as int]@);
        let heading = cat2("## ", sections[i].as_str());
        expected.push(heading);
        assert(expected.deep_view() == before.push(heading@));
        assert(wanted[i + 1] == "## "@ + titles[i as int]);
        assert(wanted.take(i + 2) == wanted.take(i + 1).push(wanted[i + 1]));
        i += 1;
    }
    assert(wanted.take(i + 1) == wanted);
    let actual = headings_of(body);
    if !same_list(&actual, &expected) {
        return false;
    }
    let start = cat3("# ", title, "\n\n");
    if !starts_with(body, start.as_str()) {
        return false;
    }
    let mut k: usize = 0;
    while k < sections.len()
        invariant
            k <= sections.len(),
            titles == section_titles(),
            sections.deep_view() == titles,
            forall|m: int|
                0 <= m < k ==> contains_text(body@, "\n\n## "@ + #[trigger] titles[m] + "\n\n"@),
        decreases sections.len() - k,
    {
        assert(titles[k as int] == sections@[k as int]@);
        let framed = cat3("\n\n## ", sections[k].as_str(), "\n\n");
        if !has_text(body, framed.as_str()) {
            assert(!contains_text(body@, "\n\n## "@ + section_titles()[k as int] + "\n\n"@));
            return false;
        }
        k += 1;
    }
    true
}

/// The place of a Source document that was made on a day: the day, a slug, and the first
/// digits of its hash.
pub open spec fn is_place_on(path: Seq<char>, id: Seq<char>, date: Option<Seq<char>>) -> bool {
    match (prefixed_hash(id, "personal-source-"@), after_prefix(path, "sources/"@), date) {
        (Some(hash), Some(name), Some(date)) => !name.contains('/') && !name.contains('\\') && match (
        after_prefix(name, date + "-"@)) {
            Some(rest) => match before_suffix(rest, "-"@ + hash.take(12) + ".md"@) {
                Some(slug) => is_slug(slug) && slug.len() <= 96,
                None => false,
            },
            None => false,
        },
        _ => false,
    }
}

/// The place of a Source document: the day is the one in Seoul.
pub open spec fn is_canonical_path(path: Seq<char>, id: Seq<char>, created_at: i64) -> bool {
    is_place_on(path, id, seoul_date(created_at))
}

pub(crate) fn canonical_source_path(path: &str, id: &str, created_at: i64) -> (result: bool)
    ensures
        result == is_canonical_path(path@, id@, created_at),
{
    source_place_on(path, id, seoul_date_of(created_at))
}

/// Whether a document that was made on a day is at its place.
pub fn source_place_on(path: &str, id: &str, date: Option<String>) -> (result: bool)
    ensures
        result == is_place_on(path@, id@, date.deep_view()),
{
    let hash = match valid_prefixed_hash(id, "personal-source-") {
        Some(hash) => hash,
        None => {
            return false;
        },
    };
    let name = match strip_prefix(path, "sources/") {
        Some(name) => name,
        None => {
            return false;
        },
    };
    let date = match date {
        Some(date) => date,
        None => {
            return false;
        },
    };
    if contains_char(name, '/') || contains_char(name, '\\') {
        return false;
    }
    let prefix = cat2(date.as_str(), "-");
    let rest = match strip_prefix(name, prefix.as_str()) {
        Some(rest) => rest,
        None => {
            return false;
        },
    };
    let digits = hash.substring_char(0, 12);
    assert(digits@ == hash@.take(12));
    let suffix = cat3("-", digits, ".md");
    match strip_suffix(rest, suffix.as_str()) {
        Some(slug) => has_slug(slug) && slug.unicode_len() <= 96,
        None => false,
    }
}

/// The Source is the one of the Asset, made by the current pipeline, at its place and in
/// its shape.
pub open spec fn is_source_of(
    path: Seq<char>,
    source: SourceRecordView,
    body: Seq<char>,
    asset: AssetRecordView,
) -> bool {
    &&& source.id == replace_first(asset.id, "asset"@, "source"@)
    &&& source.record_type == "source"@
    &&& source.schema_version == 1
    &&& source.scope == "personal"@
    &&& source.ai_assisted
    &&& source.relations.asset_ids == seq![asset.id]
    &&& source.generation.extractor_name == EXTRACTOR_NAME@
    &&& source.generation.extractor_version == EXTRACTOR_VERSION@
    &&& source.generation.core_version == KNOWLEDGE_CONTRACT_VERSION@
    &&& source.generation.processor_version == PROCESSOR_VERSION@
    &&& source.generation.prompt_version == PROMPT_VERSION@
    &&& source.generation.asset_fingerprint == asset.fingerprint.value
    &&& is_canonical_path(path, source.id, source.created_at.seconds)
    &&& is_canonical_body(source.title, body)
}

/// The review of a Source agrees with its status, and an approval is bound to the revision
/// of the content.
pub open spec fn review_agrees(source: SourceRecordView, revision: Seq<char>) -> bool {
    let review = source.review;
    let pending = review.status == ReviewStatus::Pending && review.approved_revision is None
        && review.reviewed_at is None;
    let approved = review.status == ReviewStatus::Approved && review.approved_revision == Some(
        revision,
    ) && review.reviewed_at is Some;
    let rejected = review.status == ReviewStatus::Rejected && review.approved_revision is None
        && review.reviewed_at is Some;
    match source.status {
        SourceStatus::ReviewPending => pending,
        SourceStatus::Approved => approved,
        SourceStatus::Rejected => rejected,
        SourceStatus::Stale => pending || approved || rejected,
        SourceStatus::Archived => pending || approved || rejected,
    }
}

fn validate_review(source: &SourceRecord, actual_revision: &str) -> (result: Result<(), MkoError>)
    ensures
        verdict(result) == (if review_agrees(source.deep_view(), actual_revision@) {
            Ok(())
        } else {
            Err(
                error(
                    if source.review.status == ReviewStatus::Approved {
                        "approval_stale"@
                    } else {
                        "review_invalid"@
                    },
                    "Source status and review metadata are inconsistent"@,
                ),
            )
        }),
{
    let review = &source.review;
    let bound = match &review.approved_revision {
        Some(revision) => same(revision.as_str(), actual_revision),
        None => false,
    };
    let pending = review.status == ReviewStatus::Pending && review.approved_revision.is_none()
        && review.reviewed_at.is_none();
    let approved = review.status == ReviewStatus::Approved && bound && review.reviewed_at.is_some();
    let rejected = review.status == ReviewStatus::Rejected && review.approved_revision.is_none()
        && review.reviewed_at.is_some();
    let valid = match source.status {
        SourceStatus::ReviewPending => pending,
        SourceStatus::Approved => approved,
        SourceStatus::Rejected => rejected,
        SourceStatus::Stale | SourceStatus::Archived => pending || approved || rejected,
    };
    if valid {
        Ok(())
    } else {
        Err(
            MkoError::new(
                if review.status == ReviewStatus::Approved {
                    "approval_stale"
                } else {
                    "review_invalid"
                },
                "Source status and review metadata are inconsistent",
            ),
        )
    }
}

/// The rule on a Source document, and the revision of its content where it is kept.
pub open spec fn source_check(
    path: Seq<char>,
    source: SourceRecordView,
    body: Seq<char>,
    asset: AssetRecordView,
    revision: Result<Seq<char>, ErrorView>,
) -> Result<Seq<char>, ErrorView> {
    if !is_source_of(path, source, body, asset) {
        Err(
            error(
                "source_invalid"@,
                "Source is not the canonical v0.1 document for its Asset"@,
            ),
        )
    } else {
        match revision {
            Err(failure) => Err(failure),
            Ok(actual) => if source.content_revision != actual {
                Err(
                    error(
                        "revision_mismatch"@,
                        "stored content_revision does not match the canonical Source content"@,
                    ),
                )
            } else if !review_agrees(source, actual) {
                Err(
                    error(
                        if source.review.status == ReviewStatus::Approved {
                            "approval_stale"@
                        } else {
                            "review_invalid"@
                        },
                        "Source status and review metadata are inconsistent"@,
                    ),
                )
            } else {
                Ok(actual)
            },
        }
    }
}

/// `revision` is the revision of the content of the document, as it was computed.
pub fn validate_canonical_source(
    repository_path: &str,
    source: &SourceRecord,
    body: &str,
    asset: &AssetRecord,
    revision: Result<String, MkoError>,
) -> (result: Result<String, MkoError>)
    ensures
        outcome(result) == source_check(
            repository_path@,
            source.deep_view(),
            body@,
            asset.deep_view(),
            outcome(revision),
        ),
{
    let expected_source_id = with_first_replaced(asset.id.as_str(), "asset", "source");
    let related = source.relations.asset_ids.len() == 1 && same(
        source.relations.asset_ids[0].as_str(),
        asset.id.as_str(),
    );
    proof {
        let ids = source.relations.asset_ids.deep_view();
        let only = seq![asset.id@];
        assert(only.len() == 1 && only[0] == asset.id@);
        if related {
            assert(ids == only);
        } else if ids == only {
            assert(ids[0] == source.relations.asset_ids@[0]@);
        }
    }
    if !same(source.id.as_str(), expected_source_id.as_str()) || !same(
        source.record_type.as_str(),
        "source",
    ) || source.schema_version != 1 || !same(source.scope.as_str(), "personal")
        || !source.ai_assisted || !related || !same(
        source.generation.extractor_name.as_str(),
        EXTRACTOR_NAME,
    ) || !same(source.generation.extractor_version.as_str(), EXTRACTOR_VERSION) || !same(
        source.generation.core_version.as_str(),
        KNOWLEDGE_CONTRACT_VERSION,
    ) || !same(source.generation.processor_version.as_str(), PROCESSOR_VERSION) || !same(
        source.generation.prompt_version.as_str(),
        PROMPT_VERSION,
    ) || !same(
        source.generation.asset_fingerprint.as_str(),
        asset.fingerprint.value.as_str(),
    ) || !canonical_source_path(repository_path, source.id.as_str(), source.created_at.seconds)
        || !canonical_body_shape(source.title.as_str(), body) {
        return Err(
            MkoError::new(
                "source_invalid",
                "Source is not the canonical v0.1 document for its Asset",
            ),
        );
    }
    let actual = match revision {
        Ok(actual) => actual,
        Err(failure) => {
            return Err(failure);
        },
    };
    if !same(source.content_revision.as_str(), actual.as_str()) {
        return Err(
            MkoError::new(
                "revision_mismatch",
                "stored content_revision does not match the canonical Source content",
            ),
        );
    }
    match validate_review(source, actual.as_str()) {
        Ok(_) => Ok(actual),
        Err(failure) => Err(failure),
    }
}

/// A Source that passes is approved only for the content that it holds now.
pub proof fn approvals_are_bound_to_content(
    path: Seq<char>,
    source: SourceRecordView,
    body: Seq<char>,
    asset: AssetRecordView,
    revision: Result<Seq<char>, ErrorView>,
)
    requires
        source_check(path, source, body, asset, revision) is Ok,
        source.status == SourceStatus::Approved,
    ensures
        source.review.approved_revision == Some(source.content_revision),
        revision == Ok::<Seq<char>, ErrorView>(source.content_revision),
{
}

} // verus!

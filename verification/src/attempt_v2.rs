//! What happened when Core tried to prepare an Asset. The identity of an Asset is its
//! content, so that these bytes could not be prepared is a fact that stays.

use crate::model::Timestamp;
use crate::text::{cat2, cat3, ends_with, same, to_chars};
use vstd::prelude::*;

verus! {

#[derive(Clone, Copy, Debug, PartialEq, Eq, Structural)]
pub enum PreparationAttemptRecordTypeV2 {
    Attempt,
}

#[derive(Clone, Copy, Debug, PartialEq, Eq, Structural)]
pub enum PreparationOutcomeV2 {
    Prepared,
    Failed,
}

/// One attempt. It holds the code of a failure and never its message, which could quote the
/// document.
#[derive(Clone, Debug, PartialEq, Eq)]
pub struct PreparationAttemptV2 {
    pub schema_version: u32,
    pub id: String,
    pub record_type: PreparationAttemptRecordTypeV2,
    pub asset_id: String,
    pub outcome: PreparationOutcomeV2,
    pub code: Option<String>,
    pub observed_at: Timestamp,
}

#[verifier::ext_equal]
pub struct PreparationAttemptV2View {
    pub schema_version: u32,
    pub id: Seq<char>,
    pub record_type: PreparationAttemptRecordTypeV2,
    pub asset_id: Seq<char>,
    pub outcome: PreparationOutcomeV2,
    pub code: Option<Seq<char>>,
    pub observed_at: Timestamp,
}

impl DeepView for PreparationAttemptV2 {
    type V = PreparationAttemptV2View;

    open spec fn deep_view(&self) -> PreparationAttemptV2View {
        PreparationAttemptV2View {
            schema_version: self.schema_version,
            id: self.id@,
            record_type: self.record_type,
            asset_id: self.asset_id@,
            outcome: self.outcome,
            code: self.code.deep_view(),
            observed_at: self.observed_at,
        }
    }
}

/// What an owner can do about an Asset that has not become a record yet.
#[derive(Clone, Copy, Debug, PartialEq, Eq, Structural)]
pub enum StuckReasonV2 {
    /// Nobody has tried yet.
    NotAttempted,
    /// The text of the document defeated the extractor. A different copy is the way forward.
    TextUnreadable,
    /// The provider still holds the bytes remotely.
    DownloadRequired,
    /// Something else went wrong; trying again is reasonable.
    Retryable,
}

/// The reason that a code stands for.
pub open spec fn reason_of(code: Seq<char>) -> StuckReasonV2 {
    if code == "pdf_text_unreadable"@ {
        StuckReasonV2::TextUnreadable
    } else if code == "hydration_confirmation_required"@ || code == "provider_hydration_required"@
        || code == "provider_not_hydrated"@ || code == "asset_not_hydrated"@ {
        StuckReasonV2::DownloadRequired
    } else {
        StuckReasonV2::Retryable
    }
}

impl StuckReasonV2 {
    pub fn from_code(code: &str) -> (reason: Self)
        ensures
            reason == reason_of(code@),
    {
        if same(code, "pdf_text_unreadable") {
            StuckReasonV2::TextUnreadable
        } else if same(code, "hydration_confirmation_required") || same(
            code,
            "provider_hydration_required",
        ) || same(code, "provider_not_hydrated") || same(code, "asset_not_hydrated") {
            StuckReasonV2::DownloadRequired
        } else {
            StuckReasonV2::Retryable
        }
    }
}

/// An attempt that has no ID yet.
pub fn unnamed_attempt(
    asset_id: &str,
    outcome: PreparationOutcomeV2,
    code: Option<&str>,
    observed_at: Timestamp,
) -> (attempt: PreparationAttemptV2)
    ensures
        attempt.deep_view() == (PreparationAttemptV2View {
            schema_version: 2,
            id: Seq::empty(),
            record_type: PreparationAttemptRecordTypeV2::Attempt,
            asset_id: asset_id@,
            outcome,
            code: code.deep_view(),
            observed_at,
        }),
{
    PreparationAttemptV2 {
        schema_version: 2,
        id: String::new(),
        record_type: PreparationAttemptRecordTypeV2::Attempt,
        asset_id: asset_id.to_owned(),
        outcome,
        code: match code {
            Some(code) => Some(code.to_owned()),
            None => None,
        },
        observed_at,
    }
}

/// The text with hyphens for its colons.
pub open spec fn without_colons(text: Seq<char>) -> Seq<char> {
    text.map_values(
        |c: char|
            if c == ':' {
                '-'
            } else {
                c
            },
    )
}

pub(crate) fn replace_colons(text: &str) -> (result: String)
    ensures
        result@ == without_colons(text@),
{
    let chars = to_chars(text);
    let ghost told = without_colons(text@);
    let mut result = String::new();
    let mut i: usize = 0;
    assert(result@ == told.take(0));
    while i < chars.len()
        invariant
            i <= chars.len(),
            chars@ == text@,
            told == without_colons(text@),
            result@ == told.take(i as int),
        decreases chars.len() - i,
    {
        let c = if chars[i] == ':' {
            '-'
        } else {
            chars[i]
        };
        result.push(c);
        assert(told.take(i + 1) == told.take(i as int).push(told[i as int]));
        i += 1;
    }
    assert(told.take(i as int) == told);
    result
}

/// Names an attempt by the digest of its canonical form without a name.
pub fn record_preparation_attempt_v2(attempt: PreparationAttemptV2, digest: &str) -> (named:
    PreparationAttemptV2)
    ensures
        named.deep_view() == (PreparationAttemptV2View {
            id: "personal-attempt-"@ + without_colons(digest@),
            ..attempt.deep_view()
        }),
{
    let plain = replace_colons(digest);
    PreparationAttemptV2 {
        schema_version: attempt.schema_version,
        id: cat2("personal-attempt-", plain.as_str()),
        record_type: attempt.record_type,
        asset_id: attempt.asset_id,
        outcome: attempt.outcome,
        code: attempt.code,
        observed_at: attempt.observed_at,
    }
}

/// The place of an attempt below the repository.
pub fn attempt_path(id: &str) -> (path: String)
    ensures
        path@ == "assets/attempts/"@ + id@ + ".json"@,
{
    cat3("assets/attempts/", id, ".json")
}

/// Whether a file among the attempts holds one.
pub fn names_attempt(file_name: &str) -> (result: bool)
    ensures
        result == ".json"@.is_suffix_of(file_name@),
{
    ends_with(file_name, ".json")
}

/// The one moment is not before the other.
pub open spec fn is_not_before(left: Timestamp, right: Timestamp) -> bool {
    left.seconds > right.seconds || (left.seconds == right.seconds && left.nanos >= right.nanos)
}

/// Of the first `n` attempts, the place of the latest one on the Asset; of those at the same
/// moment the last.
pub open spec fn latest_at(attempts: Seq<PreparationAttemptV2View>, asset_id: Seq<char>, n: int) -> Option<
    int,
>
    decreases n,
{
    if n <= 0 {
        None
    } else {
        let before = latest_at(attempts, asset_id, n - 1);
        if attempts[n - 1].asset_id != asset_id {
            before
        } else {
            match before {
                Some(best) => if is_not_before(
                    attempts[n - 1].observed_at,
                    attempts[best].observed_at,
                ) {
                    Some(n - 1)
                } else {
                    before
                },
                None => Some(n - 1),
            }
        }
    }
}

/// The latest attempt on the Asset.
pub open spec fn latest_attempt(attempts: Seq<PreparationAttemptV2View>, asset_id: Seq<char>) -> Option<
    PreparationAttemptV2View,
> {
    match latest_at(attempts, asset_id, attempts.len() as int) {
        Some(at) => Some(attempts[at]),
        None => None,
    }
}

pub fn latest_preparation_attempt_v2<'a>(
    attempts: &'a Vec<PreparationAttemptV2>,
    asset_id: &str,
) -> (latest: Option<&'a PreparationAttemptV2>)
    ensures
        match latest {
            Some(attempt) => latest_attempt(attempts.deep_view(), asset_id@) == Some(
                attempt.deep_view(),
            ),
            None => latest_attempt(attempts.deep_view(), asset_id@) is None,
        },
{
    let ghost all = attempts.deep_view();
    let mut best: Option<usize> = None;
    let mut i: usize = 0;
    while i < attempts.len()
        invariant
            i <= attempts.len(),
            all == attempts.deep_view(),
            match best {
                Some(at) => at < i && latest_at(all, asset_id@, i as int) == Some(at as int),
                None => latest_at(all, asset_id@, i as int) is None,
            },
        decreases attempts.len() - i,
    {
        assert(all[i as int] == attempts@[i as int].deep_view());
        if same(attempts[i].asset_id.as_str(), asset_id) {
            let later = match best {
                Some(at) => {
                    assert(all[at as int] == attempts@[at as int].deep_view());
                    let left = attempts[i].observed_at;
                    let right = attempts[at].observed_at;
                    left.seconds > right.seconds || (left.seconds == right.seconds && left.nanos
                        >= right.nanos)
                },
                None => true,
            };
            if later {
                best = Some(i);
            }
        }
        i += 1;
    }
    match best {
        Some(at) => {
            assert(all[at as int] == attempts@[at as int].deep_view());
            Some(&attempts[at])
        },
        None => None,
    }
}

/// The latest attempt is one on the Asset, and none on it is later.
pub proof fn the_latest_attempt_is_latest(
    attempts: Seq<PreparationAttemptV2View>,
    asset_id: Seq<char>,
    n: int,
)
    requires
        0 <= n <= attempts.len(),
    ensures
        latest_at(attempts, asset_id, n) matches Some(at) ==> {
            &&& 0 <= at < n
            &&& attempts[at].asset_id == asset_id
            &&& forall|k: int|
                0 <= k < n && #[trigger] attempts[k].asset_id == asset_id ==> is_not_before(
                    attempts[at].observed_at,
                    attempts[k].observed_at,
                )
        },
        latest_at(attempts, asset_id, n) is None ==> forall|k: int|
            0 <= k < n ==> #[trigger] attempts[k].asset_id != asset_id,
    decreases n,
{
    if n > 0 {
        the_latest_attempt_is_latest(attempts, asset_id, n - 1);
    }
}

} // verus!

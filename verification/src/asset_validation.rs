//! What a registry record has to look like.

use crate::error::MkoError;
use crate::model::{AssetRecord, AssetRecordView, Classification};
use crate::path_policy::{portable_path, validate_portable_relative_path};
use crate::text::{after_prefix, cat2, cat3, has_lower_hex, is_lower_hex, same, strip_prefix};
use vstd::prelude::*;

verus! {

/// Something that is wrong with a registry record.
#[derive(Clone, Debug, PartialEq, Eq)]
pub struct AssetValidationIssue {
    pub code: String,
    pub message: String,
}

#[verifier::ext_equal]
pub struct AssetValidationIssueView {
    pub code: Seq<char>,
    pub message: Seq<char>,
}

impl DeepView for AssetValidationIssue {
    type V = AssetValidationIssueView;

    open spec fn deep_view(&self) -> AssetValidationIssueView {
        AssetValidationIssueView { code: self.code@, message: self.message@ }
    }
}

/// The hash in an ID with the given prefix, when it is a full one.
pub open spec fn prefixed_hash(id: Seq<char>, prefix: Seq<char>) -> Option<Seq<char>> {
    match after_prefix(id, prefix) {
        Some(hash) => if is_lower_hex(hash, 64) {
            Some(hash)
        } else {
            None
        },
        None => None,
    }
}

pub(crate) fn valid_prefixed_hash<'a>(id: &'a str, prefix: &str) -> (hash: Option<&'a str>)
    ensures
        hash.deep_view() == prefixed_hash(id@, prefix@),
{
    match strip_prefix(id, prefix) {
        Some(hash) => if has_lower_hex(hash, 64) {
            Some(hash)
        } else {
            None
        },
        None => None,
    }
}

/// The record is canonical: its ID, path and fingerprint are made of one hash, and it is a
/// Personal PDF of the one supported provider.
pub open spec fn is_canonical_asset(path: Seq<char>, asset: AssetRecordView) -> bool {
    &&& prefixed_hash(asset.id, "personal-asset-"@) matches Some(hash)
        && asset.fingerprint.value == "sha256:"@ + hash
    &&& path == "assets/registry/"@ + asset.id + ".md"@
    &&& asset.record_type == "asset"@
    &&& asset.schema_version == 1
    &&& asset.scope == "personal"@
    &&& asset.classification == Classification::Personal
    &&& asset.asset_class == "document"@
    &&& asset.media_type == "application/pdf"@
    &&& asset.provider.provider_type == "google-drive-stream"@
    &&& asset.fingerprint.method == "sha256"@
}

pub(crate) fn canonical_asset(path: &str, asset: &AssetRecord) -> (result: bool)
    ensures
        result == is_canonical_asset(path@, asset.deep_view()),
{
    let hash = match valid_prefixed_hash(asset.id.as_str(), "personal-asset-") {
        Some(hash) => hash,
        None => {
            return false;
        },
    };
    let fingerprint = cat2("sha256:", hash);
    let expected_path = cat3("assets/registry/", asset.id.as_str(), ".md");
    same(asset.fingerprint.value.as_str(), fingerprint.as_str()) && same(
        path,
        expected_path.as_str(),
    ) && same(asset.record_type.as_str(), "asset") && asset.schema_version == 1 && same(
        asset.scope.as_str(),
        "personal",
    ) && asset.classification == Classification::Personal && same(
        asset.asset_class.as_str(),
        "document",
    ) && same(asset.media_type.as_str(), "application/pdf") && same(
        asset.provider.provider_type.as_str(),
        "google-drive-stream",
    ) && same(asset.fingerprint.method.as_str(), "sha256")
}

/// All that is wrong with a record, in a fixed order: its identity, the place of its
/// file, and what `state` says of its history.
pub open spec fn asset_issues(
    path: Seq<char>,
    asset: AssetRecordView,
    state: Option<AssetValidationIssueView>,
) -> Seq<AssetValidationIssueView> {
    let identity = if is_canonical_asset(path, asset) {
        Seq::empty()
    } else {
        seq![
            AssetValidationIssueView {
                code: "registry_invalid"@,
                message: "Asset identity, Scope, schema, path, or fingerprint is not canonical"@,
            },
        ]
    };
    let place = if portable_path(asset.provider.locator) is Ok {
        identity
    } else {
        identity.push(
            AssetValidationIssueView {
                code: "path_not_portable"@,
                message: "Provider locator must be a portable relative path"@,
            },
        )
    };
    match state {
        None => place,
        Some(issue) => place.push(issue),
    }
}

/// `state` is what the rules on the state history say of the record, if they object.
pub fn validate_canonical_asset(path: &str, asset: &AssetRecord, state: Option<MkoError>) -> (issues:
    Vec<AssetValidationIssue>)
    ensures
        issues.deep_view() == asset_issues(
            path@,
            asset.deep_view(),
            match state {
                None => None,
                Some(failure) => Some(
                    AssetValidationIssueView {
                        code: failure.deep_view().code,
                        message: failure.deep_view().message,
                    },
                ),
            },
        ),
{
    let mut issues: Vec<AssetValidationIssue> = Vec::new();
    assert(issues.deep_view() == Seq::<AssetValidationIssueView>::empty());
    if !canonical_asset(path, asset) {
        let issue = AssetValidationIssue {
            code: "registry_invalid".to_owned(),
            message: "Asset identity, Scope, schema, path, or fingerprint is not canonical".to_owned(),
        };
        issues.push(issue);
        assert(issues.deep_view() == seq![issue.deep_view()]);
    }
    if validate_portable_relative_path(asset.provider.locator.as_str()).is_err() {
        let ghost before = issues.deep_view();
        let issue = AssetValidationIssue {
            code: "path_not_portable".to_owned(),
            message: "Provider locator must be a portable relative path".to_owned(),
        };
        issues.push(issue);
        assert(issues.deep_view() == before.push(issue.deep_view()));
    }
    if let Some(failure) = state {
        let ghost before = issues.deep_view();
        let issue = AssetValidationIssue {
            code: failure.code().to_owned(),
            message: failure.message().to_owned(),
        };
        issues.push(issue);
        assert(issues.deep_view() == before.push(issue.deep_view()));
    }
    issues
}

} // verus!

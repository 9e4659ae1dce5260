//! Preparing the text of an Asset for the writing of its Source.

use crate::asset_validation::is_canonical_asset;
use crate::atomic::{Destination, DestinationView};
use crate::bundle_text::{bundle_text, bundles_with_roomy_names_fit, utf8_size, ROOMY_NAMES_BYTES};
use crate::canonical_source::same_list;
use crate::context::{ResolvedPersonalContext, ResolvedPersonalContextView};
use crate::error::{error, outcome, verdict, ErrorView, MkoError};
use crate::fingerprint::{same_fingerprint, same_snapshot, FileSnapshot};
use crate::model::{AssetRecord, AssetRecordView, AssetStatus, Fingerprint, FingerprintView};
use crate::path_policy::{PathPart, PathPartView};
use crate::pdf::{pages_check, validate_extracted_pages, EXTRACTOR_NAME, EXTRACTOR_VERSION};
use crate::text::{after_prefix, cat2, has_lower_hex, is_lower_hex, same, same_bytes, strip_prefix};
use crate::version::KNOWLEDGE_CONTRACT_VERSION;
use vstd::prelude::*;

verus! {

pub const PROCESSOR_VERSION: &'static str = "source-v1";

pub const PROMPT_VERSION: &'static str = "codex-source-v1";

/// How the extracted text is to be treated.
pub const TRUST: &'static str = "untrusted_document_text";

/// The largest prepared bundle, in bytes.
pub const MAX_PREPARED_BUNDLE_BYTES: u64 = 134_217_728;

/// A request to prepare the text of an Asset.
#[derive(Clone, Debug, PartialEq, Eq)]
pub struct PrepareRequest {
    pub repository_root: String,
    pub local_config_path: Option<String>,
    pub resolved_context: Option<ResolvedPersonalContext>,
    pub asset_id: String,
    pub output: String,
    pub clear_stale_lock: bool,
}

#[verifier::ext_equal]
pub struct PrepareRequestView {
    pub repository_root: Seq<char>,
    pub local_config_path: Option<Seq<char>>,
    pub resolved_context: Option<ResolvedPersonalContextView>,
    pub asset_id: Seq<char>,
    pub output: Seq<char>,
    pub clear_stale_lock: bool,
}

impl DeepView for PrepareRequest {
    type V = PrepareRequestView;

    open spec fn deep_view(&self) -> PrepareRequestView {
        PrepareRequestView {
            repository_root: self.repository_root@,
            local_config_path: self.local_config_path.deep_view(),
            resolved_context: self.resolved_context.deep_view(),
            asset_id: self.asset_id@,
            output: self.output@,
            clear_stale_lock: self.clear_stale_lock,
        }
    }
}

impl PrepareRequest {
    pub fn new(repository_root: &str, asset_id: &str, output: &str) -> (request: Self)
        ensures
            request.deep_view() == (PrepareRequestView {
                repository_root: repository_root@,
                local_config_path: None,
                resolved_context: None,
                asset_id: asset_id@,
                output: output@,
                clear_stale_lock: false,
            }),
    {
        PrepareRequest {
            repository_root: repository_root.to_owned(),
            local_config_path: None,
            resolved_context: None,
            asset_id: asset_id.to_owned(),
            output: output.to_owned(),
            clear_stale_lock: false,
        }
    }

    pub fn with_local_config(self, path: &str) -> (request: Self)
        ensures
            request.deep_view() == (PrepareRequestView {
                local_config_path: Some(path@),
                ..self.deep_view()
            }),
    {
        PrepareRequest { local_config_path: Some(path.to_owned()), ..self }
    }

    pub fn with_resolved_context(self, context: ResolvedPersonalContext) -> (request: Self)
        ensures
            request.deep_view() == (PrepareRequestView {
                resolved_context: Some(context.deep_view()),
                ..self.deep_view()
            }),
    {
        PrepareRequest { resolved_context: Some(context), ..self }
    }

    pub fn with_clear_stale_lock(self, clear: bool) -> (request: Self)
        ensures
            request.deep_view() == (PrepareRequestView {
                clear_stale_lock: clear,
                ..self.deep_view()
            }),
    {
        PrepareRequest { clear_stale_lock: clear, ..self }
    }
}

#[derive(Clone, Debug, PartialEq, Eq)]
pub struct VersionedComponent {
    pub name: String,
    pub version: String,
}

#[verifier::ext_equal]
pub struct VersionedComponentView {
    pub name: Seq<char>,
    pub version: Seq<char>,
}

impl DeepView for VersionedComponent {
    type V = VersionedComponentView;

    open spec fn deep_view(&self) -> VersionedComponentView {
        VersionedComponentView {
            name: self.name@,
            version: self.version@,
        }
    }
}

/// The text of an Asset, bound to its content and to the pipeline that read it.
#[derive(Clone, Debug, PartialEq, Eq)]
pub struct PreparedSourceBundle {
    pub schema_version: u32,
    pub asset_id: String,
    pub source_id: String,
    pub fingerprint: Fingerprint,
    pub title_hint: String,
    pub logical_path: String,
    pub pages: Vec<String>,
    pub trust: String,
    pub extractor: VersionedComponent,
    pub core_version: String,
    pub processor_version: String,
    pub prompt_version: String,
}

#[verifier::ext_equal]
pub struct PreparedSourceBundleView {
    pub schema_version: u32,
    pub asset_id: Seq<char>,
    pub source_id: Seq<char>,
    pub fingerprint: FingerprintView,
    pub title_hint: Seq<char>,
    pub logical_path: Seq<char>,
    pub pages: Seq<Seq<char>>,
    pub trust: Seq<char>,
    pub extractor: VersionedComponentView,
    pub core_version: Seq<char>,
    pub processor_version: Seq<char>,
    pub prompt_version: Seq<char>,
}

impl DeepView for PreparedSourceBundle {
    type V = PreparedSourceBundleView;

    open spec fn deep_view(&self) -> PreparedSourceBundleView {
        PreparedSourceBundleView {
            schema_version: self.schema_version,
            asset_id: self.asset_id@,
            source_id: self.source_id@,
            fingerprint: self.fingerprint.deep_view(),
            title_hint: self.title_hint@,
            logical_path: self.logical_path@,
            pages: self.pages.deep_view(),
            trust: self.trust@,
            extractor: self.extractor.deep_view(),
            core_version: self.core_version@,
            processor_version: self.processor_version@,
            prompt_version: self.prompt_version@,
        }
    }
}

/// The ID of the Source that belongs to an Asset.
pub open spec fn source_id_of(asset_id: Seq<char>) -> Result<Seq<char>, ErrorView> {
    match after_prefix(asset_id, "personal-asset-"@) {
        None => Err(error("asset_id_invalid"@, "asset ID must be content addressed"@)),
        Some(hash) => if is_lower_hex(hash, 64) {
            Ok("personal-source-"@ + hash)
        } else {
            Err(
                error(
                    "asset_id_invalid"@,
                    "asset ID must contain a full lowercase SHA-256 fingerprint"@,
                ),
            )
        },
    }
}

pub fn source_id(asset_id: &str) -> (result: Result<String, MkoError>)
    ensures
        outcome(result) == source_id_of(asset_id@),
{
    match strip_prefix(asset_id, "personal-asset-") {
        None => Err(MkoError::new("asset_id_invalid", "asset ID must be content addressed")),
        Some(hash) => {
            if !has_lower_hex(hash, 64) {
                return Err(
                    MkoError::new(
                        "asset_id_invalid",
                        "asset ID must contain a full lowercase SHA-256 fingerprint",
                    ),
                );
            }
            Ok(cat2("personal-source-", hash))
        },
    }
}

/// Different Assets have different Sources.
pub proof fn source_ids_are_unique(left: Seq<char>, right: Seq<char>)
    requires
        source_id_of(left) is Ok,
        source_id_of(left) == source_id_of(right),
    ensures
        left == right,
{
    let prefix = "personal-asset-"@;
    let name = "personal-source-"@;
    let a = left.skip(prefix.len() as int);
    let b = right.skip(prefix.len() as int);
    assert(a == (name + a).skip(name.len() as int));
    assert(b == (name + b).skip(name.len() as int));
    assert(left == prefix + a);
    assert(right == prefix + b);
}

/// The bundle is the one of the Asset, as the current pipeline makes it.
pub open spec fn is_bundle_of(bundle: PreparedSourceBundleView, asset_id: Seq<char>) -> bool {
    &&& bundle.schema_version == 1
    &&& bundle.asset_id == asset_id
    &&& source_id_of(asset_id) == Ok::<Seq<char>, ErrorView>(bundle.source_id)
    &&& bundle.fingerprint.method == "sha256"@
    &&& bundle.fingerprint.value == "sha256:"@ + after_prefix(asset_id, "personal-asset-"@)->0
    &&& bundle.title_hint.len() > 0
    &&& bundle.logical_path.len() > 0
    &&& bundle.trust == TRUST@
    &&& bundle.extractor.name == EXTRACTOR_NAME@
    &&& bundle.extractor.version == EXTRACTOR_VERSION@
    &&& bundle.core_version == KNOWLEDGE_CONTRACT_VERSION@
    &&& bundle.processor_version == PROCESSOR_VERSION@
    &&& bundle.prompt_version == PROMPT_VERSION@
}

/// The rule on a prepared bundle.
pub open spec fn bundle_check(bundle: PreparedSourceBundleView, asset_id: Seq<char>) -> Result<
    (),
    ErrorView,
> {
    if source_id_of(asset_id) is Err {
        Err(source_id_of(asset_id)->Err_0)
    } else if !is_bundle_of(bundle, asset_id) {
        Err(
            error(
                "bundle_invalid"@,
                "prepared Source bundle does not match the canonical Core contract"@,
            ),
        )
    } else {
        pages_check(bundle.pages)
    }
}

pub fn validate_prepared_bundle_contract(bundle: &PreparedSourceBundle, asset_id: &str) -> (result:
    Result<(), MkoError>)
    ensures
        verdict(result) == bundle_check(bundle.deep_view(), asset_id@),
{
    let expected_source_id = match source_id(asset_id) {
        Ok(id) => id,
        Err(failure) => {
            return Err(failure);
        },
    };
    let hash = match strip_prefix(asset_id, "personal-asset-") {
        Some(hash) => hash,
        None => {
            return Err(MkoError::new("bundle_invalid", "invalid prepared Asset ID"));
        },
    };
    let fingerprint = cat2("sha256:", hash);
    if bundle.schema_version != 1 || !same(bundle.asset_id.as_str(), asset_id) || !same(
        bundle.source_id.as_str(),
        expected_source_id.as_str(),
    ) || !same(bundle.fingerprint.method.as_str(), "sha256") || !same(
        bundle.fingerprint.value.as_str(),
        fingerprint.as_str(),
    ) || bundle.title_hint.as_str().is_empty() || bundle.logical_path.as_str().is_empty() || !same(
        bundle.trust.as_str(),
        TRUST,
    ) || !same(bundle.extractor.name.as_str(), EXTRACTOR_NAME) || !same(
        bundle.extractor.version.as_str(),
        EXTRACTOR_VERSION,
    ) || !same(bundle.core_version.as_str(), KNOWLEDGE_CONTRACT_VERSION) || !same(
        bundle.processor_version.as_str(),
        PROCESSOR_VERSION,
    ) || !same(bundle.prompt_version.as_str(), PROMPT_VERSION) {
        return Err(
            MkoError::new(
                "bundle_invalid",
                "prepared Source bundle does not match the canonical Core contract",
            ),
        );
    }
    validate_extracted_pages(&bundle.pages)
}

/// The error that names the only place for a prepared bundle.
pub open spec fn output_invalid() -> ErrorView {
    error(
        "runtime_output_invalid"@,
        "output must be .knowledge-os/runtime/prepared/<asset-id>.json for the requested asset"@,
    )
}

fn runtime_output_error() -> (failure: MkoError)
    ensures
        failure.deep_view() == output_invalid(),
{
    MkoError::new(
        "runtime_output_invalid",
        "output must be .knowledge-os/runtime/prepared/<asset-id>.json for the requested asset",
    )
}

/// The steps from the repository to the prepared bundle of an Asset.
pub open spec fn output_parts(asset_id: Seq<char>) -> Seq<PathPartView> {
    seq![
        PathPartView::Name(".knowledge-os"@),
        PathPartView::Name("runtime"@),
        PathPartView::Name("prepared"@),
        PathPartView::Name(asset_id + ".json"@),
    ]
}

fn part_is(part: &PathPart, name: &str) -> (result: bool)
    ensures
        result == (part.deep_view() == PathPartView::Name(name@)),
{
    match part {
        PathPart::Name(own) => same(own.as_str(), name),
        _ => false,
    }
}

/// Refuses any output but the one place for the bundle of the Asset. `requested` holds the
/// steps of the requested path below the repository, if it is below it.
pub fn runtime_paths(asset_id: &str, requested: &Option<Vec<PathPart>>) -> (result: Result<
    String,
    MkoError,
>)
    ensures
        outcome(result) == (if requested is Some && requested->0.deep_view() == output_parts(
            asset_id@,
        ) {
            Ok(asset_id@ + ".json"@)
        } else {
            Err(output_invalid())
        }),
{
    let name = cat2(asset_id, ".json");
    match requested {
        None => Err(runtime_output_error()),
        Some(parts) => {
            let accepted = parts.len() == 4 && part_is(&parts[0], ".knowledge-os") && part_is(
                &parts[1],
                "runtime",
            ) && part_is(&parts[2], "prepared") && part_is(&parts[3], name.as_str());
            proof {
                let given = parts.deep_view();
                let wanted = output_parts(asset_id@);
                assert(wanted.len() == 4);
                if accepted {
                    assert(given == wanted);
                } else if given == wanted {
                    assert(parts@[0].deep_view() == given[0]);
                    assert(parts@[1].deep_view() == given[1]);
                    assert(parts@[2].deep_view() == given[2]);
                    assert(parts@[3].deep_view() == given[3]);
                }
            }
            if accepted {
                Ok(name)
            } else {
                Err(runtime_output_error())
            }
        },
    }
}

/// An Asset can be prepared while no Source has been written about it.
pub open spec fn preparable(status: AssetStatus) -> bool {
    status == AssetStatus::Registered || status == AssetStatus::Extracted
}

/// The checks on an Asset before its file is opened: its state and its kind.
pub fn check_preparable(asset: &AssetRecord) -> (result: Result<(), MkoError>)
    ensures
        verdict(result) == (if !preparable(asset.asset_status) {
            Err(
                error(
                    "invalid_state_transition"@,
                    "source prepare requires a registered or extracted asset"@,
                ),
            )
        } else if asset.media_type@ != "application/pdf"@ {
            Err(error("unsupported_format"@, "source prepare supports PDF assets only"@))
        } else {
            Ok(())
        }),
{
    if !matches!(asset.asset_status, AssetStatus::Registered | AssetStatus::Extracted) {
        return Err(
            MkoError::new(
                "invalid_state_transition",
                "source prepare requires a registered or extracted asset",
            ),
        );
    }
    if !same(asset.media_type.as_str(), "application/pdf") {
        return Err(
            MkoError::new("unsupported_format", "source prepare supports PDF assets only"),
        );
    }
    Ok(())
}

/// The provider must still hold the content that was registered.
pub fn check_provider_content(asset: &AssetRecord, before: &FileSnapshot) -> (result: Result<
    (),
    MkoError,
>)
    ensures
        verdict(result) == (if before.fingerprint.deep_view() == asset.fingerprint.deep_view() {
            Ok(())
        } else {
            Err(
                error(
                    "fingerprint_changed"@,
                    "provider content no longer matches the registered asset"@,
                ),
            )
        }),
{
    if !same_fingerprint(&before.fingerprint, &asset.fingerprint) {
        return Err(
            MkoError::new(
                "fingerprint_changed",
                "provider content no longer matches the registered asset",
            ),
        );
    }
    Ok(())
}

/// The copy that text is extracted from holds what the provider held.
pub fn check_snapshot(actual: &FileSnapshot, expected: &FileSnapshot) -> (result: Result<
    (),
    MkoError,
>)
    ensures
        verdict(result) == (if actual.fingerprint.deep_view() == expected.fingerprint.deep_view()
            && actual.size_bytes == expected.size_bytes {
            Ok(())
        } else {
            Err(
                error(
                    "fingerprint_changed"@,
                    "runtime PDF snapshot does not match the registered fingerprint and size"@,
                ),
            )
        }),
{
    if !same_fingerprint(&actual.fingerprint, &expected.fingerprint) || actual.size_bytes
        != expected.size_bytes {
        return Err(
            MkoError::new(
                "fingerprint_changed",
                "runtime PDF snapshot does not match the registered fingerprint and size",
            ),
        );
    }
    Ok(())
}

/// The bundle of an Asset with these pages.
pub open spec fn bundle_of(
    asset: AssetRecordView,
    source_id: Seq<char>,
    pages: Seq<Seq<char>>,
) -> PreparedSourceBundleView {
    PreparedSourceBundleView {
        schema_version: 1,
        asset_id: asset.id,
        source_id,
        fingerprint: asset.fingerprint,
        title_hint: asset.title,
        logical_path: asset.provider.locator,
        pages,
        trust: TRUST@,
        extractor: VersionedComponentView { name: EXTRACTOR_NAME@, version: EXTRACTOR_VERSION@ },
        core_version: KNOWLEDGE_CONTRACT_VERSION@,
        processor_version: PROCESSOR_VERSION@,
        prompt_version: PROMPT_VERSION@,
    }
}

/// What preparing an Asset comes to, under the ID that was asked for: its pages must be
/// within the limits, and its file must not have changed while it was read.
pub open spec fn preparation_of(
    asset_id: Seq<char>,
    asset: AssetRecordView,
    pages: Seq<Seq<char>>,
    is_unchanged: bool,
) -> Result<PreparedSourceBundleView, ErrorView> {
    match source_id_of(asset_id) {
        Err(failure) => Err(failure),
        Ok(source_id) => if pages_check(pages) is Err {
            Err(pages_check(pages)->Err_0)
        } else if !is_unchanged {
            Err(
                error(
                    "fingerprint_changed"@,
                    "PDF changed during extraction; prepared output was discarded"@,
                ),
            )
        } else {
            Ok(bundle_of(asset, source_id, pages))
        },
    }
}

/// The prepared bundle of an Asset, from the extracted pages: they must be within the
/// limits, and the file must not have changed while it was read, neither the one that was
/// held open nor the one that stands at its place afterwards. `asset_id` is the ID that was
/// asked for, of which the ID of the Source is made.
pub fn prepare_source(
    asset_id: &str,
    asset: &AssetRecord,
    pages: Vec<String>,
    before: &FileSnapshot,
    retained_after: &FileSnapshot,
    reopened_after: &FileSnapshot,
) -> (result: Result<PreparedSourceBundle, MkoError>)
    ensures
        outcome(result) == preparation_of(
            asset_id@,
            asset.deep_view(),
            pages.deep_view(),
            retained_after.deep_view() == before.deep_view() && reopened_after.deep_view()
                == before.deep_view(),
        ),
{
    let source_id = match source_id(asset_id) {
        Ok(id) => id,
        Err(failure) => {
            return Err(failure);
        },
    };
    match validate_extracted_pages(&pages) {
        Ok(_) => {},
        Err(failure) => {
            return Err(failure);
        },
    }
    if !same_snapshot(retained_after, before) || !same_snapshot(reopened_after, before) {
        return Err(
            MkoError::new(
                "fingerprint_changed",
                "PDF changed during extraction; prepared output was discarded",
            ),
        );
    }
    Ok(
        PreparedSourceBundle {
            schema_version: 1,
            asset_id: asset.id.clone(),
            source_id,
            fingerprint: asset.fingerprint.duplicate(),
            title_hint: asset.title.clone(),
            logical_path: asset.provider.locator.clone(),
            pages,
            trust: TRUST.to_owned(),
            extractor: VersionedComponent {
                name: EXTRACTOR_NAME.to_owned(),
                version: EXTRACTOR_VERSION.to_owned(),
            },
            core_version: KNOWLEDGE_CONTRACT_VERSION.to_owned(),
            processor_version: PROCESSOR_VERSION.to_owned(),
            prompt_version: PROMPT_VERSION.to_owned(),
        },
    )
}

/// A prepared bundle holds exactly the extracted pages, in number, in order and in text, and
/// speaks of its Asset: its ID, its fingerprint, its title and its place in the inbox. It is
/// marked as untrusted source text.
pub proof fn prepared_bundles_hold_the_pages(
    asset_id: Seq<char>,
    asset: AssetRecordView,
    pages: Seq<Seq<char>>,
    is_unchanged: bool,
    bundle: PreparedSourceBundleView,
)
    requires
        preparation_of(asset_id, asset, pages, is_unchanged) == Ok::<
            PreparedSourceBundleView,
            ErrorView,
        >(bundle),
    ensures
        bundle.pages.len() == pages.len(),
        forall|i: int| 0 <= i < pages.len() ==> #[trigger] bundle.pages[i] == pages[i],
        bundle.pages == pages,
        bundle.asset_id == asset.id,
        source_id_of(asset_id) == Ok::<Seq<char>, ErrorView>(bundle.source_id),
        bundle.fingerprint == asset.fingerprint,
        bundle.title_hint == asset.title,
        bundle.logical_path == asset.provider.locator,
        bundle.schema_version == 1,
        bundle.trust == "untrusted_document_text"@,
        is_unchanged,
        pages_check(pages) is Ok,
{
}

/// A file that changed while it was read is never prepared, and an unchanged one is prepared
/// wherever its pages are within the limits and the ID that was asked for is one of an Asset.
pub proof fn only_unchanged_files_are_prepared(
    asset_id: Seq<char>,
    asset: AssetRecordView,
    pages: Seq<Seq<char>>,
)
    ensures
        preparation_of(asset_id, asset, pages, false) is Err,
        preparation_of(asset_id, asset, pages, true) is Ok <==> source_id_of(asset_id) is Ok
            && pages_check(pages) is Ok,
        source_id_of(asset_id) is Ok && pages_check(pages) is Ok ==> preparation_of(
            asset_id,
            asset,
            pages,
            false,
        )->Err_0.code == "fingerprint_changed"@,
{
}

/// The error for runtime directories that are none.
pub open spec fn path_invalid() -> ErrorView {
    error(
        "runtime_path_invalid"@,
        "runtime directories must be real directories inside the repository"@,
    )
}

fn runtime_path_error() -> (failure: MkoError)
    ensures
        failure.deep_view() == path_invalid(),
{
    MkoError::new(
        "runtime_path_invalid",
        "runtime directories must be real directories inside the repository",
    )
}

/// The error for a bundle that is not the published one.
pub open spec fn publication_invalid() -> ErrorView {
    error(
        "runtime_publication_invalid"@,
        "public prepared bundle does not match the atomically published bundle"@,
    )
}

fn runtime_publication_error() -> (failure: MkoError)
    ensures
        failure.deep_view() == publication_invalid(),
{
    MkoError::new(
        "runtime_publication_invalid",
        "public prepared bundle does not match the atomically published bundle",
    )
}

/// What stands in a runtime directory under a name.
#[derive(Clone, Copy, Debug, PartialEq, Eq, Structural)]
pub enum RuntimeChild {
    Directory,
    Other,
    Absent,
    Unknown,
}

/// A runtime directory is made where nothing stands in its place.
pub fn needs_child_directory(found: RuntimeChild) -> (result: Result<bool, MkoError>)
    ensures
        match result {
            Ok(absent) => if absent {
                found == RuntimeChild::Absent
            } else {
                found == RuntimeChild::Directory
            },
            Err(failure) => {
                &&& failure.deep_view() == path_invalid()
                &&& found == RuntimeChild::Other || found == RuntimeChild::Unknown
            },
        },
{
    match found {
        RuntimeChild::Directory => Ok(false),
        RuntimeChild::Absent => Ok(true),
        _ => Err(runtime_path_error()),
    }
}

/// After it was made or opened, a runtime directory must be a real one.
pub fn ensure_real_child_directory(found: RuntimeChild) -> (result: Result<(), MkoError>)
    ensures
        verdict(result) == (if found == RuntimeChild::Directory {
            Ok(())
        } else {
            Err(path_invalid())
        }),
{
    match found {
        RuntimeChild::Directory => Ok(()),
        _ => Err(runtime_path_error()),
    }
}

/// Where a bundle is to be written or read, a regular file or nothing may stand.
pub fn check_runtime_output(destination: &Destination) -> (result: Result<(), MkoError>)
    ensures
        verdict(result) == (match destination.deep_view() {
            DestinationView::Regular => Ok(()),
            DestinationView::Absent => Ok(()),
            DestinationView::Other => Err(output_invalid()),
            DestinationView::Unknown(_) => Err(path_invalid()),
        }),
{
    match destination {
        Destination::Regular => Ok(()),
        Destination::Absent => Ok(()),
        Destination::Other => Err(runtime_output_error()),
        Destination::Unknown(_) => Err(runtime_path_error()),
    }
}

/// The same rule, once more right before the bundle is written.
pub fn check_runtime_destination(destination: &Destination) -> (result: Result<(), MkoError>)
    ensures
        verdict(result) == (match destination.deep_view() {
            DestinationView::Regular => Ok(()),
            DestinationView::Absent => Ok(()),
            DestinationView::Other => Err(
                error(
                    "runtime_destination_invalid"@,
                    "runtime destination exists but is not a regular file"@,
                ),
            ),
            DestinationView::Unknown(message) => Err(error("runtime_write_failed"@, message)),
        }),
{
    match destination {
        Destination::Regular => Ok(()),
        Destination::Absent => Ok(()),
        Destination::Other => Err(
            MkoError::new(
                "runtime_destination_invalid",
                "runtime destination exists but is not a regular file",
            ),
        ),
        Destination::Unknown(message) => Err(
            MkoError::new("runtime_write_failed", message.as_str()),
        ),
    }
}

/// What was staged is what was to be written.
pub fn check_staged_bundle(staged: &[u8], bytes: &[u8]) -> (result: Result<(), MkoError>)
    ensures
        verdict(result) == (if staged@ == bytes@ {
            Ok(())
        } else {
            Err(
                error(
                    "runtime_write_failed"@,
                    "staged runtime bundle failed byte-for-byte validation"@,
                ),
            )
        }),
{
    if same_bytes(staged, bytes) {
        Ok(())
    } else {
        Err(
            MkoError::new(
                "runtime_write_failed",
                "staged runtime bundle failed byte-for-byte validation",
            ),
        )
    }
}

fn same_bundle(left: &PreparedSourceBundle, right: &PreparedSourceBundle) -> (equal: bool)
    ensures
        equal == (left.deep_view() == right.deep_view()),
{
    left.schema_version == right.schema_version && same(
        left.asset_id.as_str(),
        right.asset_id.as_str(),
    ) && same(left.source_id.as_str(), right.source_id.as_str()) && same_fingerprint(
        &left.fingerprint,
        &right.fingerprint,
    ) && same(left.title_hint.as_str(), right.title_hint.as_str()) && same(
        left.logical_path.as_str(),
        right.logical_path.as_str(),
    ) && same_list(&left.pages, &right.pages) && same(left.trust.as_str(), right.trust.as_str())
        && same(left.extractor.name.as_str(), right.extractor.name.as_str()) && same(
        left.extractor.version.as_str(),
        right.extractor.version.as_str(),
    ) && same(left.core_version.as_str(), right.core_version.as_str()) && same(
        left.processor_version.as_str(),
        right.processor_version.as_str(),
    ) && same(left.prompt_version.as_str(), right.prompt_version.as_str())
}

/// What a text was read as, or why it could not be read.
pub open spec fn reading(read: Result<PreparedSourceBundle, String>) -> Result<
    PreparedSourceBundleView,
    Seq<char>,
> {
    match read {
        Ok(bundle) => Ok(bundle.deep_view()),
        Err(message) => Err(message@),
    }
}

/// A rendered bundle must read back as the bundle it renders.
pub open spec fn rendering_check(
    read: Result<PreparedSourceBundleView, Seq<char>>,
    bundle: PreparedSourceBundleView,
    refusal: Seq<char>,
) -> Result<(), ErrorView> {
    match read {
        Err(message) => Err(error("bundle_invalid"@, message)),
        Ok(found) => if found == bundle {
            Ok(())
        } else {
            Err(error("bundle_invalid"@, refusal))
        },
    }
}

fn check_reading(
    read: &Result<PreparedSourceBundle, String>,
    bundle: &PreparedSourceBundle,
    refusal: &str,
) -> (result: Result<(), MkoError>)
    ensures
        verdict(result) == rendering_check(reading(*read), bundle.deep_view(), refusal@),
{
    match read {
        Err(message) => Err(MkoError::new("bundle_invalid", message.as_str())),
        Ok(found) => {
            if same_bundle(found, bundle) {
                Ok(())
            } else {
                Err(MkoError::new("bundle_invalid", refusal))
            }
        },
    }
}

/// The check on the text of a bundle before it is written.
pub fn check_rendered_bundle(
    read: &Result<PreparedSourceBundle, String>,
    bundle: &PreparedSourceBundle,
) -> (result: Result<(), MkoError>)
    ensures
        verdict(result) == rendering_check(
            reading(*read),
            bundle.deep_view(),
            "prepared source bundle failed deterministic validation"@,
        ),
{
    check_reading(read, bundle, "prepared source bundle failed deterministic validation")
}

/// The check on the text of a bundle after it was written.
pub fn check_published_bundle(
    read: &Result<PreparedSourceBundle, String>,
    bundle: &PreparedSourceBundle,
) -> (result: Result<(), MkoError>)
    ensures
        verdict(result) == rendering_check(
            reading(*read),
            bundle.deep_view(),
            "published source bundle failed validation"@,
        ),
{
    check_reading(read, bundle, "published source bundle failed validation")
}

/// The bundle stands where everyone looks for it, byte for byte, and reads as itself.
/// `published` holds the bytes there, if they could be read, and `read` what they hold.
pub fn verify_public_runtime_bundle(
    published: &Option<Vec<u8>>,
    read: &Result<PreparedSourceBundle, String>,
    bytes: &[u8],
    bundle: &PreparedSourceBundle,
) -> (result: Result<(), MkoError>)
    ensures
        verdict(result) == (if published is Some && published->0@ == bytes@ && reading(*read)
            == Ok::<PreparedSourceBundleView, Seq<char>>(bundle.deep_view()) {
            Ok(())
        } else {
            Err(publication_invalid())
        }),
{
    match published {
        None => {
            return Err(runtime_publication_error());
        },
        Some(found) => {
            if !same_bytes(found.as_slice(), bytes) {
                return Err(runtime_publication_error());
            }
        },
    }
    match read {
        Ok(found) => {
            if same_bundle(found, bundle) {
                Ok(())
            } else {
                Err(runtime_publication_error())
            }
        },
        Err(_) => Err(runtime_publication_error()),
    }
}

/// The Asset whose bundle a path names by its last part, without its extension.
pub fn requested_asset(stem: Option<&str>) -> (result: Result<String, MkoError>)
    ensures
        outcome(result) == (match stem {
            Some(name) if source_id_of(name@) is Ok => Ok(name@),
            _ => Err(output_invalid()),
        }),
{
    match stem {
        Some(name) => {
            if source_id(name).is_ok() {
                Ok(name.to_owned())
            } else {
                Err(runtime_output_error())
            }
        },
        None => Err(runtime_output_error()),
    }
}

/// A bundle is read only from a regular file within the limit.
pub fn check_bundle_file(is_file: bool, is_symlink: bool, len: u64) -> (result: Result<(), MkoError>)
    ensures
        verdict(result) == (if is_file && !is_symlink && len <= MAX_PREPARED_BUNDLE_BYTES {
            Ok(())
        } else {
            Err(publication_invalid())
        }),
{
    if !is_file || is_symlink || len > MAX_PREPARED_BUNDLE_BYTES {
        return Err(runtime_publication_error());
    }
    Ok(())
}

/// What loading a bundle comes to: `len` bytes were read, which hold `read`.
pub open spec fn loaded_bundle(
    asset_id: Seq<char>,
    len: int,
    read: Result<PreparedSourceBundleView, Seq<char>>,
) -> Result<PreparedSourceBundleView, ErrorView> {
    if len > MAX_PREPARED_BUNDLE_BYTES {
        Err(
            error(
                "bundle_invalid"@,
                "prepared Source bundle exceeds its bounded runtime transport"@,
            ),
        )
    } else {
        match read {
            Err(message) => Err(error("bundle_invalid"@, message)),
            Ok(bundle) => match bundle_check(bundle, asset_id) {
                Ok(_) => Ok(bundle),
                Err(failure) => Err(failure),
            },
        }
    }
}

/// The prepared bundle of an Asset, from the `len` bytes that were read, which hold `read`.
pub fn load_prepared_source_bundle(
    asset_id: &str,
    len: u64,
    read: Result<PreparedSourceBundle, String>,
) -> (result: Result<PreparedSourceBundle, MkoError>)
    ensures
        outcome(result) == loaded_bundle(asset_id@, len as int, reading(read)),
{
    if len > MAX_PREPARED_BUNDLE_BYTES {
        return Err(
            MkoError::new(
                "bundle_invalid",
                "prepared Source bundle exceeds its bounded runtime transport",
            ),
        );
    }
    match read {
        Err(message) => Err(MkoError::new("bundle_invalid", message.as_str())),
        Ok(bundle) => match validate_prepared_bundle_contract(&bundle, asset_id) {
            Ok(_) => Ok(bundle),
            Err(failure) => Err(failure),
        },
    }
}

/// A bundle that was prepared for a canonical Asset with a title and a path, and that reads
/// back as itself, is loaded as it was prepared exactly where its file is within the limit.
/// The file is within it, whatever the pages hold, where the title and the path take no more
/// than a mebibyte together.
pub proof fn prepared_bundles_are_loaded(
    path: Seq<char>,
    asset: AssetRecordView,
    pages: Seq<Seq<char>>,
    bundle: PreparedSourceBundleView,
    read: Result<PreparedSourceBundleView, Seq<char>>,
    refusal: Seq<char>,
)
    requires
        is_canonical_asset(path, asset),
        asset.title.len() > 0,
        asset.provider.locator.len() > 0,
        preparation_of(asset.id, asset, pages, true) == Ok::<PreparedSourceBundleView, ErrorView>(
            bundle,
        ),
        rendering_check(read, bundle, refusal) is Ok,
    ensures
        bundle_check(bundle, asset.id) is Ok,
        loaded_bundle(asset.id, utf8_size(bundle_text(bundle)) as int, read) == Ok::<
            PreparedSourceBundleView,
            ErrorView,
        >(bundle) <==> utf8_size(bundle_text(bundle)) <= MAX_PREPARED_BUNDLE_BYTES,
        utf8_size(asset.title) + utf8_size(asset.provider.locator) <= ROOMY_NAMES_BYTES
            ==> loaded_bundle(asset.id, utf8_size(bundle_text(bundle)) as int, read) == Ok::<
            PreparedSourceBundleView,
            ErrorView,
        >(bundle),
{
    assert(is_bundle_of(bundle, asset.id));
    if utf8_size(asset.title) + utf8_size(asset.provider.locator) <= ROOMY_NAMES_BYTES {
        bundles_with_roomy_names_fit(bundle, asset.id);
    }
}

} // verus!

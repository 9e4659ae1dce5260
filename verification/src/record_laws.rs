//! What the records of the second format promise: which Asset a registration makes, what a
//! page of the inbox holds and comes to, and what a judgment and a perspective are bound to.

use crate::asset_v2::{
    asset_record_check, candidate_at, candidate_place, existing_check, fallback_title,
    hydration_check, inbox_inspection, inbox_page, inspected_entries, locator_check, offered,
    offered_candidates, page_items, record_of, registered_check, registration_of, roots_check,
    unblocked_count, warned_candidates, with_candidate, AssetRecordTypeV2, AssetRecordV2View,
    AssetRegistrationOutcomeV2, AssetRegistrationResultV2View, HydrationConfirmationV2,
    InboxCandidateV2View, InboxCatalogEntryV2, InspectedInboxEntryV2, RegistryEntryState,
    RegistryWriteV2,
};
use crate::config_v2::{all_perspectives, perspective_name, DomainPolicyV2, PerspectiveV2};
use crate::digest::sha256_hex;
use crate::error::{outcome, ErrorView};
use crate::fingerprint::{asset_id_of, FileSnapshotView};
use crate::front_matter::{line_feeds, rendered_body, rendered_metadata};
use crate::judgment_v2::{
    annotation_of, identity_of, is_disallowed, judgment_document, kept_text, subject_check,
    without_first_line_feeds, without_last_line_feeds, without_outer_line_feeds,
    JudgmentAuthorshipV2,
};
use crate::local_path::{is_within, LocalPathView};
use crate::model::Timestamp;
use crate::model_v2::KnowledgeUnitKindV2;
use crate::path_policy::portable_path;
use crate::paths::file_name;
use crate::perspective_v2::{
    canonical_perspectives, confirmation_of, perspective_card, risk_check,
    CurrentKnowledgeRevisionV2View, PerspectiveSelectionV2View,
};
use crate::provider_scan::ProviderScanWarningView;
use crate::asset_validation::prefixed_hash;
use crate::text::{is_lower_hex, join};
use crate::unicode::nfc;
use vstd::prelude::*;
use vstd::utf8::encode_utf8;

verus! {

/// A registered Asset tells its content and its place: the ID and the fingerprint are those of
/// the snapshot, the title is the name of the file, and the binding has the place in composed
/// form and the size and the time of the snapshot.
pub proof fn records_tell_content_and_place(
    locator: Seq<char>,
    provider_type: Seq<char>,
    inspected_size: u64,
    snapshot: FileSnapshotView,
    record: AssetRecordV2View,
)
    requires
        record_of(locator, provider_type, inspected_size, snapshot) == Ok::<
            AssetRecordV2View,
            ErrorView,
        >(record),
    ensures
        snapshot.size_bytes == inspected_size,
        record.schema_version == 2,
        record.record_type == AssetRecordTypeV2::Asset,
        asset_id_of(snapshot.fingerprint) == Ok::<Seq<char>, ErrorView>(record.id),
        record.fingerprint == snapshot.fingerprint.value,
        file_name(locator) is Some,
        record.title_fallback == nfc(file_name(locator)->0),
        record.media_type == "application/pdf"@,
        record.provider.provider_type == provider_type,
        record.provider.logical_locator == nfc(locator),
        record.provider.size_bytes == snapshot.size_bytes,
        record.provider.modified_at == Some(snapshot.modified_at),
{
}

/// A file whose size is not the one that was inspected is not registered.
pub proof fn changed_files_are_not_registered(
    locator: Seq<char>,
    provider_type: Seq<char>,
    inspected_size: u64,
    snapshot: FileSnapshotView,
)
    requires
        snapshot.size_bytes != inspected_size,
    ensures
        record_of(locator, provider_type, inspected_size, snapshot) is Err,
        record_of(locator, provider_type, inspected_size, snapshot)->Err_0.code
            == "registered_asset_changed"@,
{
}

/// A record of an Asset is in order exactly where its ID and its fingerprint tell the same
/// hash, and it is a PDF of at most 50 MiB of the drive with a title and a portable place.
pub proof fn asset_records_in_order(asset: AssetRecordV2View, hash: Seq<char>)
    requires
        asset.id == "personal-asset-"@ + hash,
    ensures
        asset_record_check(asset) is Ok <==> {
            &&& is_lower_hex(hash, 64)
            &&& asset.schema_version == 2
            &&& asset.fingerprint == "sha256:"@ + hash
            &&& asset.title_fallback.len() > 0
            &&& encode_utf8(asset.title_fallback).len() <= 4096
            &&& asset.media_type == "application/pdf"@
            &&& asset.provider.provider_type == "google-drive-filesystem"@
            &&& asset.provider.size_bytes <= 52_428_800
            &&& portable_path(asset.provider.logical_locator) is Ok
        },
{
    let prefix = "personal-asset-"@;
    assert(prefix.is_prefix_of(asset.id));
    assert(asset.id.skip(prefix.len() as int) =~= hash);
    let told = asset.fingerprint;
    if "sha256:"@.is_prefix_of(told) {
        let rest = told.skip("sha256:"@.len() as int);
        assert(told =~= "sha256:"@ + rest);
        if asset.id == prefix + rest {
            assert((prefix + rest).skip(prefix.len() as int) =~= rest);
        }
    }
    if told == "sha256:"@ + hash {
        assert("sha256:"@.is_prefix_of(told));
        assert(told.skip("sha256:"@.len() as int) =~= hash);
    }
}

/// A PDF of more than 50 MiB is refused whatever was confirmed; one above the threshold is
/// read only where that was confirmed, and any other is read.
pub proof fn large_reads_are_confirmed(
    size: u64,
    threshold: u64,
    confirmation: HydrationConfirmationV2,
)
    ensures
        hydration_check(size, threshold, confirmation) is Ok <==> size <= 52_428_800 && (size
            <= threshold || confirmation == HydrationConfirmationV2::Confirmed),
        size > 52_428_800 ==> hydration_check(size, threshold, confirmation)->Err_0.code
            == "file_too_large"@,
        size <= 52_428_800 && size > threshold && confirmation
            == HydrationConfirmationV2::NotConfirmed ==> hydration_check(
            size,
            threshold,
            confirmation,
        )->Err_0.code == "hydration_confirmation_required"@,
{
}

/// Neither of the two roots may lie within the other, whichever is which.
pub proof fn roots_are_kept_apart(repository: LocalPathView, provider: LocalPathView)
    ensures
        roots_check(repository, provider) is Ok <==> !is_within(repository, provider)
            && !is_within(provider, repository),
        roots_check(repository, provider) is Ok <==> roots_check(provider, repository) is Ok,
{
}

/// A locator is accepted exactly where it is portable and in composed form.
pub proof fn locators_are_composed(locator: Seq<char>)
    ensures
        locator_check(locator) is Ok <==> portable_path(locator) is Ok && nfc(locator) == locator,
        fallback_title(locator) matches Ok(title) ==> file_name(locator) is Some && title == nfc(
            file_name(locator)->0,
        ) && 0 < title.len() && encode_utf8(title).len() <= 4096,
{
}

/// A registration reports the record that stands after it, under the path that its ID tells:
/// the new one where it was created, and the one that stood there where it was not.
pub proof fn registrations_report_what_stands(
    record: AssetRecordV2View,
    standing: Result<crate::asset_v2::AssetRecordV2, crate::error::MkoError>,
)
    ensures
        registration_of(record, RegistryWriteV2::Created) == Ok::<
            AssetRegistrationResultV2View,
            ErrorView,
        >(
            AssetRegistrationResultV2View {
                asset: record,
                registry_path: "assets/registry/"@ + record.id + ".json"@,
                outcome: AssetRegistrationOutcomeV2::Created,
            },
        ),
        outcome(standing) matches Ok(found) ==> registration_of(
            record,
            RegistryWriteV2::Existing { standing },
        ) == Ok::<AssetRegistrationResultV2View, ErrorView>(
            AssetRegistrationResultV2View {
                asset: found,
                registry_path: "assets/registry/"@ + record.id + ".json"@,
                outcome: AssetRegistrationOutcomeV2::Existing,
            },
        ),
        outcome(standing) matches Err(failure) ==> registration_of(
            record,
            RegistryWriteV2::Existing { standing },
        ) == Err::<AssetRegistrationResultV2View, ErrorView>(failure),
{
}

/// A record that is read is the one that was expected, written in its canonical form, and in
/// order.
pub proof fn read_records_are_the_expected_ones(
    expected_id: Seq<char>,
    parsed: Result<AssetRecordV2View, Seq<char>>,
    is_canonical: bool,
)
    ensures
        registered_check(expected_id, parsed, is_canonical) matches Ok(record) ==> parsed == Ok::<
            AssetRecordV2View,
            Seq<char>,
        >(record) && record.id == expected_id && is_canonical && asset_record_check(record) is Ok,
        parsed matches Ok(record) && record.id == expected_id && is_canonical
            && asset_record_check(record) is Ok ==> registered_check(
            expected_id,
            parsed,
            is_canonical,
        ) is Ok,
{
}

/// A record that stands already is accepted exactly where it is in order and holds the same
/// bytes, or the same identity.
pub proof fn standing_records_have_the_identity(
    existing: AssetRecordV2View,
    same_bytes: bool,
    record: AssetRecordV2View,
)
    ensures
        existing_check(Some(existing), same_bytes, record) is Ok <==> asset_record_check(
            existing,
        ) is Ok && (same_bytes || existing.id == record.id && existing.fingerprint
            == record.fingerprint && existing.media_type == record.media_type),
        existing_check(None, same_bytes, record) is Err,
{
}

/// Every item of a page is reported once and in its place: one that is blocked with what
/// blocks it, and any other with what its own registration came to.
pub proof fn pages_report_every_item(
    candidates: Seq<InboxCandidateV2View>,
    registrations: Seq<Result<AssetRegistrationResultV2View, ErrorView>>,
    i: int,
)
    requires
        0 <= i < candidates.len(),
        registrations.len() == unblocked_count(candidates),
    ensures
        ({
            let items = page_items(candidates, registrations);
            let at = unblocked_count(candidates.take(i)) as int;
            &&& items.len() == candidates.len()
            &&& items[i].logical_locator == candidates[i].locator
            &&& candidates[i].blocked matches Some(failure) ==> items[i].registration is None
                && items[i].error == Some(failure)
            &&& candidates[i].blocked is None ==> 0 <= at < registrations.len()
            &&& candidates[i].blocked is None && registrations[at] is Ok ==> items[i].registration
                == Some(registrations[at]->Ok_0) && items[i].error is None
            &&& candidates[i].blocked is None && registrations[at] is Err ==> items[i].registration
                is None && items[i].error == Some(registrations[at]->Err_0)
        }),
    decreases candidates.len(),
{
    let rest = candidates.drop_first();
    let later = if candidates[0].blocked is None {
        registrations.drop_first()
    } else {
        registrations
    };
    if i == 0 {
        assert(candidates.take(0) =~= Seq::empty());
        if rest.len() > 0 {
            pages_report_every_item(rest, later, 0);
        }
    } else {
        pages_report_every_item(rest, later, i - 1);
        assert(candidates.take(i).drop_first() =~= rest.take(i - 1));
        assert(candidates.take(i)[0] == candidates[0]);
    }
}

proof fn candidates_keep_their_places(
    candidates: Seq<InboxCandidateV2View>,
    candidate: InboxCandidateV2View,
)
    ensures
        forall|k: int|
            0 <= k < candidates.len() ==> exists|m: int|
                0 <= m < with_candidate(candidates, candidate).len() && (
                #[trigger] with_candidate(candidates, candidate)[m]).locator == (
                #[trigger] candidates[k]).locator,
        with_candidate(candidates, candidate).contains(candidate),
        with_candidate(candidates, candidate).len() <= candidates.len() + 1,
{
    found_candidates_stand_there(candidates, candidate.locator);
    let all = with_candidate(candidates, candidate);
    match candidate_at(candidates, candidate.locator) {
        Some(at) => {
            assert(all[at] == candidate);
            assert forall|k: int| 0 <= k < candidates.len() implies exists|m: int|
                0 <= m < all.len() && (#[trigger] all[m]).locator == (
                #[trigger] candidates[k]).locator by {
                assert(all[k].locator == candidates[k].locator);
            }
        },
        None => {
            let place = candidate_place(candidates, candidate.locator);
            assert(all[place] == candidate);
            assert forall|k: int| 0 <= k < candidates.len() implies exists|m: int|
                0 <= m < all.len() && (#[trigger] all[m]).locator == (
                #[trigger] candidates[k]).locator by {
                let m = if k < place {
                    k
                } else {
                    k + 1
                };
                assert(all[m] == candidates[k]);
            }
        },
    }
}

proof fn found_candidates_stand_there(candidates: Seq<InboxCandidateV2View>, locator: Seq<char>)
    ensures
        candidate_at(candidates, locator) matches Some(at) ==> 0 <= at < candidates.len()
            && candidates[at].locator == locator,
        0 <= candidate_place(candidates, locator) <= candidates.len(),
    decreases candidates.len(),
{
    if candidates.len() > 0 {
        found_candidates_stand_there(candidates.drop_last(), locator);
    }
}

proof fn entries_are_candidates(entries: Seq<InboxCatalogEntryV2>, n: int, e: int)
    requires
        0 <= e < n <= entries.len(),
    ensures
        exists|m: int|
            0 <= m < offered_candidates(entries, n).len() && (#[trigger] offered_candidates(
                entries,
                n,
            )[m]).locator == offered(entries[e]).locator,
    decreases n,
{
    let before = offered_candidates(entries, n - 1);
    let all = offered_candidates(entries, n);
    candidates_keep_their_places(before, offered(entries[n - 1]));
    if e < n - 1 {
        entries_are_candidates(entries, n - 1, e);
        let k = choose|k: int|
            0 <= k < before.len() && (#[trigger] before[k]).locator == offered(entries[e]).locator;
        assert(before[k].locator == offered(entries[e]).locator);
    } else {
        let m = choose|m: int| 0 <= m < all.len() && all[m] == offered(entries[e]);
        assert(all[m].locator == offered(entries[e]).locator);
    }
}

proof fn warned_places_are_candidates(
    entries: Seq<InboxCatalogEntryV2>,
    warnings: Seq<ProviderScanWarningView>,
    n: int,
    locator: Seq<char>,
)
    requires
        0 <= n <= warnings.len(),
        (exists|e: int| 0 <= e < entries.len() && offered(#[trigger] entries[e]).locator == locator)
            || (exists|w: int|
            0 <= w < n && (#[trigger] warnings[w]).provider_locator == Some(locator)),
    ensures
        exists|m: int|
            0 <= m < warned_candidates(entries, warnings, n).0.len() && (
            #[trigger] warned_candidates(entries, warnings, n).0[m]).locator == locator,
    decreases n,
{
    if n == 0 {
        let e = choose|e: int|
            0 <= e < entries.len() && offered(#[trigger] entries[e]).locator == locator;
        entries_are_candidates(entries, entries.len() as int, e);
    } else {
        let before = warned_candidates(entries, warnings, n - 1).0;
        let all = warned_candidates(entries, warnings, n).0;
        let warning = warnings[n - 1];
        if warning.provider_locator is Some {
            let blocked = InboxCandidateV2View {
                locator: warning.provider_locator->0,
                blocked: Some(crate::error::error(warning.code, warning.message)),
            };
            candidates_keep_their_places(before, blocked);
            found_candidates_stand_there(before, warning.provider_locator->0);
        }
        if warning.provider_locator == Some(locator) {
            match candidate_at(before, locator) {
                Some(at) => {
                    assert(all[at].locator == locator);
                },
                None => {
                    let blocked = InboxCandidateV2View {
                        locator,
                        blocked: Some(crate::error::error(warning.code, warning.message)),
                    };
                    let m = choose|m: int| 0 <= m < all.len() && all[m] == blocked;
                    assert(all[m].locator == locator);
                },
            }
        } else {
            if !(exists|e: int|
                0 <= e < entries.len() && offered(#[trigger] entries[e]).locator == locator) {
                let w = choose|w: int|
                    0 <= w < n && (#[trigger] warnings[w]).provider_locator == Some(locator);
                assert(w < n - 1);
                assert(warnings[w].provider_locator == Some(locator));
            }
            warned_places_are_candidates(entries, warnings, n - 1, locator);
            let k = choose|k: int|
                0 <= k < before.len() && (#[trigger] before[k]).locator == locator;
            assert(before[k].locator == locator);
        }
    }
}

/// Every file that a scan discovers is on the page, or is counted as remaining: those that it
/// could read, the placeholders, and those that a warning names. A page that leaves nothing
/// out of a complete discovery is complete, and one that leaves something out is not.
pub proof fn every_discovered_file_is_offered(
    scan_complete: bool,
    entries: Seq<InboxCatalogEntryV2>,
    warnings: Seq<ProviderScanWarningView>,
    batch_limit: u64,
    locator: Seq<char>,
)
    requires
        (exists|e: int| 0 <= e < entries.len() && offered(#[trigger] entries[e]).locator == locator)
            || (exists|w: int|
            0 <= w < warnings.len() && (#[trigger] warnings[w]).provider_locator == Some(locator)),
        warned_candidates(entries, warnings, warnings.len() as int).0.len() <= u64::MAX,
    ensures
        ({
            let page = inbox_page(scan_complete, entries, warnings, batch_limit);
            let all = warned_candidates(entries, warnings, warnings.len() as int).0;
            &&& page.remaining == 0 ==> exists|m: int|
                0 <= m < page.candidates.len() && (#[trigger] page.candidates[m]).locator == locator
            &&& page.candidates.len() + page.remaining == all.len()
            &&& forall|m: int|
                0 <= m < page.candidates.len() ==> #[trigger] page.candidates[m] == all[m]
            &&& page.remaining > 0 ==> !page.scan_complete
            &&& scan_complete && page.remaining == 0 ==> page.scan_complete
        }),
{
    warned_places_are_candidates(entries, warnings, warnings.len() as int, locator);
    let page = inbox_page(scan_complete, entries, warnings, batch_limit);
    let all = warned_candidates(entries, warnings, warnings.len() as int).0;
    let k = choose|k: int| 0 <= k < all.len() && (#[trigger] all[k]).locator == locator;
    if page.remaining == 0 {
        assert(page.candidates[k].locator == locator);
    }
}

/// A file that is here is offered freely, and a placeholder is offered as blocked.
pub proof fn placeholders_are_blocked(provider_locator: String)
    ensures
        offered(InboxCatalogEntryV2::Readable { provider_locator }).locator == provider_locator@,
        offered(InboxCatalogEntryV2::Readable { provider_locator }).blocked is None,
        offered(InboxCatalogEntryV2::Placeholder { provider_locator }).locator
            == provider_locator@,
        offered(InboxCatalogEntryV2::Placeholder { provider_locator }).blocked is Some,
        offered(InboxCatalogEntryV2::Placeholder { provider_locator }).blocked->0.code
            == "asset_not_hydrated"@,
{
}

proof fn inspections_count_every_entry(
    scan_complete: bool,
    entries: Seq<InspectedInboxEntryV2>,
    n: int,
)
    requires
        0 <= n <= entries.len() <= u64::MAX,
    ensures
        inspected_entries(scan_complete, entries, n) matches Ok(found) ==> {
            &&& found.new_count + found.registered_count + found.blocked_count == n
            &&& found.registered_asset_ids.len() == found.registered_count
            &&& found.scan_complete == scan_complete
            &&& forall|e: int|
                0 <= e < n && (#[trigger] entries[e] matches InspectedInboxEntryV2::Readable {
                    fingerprint,
                    registry,
                } && registry == RegistryEntryState::Valid && asset_id_of(fingerprint.deep_view())
                    is Ok) ==> found.registered_asset_ids.contains(
                    asset_id_of(entries[e]->fingerprint.deep_view())->Ok_0,
                )
        },
    decreases n,
{
    if n > 0 {
        inspections_count_every_entry(scan_complete, entries, n - 1);
        if inspected_entries(scan_complete, entries, n) is Ok {
            let before = inspected_entries(scan_complete, entries, n - 1)->Ok_0;
            let found = inspected_entries(scan_complete, entries, n)->Ok_0;
            assert forall|e: int|
                0 <= e < n && (#[trigger] entries[e] matches InspectedInboxEntryV2::Readable {
                    fingerprint,
                    registry,
                } && registry == RegistryEntryState::Valid && asset_id_of(fingerprint.deep_view())
                    is Ok) implies found.registered_asset_ids.contains(
                asset_id_of(entries[e]->fingerprint.deep_view())->Ok_0,
            ) by {
                let id = asset_id_of(entries[e]->fingerprint.deep_view())->Ok_0;
                if e < n - 1 {
                    assert(before.registered_asset_ids.contains(id));
                    let k = choose|k: int|
                        0 <= k < before.registered_asset_ids.len()
                            && before.registered_asset_ids[k] == id;
                    assert(found.registered_asset_ids[k] == id);
                } else {
                    assert(found.registered_asset_ids.last() == id);
                }
            }
        }
    }
}

/// An inspection counts every file of the inbox once, as new, as registered or as blocked, and
/// every warning as blocked; the IDs that it tells are those of the registered files.
pub proof fn inspections_count_everything(
    scan_complete: bool,
    entries: Seq<InspectedInboxEntryV2>,
    warning_count: u64,
    e: int,
)
    requires
        entries.len() + warning_count <= u64::MAX,
        0 <= e < entries.len(),
    ensures
        inbox_inspection(scan_complete, entries, warning_count) matches Ok(found) ==> {
            &&& found.new_count + found.registered_count + found.blocked_count == entries.len()
                + warning_count
            &&& found.blocked_count >= warning_count
            &&& found.registered_asset_ids.len() == found.registered_count
            &&& found.scan_complete == scan_complete
            &&& (entries[e] matches InspectedInboxEntryV2::Readable { fingerprint, registry }
                && registry == RegistryEntryState::Valid && asset_id_of(fingerprint.deep_view())
                is Ok) ==> found.registered_asset_ids.contains(
                asset_id_of(entries[e]->fingerprint.deep_view())->Ok_0,
            )
        },
{
    inspections_count_every_entry(scan_complete, entries, entries.len() as int);
    assert(entries[e] == entries[e]);
}

/// A file counts as new where nothing is registered for its content, as registered where a
/// sound record is, and as blocked where the record is broken or the file is a placeholder.
pub proof fn files_count_by_their_record(
    scan_complete: bool,
    entries: Seq<InspectedInboxEntryV2>,
    n: int,
    id: Seq<char>,
)
    requires
        0 < n <= entries.len() <= u64::MAX,
        inspected_entries(scan_complete, entries, n - 1) is Ok,
        inspected_entries(scan_complete, entries, n) is Ok,
    ensures
        ({
            let before = inspected_entries(scan_complete, entries, n - 1)->Ok_0;
            let after = inspected_entries(scan_complete, entries, n)->Ok_0;
            &&& entries[n - 1] is Placeholder ==> after.blocked_count == before.blocked_count + 1
                && after.new_count == before.new_count
            &&& (entries[n - 1] matches InspectedInboxEntryV2::Readable { registry, .. } && registry
                == RegistryEntryState::Absent) ==> after.new_count == before.new_count + 1
            &&& (entries[n - 1] matches InspectedInboxEntryV2::Readable { registry, .. } && registry
                == RegistryEntryState::Valid) ==> after.registered_count == before.registered_count
                + 1
            &&& (entries[n - 1] matches InspectedInboxEntryV2::Readable { registry, .. } && (registry
                == RegistryEntryState::Invalid || registry == RegistryEntryState::Unreadable))
                ==> after.blocked_count == before.blocked_count + 1
        }),
{
    inspections_count_every_entry(scan_complete, entries, n - 1);
}

proof fn outer_line_feeds_alone_are_dropped(text: Seq<char>)
    ensures
        exists|a: int, b: int|
            0 <= a <= b <= text.len() && without_outer_line_feeds(text) == #[trigger] text.subrange(
                a,
                b,
            ),
{
    first_line_feeds_alone(text);
    let begun = without_first_line_feeds(text);
    last_line_feeds_alone(begun);
    let kept = without_outer_line_feeds(text);
    let a = text.len() - begun.len();
    let b = a + kept.len();
    assert(text.subrange(a, b) =~= kept) by {
        assert forall|i: int| 0 <= i < kept.len() implies text.subrange(a, b)[i] == kept[i] by {
            assert(kept[i] == begun[i]);
            assert(begun[i] == text[a + i]);
        }
    }
}

proof fn first_line_feeds_alone(text: Seq<char>)
    ensures
        without_first_line_feeds(text).len() <= text.len(),
        without_first_line_feeds(text) == text.skip(
            text.len() - without_first_line_feeds(text).len(),
        ),
        forall|i: int|
            0 <= i < text.len() - without_first_line_feeds(text).len() ==> #[trigger] text[i]
                == '\n',
    decreases text.len(),
{
    if text.len() > 0 && text[0] == '\n' {
        let rest = text.skip(1);
        first_line_feeds_alone(rest);
        let dropped = rest.len() - without_first_line_feeds(rest).len();
        assert(text.skip(dropped + 1) =~= rest.skip(dropped));
        assert forall|i: int| 0 <= i < dropped + 1 implies #[trigger] text[i] == '\n' by {
            if i > 0 {
                assert(rest[i - 1] == text[i]);
            }
        }
    } else {
        assert(text.skip(0) =~= text);
    }
}

proof fn last_line_feeds_alone(text: Seq<char>)
    ensures
        without_last_line_feeds(text).is_prefix_of(text),
        forall|i: int|
            without_last_line_feeds(text).len() <= i < text.len() ==> #[trigger] text[i] == '\n',
    decreases text.len(),
{
    if text.len() > 0 && text.last() == '\n' {
        last_line_feeds_alone(text.drop_last());
        assert forall|i: int|
            without_last_line_feeds(text).len() <= i < text.len() implies #[trigger] text[i]
            == '\n' by {
            if i < text.len() - 1 {
                assert(text.drop_last()[i] == text[i]);
            }
        }
    }
}

/// A judgment keeps the words as they were given, in composed form and with line feeds alone,
/// but for the empty lines around them. A text that holds nothing, that is longer than 32 KiB
/// or that holds control characters is refused.
pub proof fn judgments_keep_the_words(normalized: Seq<char>)
    ensures
        kept_text(normalized) matches Ok(kept) ==> exists|a: int, b: int|
            0 <= a <= b <= normalized.len() && kept == #[trigger] normalized.subrange(a, b),
        kept_text(normalized) is Ok <==> {
            let kept = without_outer_line_feeds(normalized);
            &&& 0 < encode_utf8(kept).len() <= 32_768
            &&& forall|i: int| 0 <= i < kept.len() ==> !is_disallowed(#[trigger] kept[i])
        },
        !is_disallowed('\n'),
        !is_disallowed('\t'),
        !is_disallowed('a'),
        is_disallowed('\u{0}'),
        is_disallowed('\u{1b}'),
        is_disallowed('\u{7f}'),
        is_disallowed('\u{200e}'),
        is_disallowed('\u{202e}'),
        is_disallowed('\u{2066}'),
{
    outer_line_feeds_alone_are_dropped(normalized);
}

/// A judgment is bound to the record and the revision that it speaks of, to its words and
/// their digest, and to the way in which it was confirmed; its ID is a digest too.
pub proof fn judgments_are_bound_to_their_subject(
    knowledge_id: Seq<char>,
    knowledge_revision: Seq<char>,
    text: Seq<char>,
    authorship: JudgmentAuthorshipV2,
    hash: Seq<char>,
    created_at: Timestamp,
)
    ensures
        identity_of(knowledge_id, knowledge_revision, text, authorship) matches Ok(identity) ==> {
            let annotation = annotation_of(identity, "sha256:"@ + hash, created_at);
            &&& identity.knowledge_id == knowledge_id
            &&& identity.knowledge_revision == knowledge_revision
            &&& kept_text(nfc(line_feeds(text))) == Ok::<Seq<char>, ErrorView>(identity.text)
            &&& identity.text_digest == "sha256:"@ + sha256_hex(encode_utf8(identity.text))
            &&& identity.authorship == authorship
            &&& annotation.schema_version == 2
            &&& annotation.record_type == "judgment"@
            &&& annotation.id == "personal-judgment-"@ + hash
            &&& annotation.knowledge_id == knowledge_id
            &&& annotation.knowledge_revision == knowledge_revision
            &&& annotation.text == identity.text
            &&& annotation.text_digest == identity.text_digest
            &&& annotation.authorship == authorship
            &&& annotation.created_at == created_at
        },
        subject_check(knowledge_id, knowledge_revision) is Ok <==> prefixed_hash(
            knowledge_id,
            "personal-knowledge-"@,
        ) is Some && prefixed_hash(knowledge_revision, "sha256:"@) is Some,
        subject_check(knowledge_id, knowledge_revision) is Err ==> identity_of(
            knowledge_id,
            knowledge_revision,
            text,
            authorship,
        ) is Err,
{
    let digest = "sha256:"@ + hash;
    assert("sha256:"@.is_prefix_of(digest));
    assert(digest.skip("sha256:"@.len() as int) =~= hash);
}

/// The document of a judgment holds its words under their heading, behind its metadata.
pub proof fn judgment_documents_hold_the_words(yaml: Seq<char>, text: Seq<char>)
    ensures
        judgment_document(yaml, text) == "---\n"@ + rendered_metadata(yaml) + "\n---\n"@ + nfc(
            line_feeds("# User judgment\n\n"@ + text + "\n"@),
        ),
        rendered_body("# User judgment\n\n"@ + text + "\n"@) == nfc(
            line_feeds("# User judgment\n\n"@ + text + "\n"@),
        ),
{
}

/// The perspectives of a selection are exactly those that were chosen, each once and in their
/// own order.
pub proof fn selections_hold_what_was_chosen(chosen: Seq<PerspectiveV2>, one: PerspectiveV2)
    ensures
        canonical_perspectives(chosen).contains(one) <==> chosen.contains(one),
        canonical_perspectives(chosen).len() <= 5,
        all_perspectives() == seq![
            PerspectiveV2::Life,
            PerspectiveV2::Learning,
            PerspectiveV2::Technical,
            PerspectiveV2::Project,
            PerspectiveV2::Investment,
        ],
        perspective_name(PerspectiveV2::Life) == "life"@,
        perspective_name(PerspectiveV2::Learning) == "learning"@,
        perspective_name(PerspectiveV2::Technical) == "technical"@,
        perspective_name(PerspectiveV2::Project) == "project"@,
        perspective_name(PerspectiveV2::Investment) == "investment"@,
{
    let all = all_perspectives();
    let keep = |perspective: PerspectiveV2| chosen.contains(perspective);
    all.lemma_filter_len(keep);
    let at: int = match one {
        PerspectiveV2::Life => 0,
        PerspectiveV2::Learning => 1,
        PerspectiveV2::Technical => 2,
        PerspectiveV2::Project => 3,
        PerspectiveV2::Investment => 4,
    };
    assert(all[at] == one);
    if chosen.contains(one) {
        all.lemma_filter_contains(keep, at);
    }
    if canonical_perspectives(chosen).contains(one) {
        all.lemma_filter_contains_rev(keep, one);
    }
}

/// A record of high risk is confirmed only where it argues against itself and leaves a
/// question open; any other record is confirmed as it is.
pub proof fn risky_records_need_doubt(kinds: Seq<KnowledgeUnitKindV2>)
    ensures
        risk_check(DomainPolicyV2::Standard, kinds) is Ok,
        risk_check(DomainPolicyV2::HighRisk, kinds) is Ok <==> kinds.contains(
            KnowledgeUnitKindV2::Counterargument,
        ) && kinds.contains(KnowledgeUnitKindV2::OpenQuestion),
{
}

/// What is shown before perspectives are confirmed tells the record, its revision, the
/// perspectives, the policy and the effect; the phrase that confirms it is bound to the card
/// and to the effect.
pub proof fn confirmations_tell_what_they_do(
    current: CurrentKnowledgeRevisionV2View,
    selection: PerspectiveSelectionV2View,
    effect_digest: Seq<char>,
    card_digest: Seq<char>,
)
    ensures
        ({
            let prepared = confirmation_of(current, selection, effect_digest, card_digest);
            &&& prepared.current == current
            &&& prepared.perspectives == selection.perspectives
            &&& prepared.domain_policy == selection.domain_policy
            &&& prepared.card_digest == card_digest
            &&& prepared.confirmation_phrase == "confirm-perspectives "@ + card_digest + " "@
                + effect_digest
            &&& prepared.confirmation_card == perspective_card(
                current.record_id,
                current.revision,
                selection.perspectives,
                selection.domain_policy,
                effect_digest,
            )
        }),
        perspective_card(
            current.record_id,
            current.revision,
            selection.perspectives,
            DomainPolicyV2::HighRisk,
            effect_digest,
        ) == "# Perspective confirmation\n\n- Knowledge ID: `"@ + current.record_id
            + "`\n- Current revision: `"@ + current.revision + "`\n- Perspectives: `"@ + join(
            selection.perspectives.map_values(
                |perspective: PerspectiveV2| perspective_name(perspective),
            ),
            ", "@,
        ) + "`\n- Derived policy: `"@ + "high_risk"@ + "`\n- Effect digest: `"@ + effect_digest
            + "`\n\nThis publishes a new pending Knowledge revision. It does not approve, commit, push, or promote anything.\n"@,
        perspective_card(
            current.record_id,
            current.revision,
            selection.perspectives,
            DomainPolicyV2::Standard,
            effect_digest,
        ) == "# Perspective confirmation\n\n- Knowledge ID: `"@ + current.record_id
            + "`\n- Current revision: `"@ + current.revision + "`\n- Perspectives: `"@ + join(
            selection.perspectives.map_values(
                |perspective: PerspectiveV2| perspective_name(perspective),
            ),
            ", "@,
        ) + "`\n- Derived policy: `"@ + "standard"@ + "`\n- Effect digest: `"@ + effect_digest
            + "`\n\nThis publishes a new pending Knowledge revision. It does not approve, commit, push, or promote anything.\n"@,
{
}

} // verus!

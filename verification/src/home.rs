//! What a person sees first: how much material waits, and what to do next.

use crate::asset_v2::{InboxAssetInspectionV2, InboxAssetInspectionV2View};
use crate::attempt_v2::{
    latest_attempt, latest_preparation_attempt_v2, reason_of, PreparationAttemptV2,
    PreparationAttemptV2View, StuckReasonV2,
};
use crate::error::MkoError;
use crate::json_v1::StateCounts;
use crate::order::lists_text;
use crate::text::same;
use vstd::prelude::*;

verus! {

#[derive(Clone, Copy, Debug, PartialEq, Eq, Structural)]
pub enum RepositoryGeneration {
    LegacyV1,
    V3,
}

#[derive(Clone, Copy, Debug, PartialEq, Eq, Structural)]
pub enum HomeNextAction {
    Add,
    Review,
    Repair,
    Nothing,
}

#[derive(Clone, Copy, Debug, PartialEq, Eq, Structural)]
pub struct LegacyHomeReport {
    pub new_material: u64,
    pub registered: u64,
    pub incomplete: u64,
    pub review_pending: u64,
    pub complete: u64,
    pub blocked: u64,
}

/// An Asset that has not become a record yet, and why.
#[derive(Clone, Debug, PartialEq, Eq)]
pub struct StuckMaterialV2 {
    pub asset_id: String,
    pub title: String,
    pub reason: StuckReasonV2,
}

#[verifier::ext_equal]
pub struct StuckMaterialV2View {
    pub asset_id: Seq<char>,
    pub title: Seq<char>,
    pub reason: StuckReasonV2,
}

impl DeepView for StuckMaterialV2 {
    type V = StuckMaterialV2View;

    open spec fn deep_view(&self) -> StuckMaterialV2View {
        StuckMaterialV2View {
            asset_id: self.asset_id@,
            title: self.title@,
            reason: self.reason,
        }
    }
}

#[derive(Clone, Debug, PartialEq, Eq)]
pub struct V3HomeReport {
    pub new_material: u64,
    pub registered: u64,
    /// Registered Assets that have not become a record yet.
    pub in_progress: u64,
    /// Why each of them stopped.
    pub stuck: Vec<StuckMaterialV2>,
    pub review_pending: u64,
    pub changes_requested: u64,
    pub approved_knowledge: u64,
    pub blocked: u64,
    /// False where discovery was incomplete.
    pub scan_complete: bool,
}

#[verifier::ext_equal]
pub struct V3HomeReportView {
    pub new_material: u64,
    pub registered: u64,
    pub in_progress: u64,
    pub stuck: Seq<StuckMaterialV2View>,
    pub review_pending: u64,
    pub changes_requested: u64,
    pub approved_knowledge: u64,
    pub blocked: u64,
    pub scan_complete: bool,
}

impl DeepView for V3HomeReport {
    type V = V3HomeReportView;

    open spec fn deep_view(&self) -> V3HomeReportView {
        V3HomeReportView {
            new_material: self.new_material,
            registered: self.registered,
            in_progress: self.in_progress,
            stuck: self.stuck.deep_view(),
            review_pending: self.review_pending,
            changes_requested: self.changes_requested,
            approved_knowledge: self.approved_knowledge,
            blocked: self.blocked,
            scan_complete: self.scan_complete,
        }
    }
}

#[derive(Clone, Debug, PartialEq, Eq)]
pub enum HomeReport {
    Legacy(LegacyHomeReport),
    V3(V3HomeReport),
}

/// What to do next: repair first, then review, then add.
pub open spec fn next_step(report: HomeReport) -> HomeNextAction {
    match report {
        HomeReport::Legacy(legacy) => if legacy.blocked > 0 {
            HomeNextAction::Repair
        } else if legacy.review_pending > 0 {
            HomeNextAction::Review
        } else if legacy.new_material > 0 || legacy.registered > 0 || legacy.incomplete > 0 {
            HomeNextAction::Add
        } else {
            HomeNextAction::Nothing
        },
        HomeReport::V3(current) => if current.blocked > 0 {
            HomeNextAction::Repair
        } else if current.review_pending > 0 || current.changes_requested > 0 {
            HomeNextAction::Review
        } else if current.new_material > 0 || current.in_progress > 0 {
            HomeNextAction::Add
        } else {
            HomeNextAction::Nothing
        },
    }
}

impl HomeReport {
    pub fn generation(&self) -> (generation: RepositoryGeneration)
        ensures
            generation == (match *self {
                HomeReport::Legacy(_) => RepositoryGeneration::LegacyV1,
                HomeReport::V3(_) => RepositoryGeneration::V3,
            }),
    {
        match self {
            HomeReport::Legacy(_) => RepositoryGeneration::LegacyV1,
            HomeReport::V3(_) => RepositoryGeneration::V3,
        }
    }

    pub fn next_action(&self) -> (action: HomeNextAction)
        ensures
            action == next_step(*self),
    {
        match self {
            HomeReport::Legacy(report) => {
                if report.blocked > 0 {
                    HomeNextAction::Repair
                } else if report.review_pending > 0 {
                    HomeNextAction::Review
                } else if report.new_material > 0 || report.registered > 0 || report.incomplete
                    > 0 {
                    HomeNextAction::Add
                } else {
                    HomeNextAction::Nothing
                }
            },
            HomeReport::V3(report) => {
                if report.blocked > 0 {
                    HomeNextAction::Repair
                } else if report.review_pending > 0 || report.changes_requested > 0 {
                    HomeNextAction::Review
                } else if report.new_material > 0 || report.in_progress > 0 {
                    HomeNextAction::Add
                } else {
                    HomeNextAction::Nothing
                }
            },
        }
    }
}

/// The generation of a repository: `current` tells whether its configuration is one of the
/// current format, and `is_legacy` whether it is one of the first. Where it is neither, what
/// kept it from being current is told.
pub fn detect_repository_generation(current: Result<(), MkoError>, is_legacy: bool) -> (result: Result<
    RepositoryGeneration,
    MkoError,
>)
    ensures
        match result {
            Ok(generation) => if current is Ok {
                generation == RepositoryGeneration::V3
            } else {
                is_legacy && generation == RepositoryGeneration::LegacyV1
            },
            Err(failure) => current matches Err(kept) && !is_legacy && failure.deep_view()
                == kept.deep_view(),
        },
{
    match current {
        Ok(_) => Ok(RepositoryGeneration::V3),
        Err(failure) => if is_legacy {
            Ok(RepositoryGeneration::LegacyV1)
        } else {
            Err(failure)
        },
    }
}

/// The report on a repository of the first format.
pub fn legacy_home(counts: &StateCounts) -> (report: HomeReport)
    ensures
        report == HomeReport::Legacy(
            LegacyHomeReport {
                new_material: counts.fresh,
                registered: counts.registered,
                incomplete: counts.incomplete,
                review_pending: counts.review_pending,
                complete: counts.processed,
                blocked: counts.blocked,
            },
        ),
{
    HomeReport::Legacy(
        LegacyHomeReport {
            new_material: counts.fresh,
            registered: counts.registered,
            incomplete: counts.incomplete,
            review_pending: counts.review_pending,
            complete: counts.processed,
            blocked: counts.blocked,
        },
    )
}

/// What the review queue of a repository holds.
#[derive(Clone, Debug, PartialEq, Eq)]
pub struct HomeQueueSummary {
    pub recorded_asset_ids: Vec<String>,
    pub review_pending: u64,
    pub changes_requested: u64,
    pub approved_knowledge: u64,
    pub blocked: u64,
}

#[verifier::ext_equal]
pub struct HomeQueueSummaryView {
    pub recorded_asset_ids: Seq<Seq<char>>,
    pub review_pending: u64,
    pub changes_requested: u64,
    pub approved_knowledge: u64,
    pub blocked: u64,
}

impl DeepView for HomeQueueSummary {
    type V = HomeQueueSummaryView;

    open spec fn deep_view(&self) -> HomeQueueSummaryView {
        HomeQueueSummaryView {
            recorded_asset_ids: self.recorded_asset_ids.deep_view(),
            review_pending: self.review_pending,
            changes_requested: self.changes_requested,
            approved_knowledge: self.approved_knowledge,
            blocked: self.blocked,
        }
    }
}

/// The title of an Asset whose record can be read.
#[derive(Clone, Debug, PartialEq, Eq)]
pub struct KnownTitle {
    pub asset_id: String,
    pub title: String,
}

#[verifier::ext_equal]
pub struct KnownTitleView {
    pub asset_id: Seq<char>,
    pub title: Seq<char>,
}

impl DeepView for KnownTitle {
    type V = KnownTitleView;

    open spec fn deep_view(&self) -> KnownTitleView {
        KnownTitleView { asset_id: self.asset_id@, title: self.title@ }
    }
}

/// The title of an Asset, or its ID where none is known.
pub open spec fn title_of(titles: Seq<KnownTitleView>, asset_id: Seq<char>, from: int) -> Seq<char>
    decreases titles.len() - from,
{
    if from >= titles.len() {
        asset_id
    } else if titles[from].asset_id == asset_id {
        titles[from].title
    } else {
        title_of(titles, asset_id, from + 1)
    }
}

/// Why an Asset is not a record yet. Without an attempt nobody has tried; so it is where
/// the attempts cannot be read.
pub open spec fn stuck_reason(attempts: Option<Seq<PreparationAttemptV2View>>, asset_id: Seq<char>) -> StuckReasonV2 {
    match attempts {
        None => StuckReasonV2::NotAttempted,
        Some(all) => match latest_attempt(all, asset_id) {
            Some(attempt) => match attempt.code {
                Some(code) => reason_of(code),
                None => StuckReasonV2::NotAttempted,
            },
            None => StuckReasonV2::NotAttempted,
        },
    }
}

/// The Assets among the first `n` that have not become a record.
pub open spec fn stuck_material(
    asset_ids: Seq<Seq<char>>,
    recorded: Seq<Seq<char>>,
    attempts: Option<Seq<PreparationAttemptV2View>>,
    titles: Seq<KnownTitleView>,
    n: int,
) -> Seq<StuckMaterialV2View>
    decreases n,
{
    if n <= 0 {
        Seq::empty()
    } else {
        let front = stuck_material(asset_ids, recorded, attempts, titles, n - 1);
        let id = asset_ids[n - 1];
        if recorded.contains(id) {
            front
        } else {
            front.push(
                StuckMaterialV2View {
                    asset_id: id,
                    title: title_of(titles, id, 0),
                    reason: stuck_reason(attempts, id),
                },
            )
        }
    }
}

/// The report on a repository of the current format.
pub open spec fn current_home(
    inbox: InboxAssetInspectionV2View,
    queue: HomeQueueSummaryView,
    attempts: Option<Seq<PreparationAttemptV2View>>,
    titles: Seq<KnownTitleView>,
) -> V3HomeReportView {
    let stuck = stuck_material(
        inbox.registered_asset_ids,
        queue.recorded_asset_ids,
        attempts,
        titles,
        inbox.registered_asset_ids.len() as int,
    );
    V3HomeReportView {
        new_material: inbox.new_count,
        registered: inbox.registered_count,
        in_progress: stuck.len() as u64,
        stuck,
        review_pending: queue.review_pending,
        changes_requested: queue.changes_requested,
        approved_knowledge: queue.approved_knowledge,
        blocked: if inbox.blocked_count + queue.blocked > u64::MAX {
            u64::MAX
        } else {
            (inbox.blocked_count + queue.blocked) as u64
        },
        scan_complete: inbox.scan_complete,
    }
}

fn find_title(titles: &Vec<KnownTitle>, asset_id: &str) -> (title: String)
    ensures
        title@ == title_of(titles.deep_view(), asset_id@, 0),
{
    let ghost all = titles.deep_view();
    let mut i: usize = 0;
    while i < titles.len()
        invariant
            i <= titles.len(),
            all == titles.deep_view(),
            title_of(all, asset_id@, 0) == title_of(all, asset_id@, i as int),
        decreases titles.len() - i,
    {
        assert(all[i as int] == titles@[i as int].deep_view());
        if same(titles[i].asset_id.as_str(), asset_id) {
            return titles[i].title.clone();
        }
        i += 1;
    }
    asset_id.to_owned()
}

fn find_reason(attempts: &Option<Vec<PreparationAttemptV2>>, asset_id: &str) -> (reason: StuckReasonV2)
    ensures
        reason == stuck_reason(attempts.deep_view(), asset_id@),
{
    match attempts {
        None => StuckReasonV2::NotAttempted,
        Some(all) => match latest_preparation_attempt_v2(all, asset_id) {
            Some(attempt) => match &attempt.code {
                Some(code) => StuckReasonV2::from_code(code.as_str()),
                None => StuckReasonV2::NotAttempted,
            },
            None => StuckReasonV2::NotAttempted,
        },
    }
}

/// The report on a repository of the current format: `attempts` is nothing where they could
/// not be read.
pub fn inspect_home(
    inbox: &InboxAssetInspectionV2,
    queue: &HomeQueueSummary,
    attempts: &Option<Vec<PreparationAttemptV2>>,
    titles: &Vec<KnownTitle>,
) -> (report: V3HomeReport)
    ensures
        report.deep_view() == current_home(
            inbox.deep_view(),
            queue.deep_view(),
            attempts.deep_view(),
            titles.deep_view(),
        ),
{
    let ids = &inbox.registered_asset_ids;
    let ghost all = ids.deep_view();
    let ghost recorded = queue.recorded_asset_ids.deep_view();
    let mut stuck: Vec<StuckMaterialV2> = Vec::new();
    let mut i: usize = 0;
    assert(stuck.deep_view() == Seq::<StuckMaterialV2View>::empty());
    while i < ids.len()
        invariant
            i <= ids.len(),
            all == ids.deep_view(),
            recorded == queue.recorded_asset_ids.deep_view(),
            stuck.deep_view() == stuck_material(
                all,
                recorded,
                attempts.deep_view(),
                titles.deep_view(),
                i as int,
            ),
        decreases ids.len() - i,
    {
        let id = ids[i].as_str();
        assert(all[i as int] == id@);
        if !lists_text(&queue.recorded_asset_ids, id) {
            let ghost before = stuck.deep_view();
            let item = StuckMaterialV2 {
                asset_id: id.to_owned(),
                title: find_title(titles, id),
                reason: find_reason(attempts, id),
            };
            stuck.push(item);
            assert(stuck.deep_view() == before.push(item.deep_view()));
        }
        i += 1;
    }
    V3HomeReport {
        new_material: inbox.new_count,
        registered: inbox.registered_count,
        in_progress: stuck.len() as u64,
        stuck,
        review_pending: queue.review_pending,
        changes_requested: queue.changes_requested,
        approved_knowledge: queue.approved_knowledge,
        blocked: inbox.blocked_count.saturating_add(queue.blocked),
        scan_complete: inbox.scan_complete,
    }
}

/// Material that is registered and not recorded is never out of sight: a report that asks
/// for nothing has none.
pub proof fn stuck_material_is_never_hidden(report: V3HomeReport)
    requires
        next_step(HomeReport::V3(report)) == HomeNextAction::Nothing,
    ensures
        report.in_progress == 0,
        report.new_material == 0,
        report.blocked == 0,
{
}

} // verus!

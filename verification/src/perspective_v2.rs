//! The perspectives of a knowledge record, which a person confirms word for word.

use crate::config_v2::{
    all_perspectives, perspective_name, policy_for, DomainPolicyV2, KnowledgeConfigV2,
    KnowledgeConfigV2View, PerspectiveV2,
};
use crate::error::{error, verdict, ErrorView, MkoError};
use crate::judgment_v2::{digest, digest_of};
use crate::model_v2::KnowledgeUnitKindV2;
use crate::order::{lists_plain, same_plain};
use crate::text::{cat4, cat5, join, join_texts, same};
use vstd::prelude::*;
use vstd::utf8::encode_utf8;

verus! {

/// The current revision of a knowledge record, as far as a confirmation reads it.
#[derive(Clone, Debug, PartialEq, Eq)]
pub struct CurrentKnowledgeRevisionV2 {
    pub record_id: String,
    pub revision: String,
    pub unit_kinds: Vec<KnowledgeUnitKindV2>,
}

#[verifier::ext_equal]
pub struct CurrentKnowledgeRevisionV2View {
    pub record_id: Seq<char>,
    pub revision: Seq<char>,
    pub unit_kinds: Seq<KnowledgeUnitKindV2>,
}

impl DeepView for CurrentKnowledgeRevisionV2 {
    type V = CurrentKnowledgeRevisionV2View;

    open spec fn deep_view(&self) -> CurrentKnowledgeRevisionV2View {
        CurrentKnowledgeRevisionV2View {
            record_id: self.record_id@,
            revision: self.revision@,
            unit_kinds: self.unit_kinds@,
        }
    }
}

impl CurrentKnowledgeRevisionV2 {
    fn duplicate(&self) -> (copy: Self)
        ensures
            copy.deep_view() == self.deep_view(),
    {
        CurrentKnowledgeRevisionV2 {
            record_id: self.record_id.clone(),
            revision: self.revision.clone(),
            unit_kinds: crate::text::copy_plain(&self.unit_kinds),
        }
    }
}

#[derive(Clone, Debug, PartialEq, Eq)]
pub struct PreparedPerspectiveConfirmationV2 {
    pub current: CurrentKnowledgeRevisionV2,
    pub perspectives: Vec<PerspectiveV2>,
    pub domain_policy: DomainPolicyV2,
    pub confirmation_card: String,
    pub card_digest: String,
    pub confirmation_phrase: String,
}

#[verifier::ext_equal]
pub struct PreparedPerspectiveConfirmationV2View {
    pub current: CurrentKnowledgeRevisionV2View,
    pub perspectives: Seq<PerspectiveV2>,
    pub domain_policy: DomainPolicyV2,
    pub confirmation_card: Seq<char>,
    pub card_digest: Seq<char>,
    pub confirmation_phrase: Seq<char>,
}

impl DeepView for PreparedPerspectiveConfirmationV2 {
    type V = PreparedPerspectiveConfirmationV2View;

    open spec fn deep_view(&self) -> PreparedPerspectiveConfirmationV2View {
        PreparedPerspectiveConfirmationV2View {
            current: self.current.deep_view(),
            perspectives: self.perspectives@,
            domain_policy: self.domain_policy,
            confirmation_card: self.confirmation_card@,
            card_digest: self.card_digest@,
            confirmation_phrase: self.confirmation_phrase@,
        }
    }
}

/// The chosen perspectives in their order, each once.
pub open spec fn canonical_perspectives(chosen: Seq<PerspectiveV2>) -> Seq<PerspectiveV2> {
    all_perspectives().filter(|perspective: PerspectiveV2| chosen.contains(perspective))
}

#[verifier::loop_isolation(false)]
fn sort_perspectives(chosen: &Vec<PerspectiveV2>) -> (sorted: Vec<PerspectiveV2>)
    ensures
        sorted@ == canonical_perspectives(chosen@),
{
    let all = PerspectiveV2::all();
    let ghost whole = all_perspectives();
    let ghost keep = |perspective: PerspectiveV2| chosen@.contains(perspective);
    let mut sorted: Vec<PerspectiveV2> = Vec::new();
    let mut i: usize = 0;
    proof {
        reveal(Seq::filter);
        assert(whole.take(0).filter(keep) == Seq::<PerspectiveV2>::empty());
    }
    while i < all.len()
        invariant
            i <= all.len(),
            sorted@ == whole.take(i as int).filter(keep),
        decreases all.len() - i,
    {
        proof {
            reveal(Seq::filter);
            assert(whole.take(i + 1).drop_last() == whole.take(i as int));
            assert(whole.take(i + 1).last() == all@[i as int]);
        }
        if lists_plain(chosen.as_slice(), all[i]) {
            sorted.push(all[i]);
        }
        i += 1;
    }
    assert(whole.take(i as int) == whole);
    sorted
}

/// A selection of perspectives and the policy it calls for.
#[derive(Clone, Debug, PartialEq, Eq)]
pub struct PerspectiveSelectionV2 {
    perspectives: Vec<PerspectiveV2>,
    domain_policy: DomainPolicyV2,
}

#[verifier::ext_equal]
pub struct PerspectiveSelectionV2View {
    pub perspectives: Seq<PerspectiveV2>,
    pub domain_policy: DomainPolicyV2,
}

impl DeepView for PerspectiveSelectionV2 {
    type V = PerspectiveSelectionV2View;

    closed spec fn deep_view(&self) -> PerspectiveSelectionV2View {
        PerspectiveSelectionV2View {
            perspectives: self.perspectives@,
            domain_policy: self.domain_policy,
        }
    }
}

impl PerspectiveSelectionV2 {
    pub fn perspectives(&self) -> (perspectives: &Vec<PerspectiveV2>)
        ensures
            perspectives@ == self.deep_view().perspectives,
    {
        &self.perspectives
    }

    pub fn domain_policy(&self) -> (domain_policy: DomainPolicyV2)
        ensures
            domain_policy == self.deep_view().domain_policy,
    {
        self.domain_policy
    }
}

/// The rule on records of high risk: they argue against themselves and leave a question
/// open.
pub open spec fn risk_check(policy: DomainPolicyV2, kinds: Seq<KnowledgeUnitKindV2>) -> Result<
    (),
    ErrorView,
> {
    if policy == DomainPolicyV2::HighRisk && !(kinds.contains(KnowledgeUnitKindV2::Counterargument)
        && kinds.contains(KnowledgeUnitKindV2::OpenQuestion)) {
        Err(
            error(
                "high_risk_knowledge_incomplete"@,
                "investment perspective requires a counterargument and an open question before confirmation"@,
            ),
        )
    } else {
        Ok(())
    }
}

/// Settles what is confirmed: at least one perspective, on a record that is complete enough
/// for the policy.
pub fn select_perspectives(
    config: &KnowledgeConfigV2,
    chosen: &Vec<PerspectiveV2>,
    current: &CurrentKnowledgeRevisionV2,
) -> (result: Result<PerspectiveSelectionV2, MkoError>)
    ensures
        ({
            let perspectives = canonical_perspectives(chosen@);
            let policy = policy_for(config.deep_view(), perspectives);
            match result {
                Ok(selection) => {
                    &&& perspectives.len() > 0
                    &&& risk_check(policy, current.unit_kinds@) is Ok
                    &&& selection.deep_view().perspectives == perspectives
                    &&& selection.deep_view().domain_policy == policy
                },
                Err(failure) => if perspectives.len() == 0 {
                    failure.deep_view() == error(
                        "perspective_selection_invalid"@,
                        "select at least one perspective"@,
                    )
                } else {
                    risk_check(policy, current.unit_kinds@) == Err::<(), ErrorView>(
                        failure.deep_view(),
                    )
                },
            }
        }),
{
    let perspectives = sort_perspectives(chosen);
    if perspectives.len() == 0 {
        return Err(
            MkoError::new("perspective_selection_invalid", "select at least one perspective"),
        );
    }
    let domain_policy = config.policy_for_perspectives(perspectives.as_slice());
    if domain_policy == DomainPolicyV2::HighRisk && !(lists_plain(
        current.unit_kinds.as_slice(),
        KnowledgeUnitKindV2::Counterargument,
    ) && lists_plain(current.unit_kinds.as_slice(), KnowledgeUnitKindV2::OpenQuestion)) {
        return Err(
            MkoError::new(
                "high_risk_knowledge_incomplete",
                "investment perspective requires a counterargument and an open question before confirmation",
            ),
        );
    }
    Ok(PerspectiveSelectionV2 { perspectives, domain_policy })
}

/// What a policy is called.
pub open spec fn policy_name(policy: DomainPolicyV2) -> Seq<char> {
    match policy {
        DomainPolicyV2::Standard => "standard"@,
        DomainPolicyV2::HighRisk => "high_risk"@,
    }
}

/// The card that a person is shown.
pub open spec fn perspective_card(
    knowledge_id: Seq<char>,
    revision: Seq<char>,
    perspectives: Seq<PerspectiveV2>,
    policy: DomainPolicyV2,
    effect_digest: Seq<char>,
) -> Seq<char> {
    "# Perspective confirmation\n\n- Knowledge ID: `"@ + knowledge_id
        + "`\n- Current revision: `"@ + revision + "`\n- Perspectives: `"@ + join(
        perspectives.map_values(|perspective: PerspectiveV2| perspective_name(perspective)),
        ", "@,
    ) + "`\n- Derived policy: `"@ + policy_name(policy) + "`\n- Effect digest: `"@ + effect_digest
        + "`\n\nThis publishes a new pending Knowledge revision. It does not approve, commit, push, or promote anything.\n"@
}

fn perspective_names(perspectives: &Vec<PerspectiveV2>) -> (names: Vec<String>)
    ensures
        names.deep_view() == perspectives@.map_values(
            |perspective: PerspectiveV2| perspective_name(perspective),
        ),
{
    let ghost told = perspectives@.map_values(
        |perspective: PerspectiveV2| perspective_name(perspective),
    );
    let mut names: Vec<String> = Vec::new();
    let mut i: usize = 0;
    assert(names.deep_view() == told.take(0));
    while i < perspectives.len()
        invariant
            i <= perspectives.len(),
            told == perspectives@.map_values(
                |perspective: PerspectiveV2| perspective_name(perspective),
            ),
            names.deep_view() == told.take(i as int),
        decreases perspectives.len() - i,
    {
        let ghost before = names.deep_view();
        let name = perspectives[i].as_str().to_owned();
        names.push(name);
        assert(names.deep_view() == before.push(told[i as int]));
        assert(told.take(i + 1) == told.take(i as int).push(told[i as int]));
        i += 1;
    }
    assert(told.take(i as int) == told);
    names
}

/// Writes the card of a selection. `effect_digest` is the digest of what the confirmation
/// would do.
pub fn write_perspective_card(
    current: &CurrentKnowledgeRevisionV2,
    selection: &PerspectiveSelectionV2,
    effect_digest: &str,
) -> (card: String)
    ensures
        card@ == perspective_card(
            current.deep_view().record_id,
            current.deep_view().revision,
            selection.deep_view().perspectives,
            selection.deep_view().domain_policy,
            effect_digest@,
        ),
{
    let names = perspective_names(&selection.perspectives);
    let labels = join_texts(&names, ", ");
    let policy = match selection.domain_policy {
        DomainPolicyV2::Standard => "standard",
        DomainPolicyV2::HighRisk => "high_risk",
    };
    let head = cat4(
        "# Perspective confirmation\n\n- Knowledge ID: `",
        current.record_id.as_str(),
        "`\n- Current revision: `",
        current.revision.as_str(),
    );
    let middle = cat5(
        head.as_str(),
        "`\n- Perspectives: `",
        labels.as_str(),
        "`\n- Derived policy: `",
        policy,
    );
    cat4(
        middle.as_str(),
        "`\n- Effect digest: `",
        effect_digest,
        "`\n\nThis publishes a new pending Knowledge revision. It does not approve, commit, push, or promote anything.\n",
    )
}

/// The phrase that confirms a card and its effect.
pub open spec fn confirmation_phrase(card_digest: Seq<char>, effect_digest: Seq<char>) -> Seq<char> {
    "confirm-perspectives "@ + card_digest + " "@ + effect_digest
}

/// The confirmation of a selection, whose card has that digest.
pub open spec fn confirmation_of(
    current: CurrentKnowledgeRevisionV2View,
    selection: PerspectiveSelectionV2View,
    effect_digest: Seq<char>,
    card_digest: Seq<char>,
) -> PreparedPerspectiveConfirmationV2View {
    PreparedPerspectiveConfirmationV2View {
        current,
        perspectives: selection.perspectives,
        domain_policy: selection.domain_policy,
        confirmation_card: selection_card(current, selection, effect_digest),
        card_digest,
        confirmation_phrase: confirmation_phrase(card_digest, effect_digest),
    }
}

/// The card that is shown for a selection.
pub open spec fn selection_card(
    current: CurrentKnowledgeRevisionV2View,
    selection: PerspectiveSelectionV2View,
    effect_digest: Seq<char>,
) -> Seq<char> {
    perspective_card(
        current.record_id,
        current.revision,
        selection.perspectives,
        selection.domain_policy,
        effect_digest,
    )
}

/// A confirmation whose card has that digest.
pub fn confirm_perspective_card(
    current: &CurrentKnowledgeRevisionV2,
    selection: &PerspectiveSelectionV2,
    effect_digest: &str,
    card_digest: String,
) -> (prepared: PreparedPerspectiveConfirmationV2)
    ensures
        prepared.deep_view() == confirmation_of(
            current.deep_view(),
            selection.deep_view(),
            effect_digest@,
            card_digest@,
        ),
{
    PreparedPerspectiveConfirmationV2 {
        current: current.duplicate(),
        perspectives: crate::text::copy_plain(&selection.perspectives),
        domain_policy: selection.domain_policy,
        confirmation_card: write_perspective_card(current, selection, effect_digest),
        confirmation_phrase: cat4(
            "confirm-perspectives ",
            card_digest.as_str(),
            " ",
            effect_digest,
        ),
        card_digest,
    }
}

/// Prepares a confirmation: it is bound to the digest of the card that is shown, and to
/// `effect_digest`, the digest of what it would do.
pub fn prepare_perspective_confirmation_v2(
    current: &CurrentKnowledgeRevisionV2,
    selection: &PerspectiveSelectionV2,
    effect_digest: &str,
) -> (prepared: PreparedPerspectiveConfirmationV2)
    ensures
        prepared.deep_view() == confirmation_of(
            current.deep_view(),
            selection.deep_view(),
            effect_digest@,
            digest_of(
                encode_utf8(
                    selection_card(
                        current.deep_view(),
                        selection.deep_view(),
                        effect_digest@,
                    ),
                ),
            ),
        ),
        prepared.deep_view().card_digest == digest_of(
            encode_utf8(prepared.deep_view().confirmation_card),
        ),
{
    let card = write_perspective_card(current, selection, effect_digest);
    let card_digest = digest(card.as_str().as_bytes());
    confirm_perspective_card(current, selection, effect_digest, card_digest)
}

fn same_confirmation(
    left: &PreparedPerspectiveConfirmationV2,
    right: &PreparedPerspectiveConfirmationV2,
) -> (equal: bool)
    ensures
        equal == (left.deep_view() == right.deep_view()),
{
    same(left.current.record_id.as_str(), right.current.record_id.as_str()) && same(
        left.current.revision.as_str(),
        right.current.revision.as_str(),
    ) && same_plain(
        left.current.unit_kinds.as_slice(),
        right.current.unit_kinds.as_slice(),
    ) && same_plain(
        left.perspectives.as_slice(),
        right.perspectives.as_slice(),
    ) && left.domain_policy == right.domain_policy && same(
        left.confirmation_card.as_str(),
        right.confirmation_card.as_str(),
    ) && same(left.card_digest.as_str(), right.card_digest.as_str()) && same(
        left.confirmation_phrase.as_str(),
        right.confirmation_phrase.as_str(),
    )
}

/// A confirmation is published only if preparing it again gives the same, and if the exact
/// phrase was typed. `canonical` is the confirmation prepared again.
pub fn publish_perspective_confirmation_v2(
    canonical: &PreparedPerspectiveConfirmationV2,
    prepared: &PreparedPerspectiveConfirmationV2,
    confirmation: &str,
) -> (result: Result<(), MkoError>)
    ensures
        verdict(result) == (if canonical.deep_view() != prepared.deep_view() {
            Err(
                error(
                    "perspective_confirmation_stale"@,
                    "Knowledge revision or perspective confirmation changed after display"@,
                ),
            )
        } else if confirmation@ != prepared.deep_view().confirmation_phrase {
            Err(
                error(
                    "perspective_confirmation_mismatch"@,
                    "confirmation does not match the exact displayed perspective effect"@,
                ),
            )
        } else {
            Ok(())
        }),
{
    if !same_confirmation(canonical, prepared) {
        return Err(
            MkoError::new(
                "perspective_confirmation_stale",
                "Knowledge revision or perspective confirmation changed after display",
            ),
        );
    }
    if !same(confirmation, prepared.confirmation_phrase.as_str()) {
        return Err(
            MkoError::new(
                "perspective_confirmation_mismatch",
                "confirmation does not match the exact displayed perspective effect",
            ),
        );
    }
    Ok(())
}

/// A selection depends on which perspectives are chosen alone: neither their order nor how
/// often they are named matters.
pub proof fn selections_are_sets(left: Seq<PerspectiveV2>, right: Seq<PerspectiveV2>)
    requires
        forall|perspective: PerspectiveV2|
            left.contains(perspective) == right.contains(perspective),
    ensures
        canonical_perspectives(left) == canonical_perspectives(right),
{
    let in_left = |perspective: PerspectiveV2| left.contains(perspective);
    let in_right = |perspective: PerspectiveV2| right.contains(perspective);
    assert(in_left =~= in_right);
}

/// An investment is of high risk whatever else is chosen, and is confirmed only on a record
/// that argues against itself and leaves a question open.
pub proof fn investments_need_doubt(
    config: KnowledgeConfigV2View,
    chosen: Seq<PerspectiveV2>,
    kinds: Seq<KnowledgeUnitKindV2>,
)
    requires
        chosen.contains(PerspectiveV2::Investment),
    ensures
        policy_for(config, canonical_perspectives(chosen)) == DomainPolicyV2::HighRisk,
        risk_check(policy_for(config, canonical_perspectives(chosen)), kinds) is Ok <==> (
        kinds.contains(KnowledgeUnitKindV2::Counterargument) && kinds.contains(
            KnowledgeUnitKindV2::OpenQuestion,
        )),
{
    let keep = |perspective: PerspectiveV2| chosen.contains(perspective);
    let all = all_perspectives();
    assert(all[4] == PerspectiveV2::Investment);
    all.lemma_filter_contains(keep, 4);
}

} // verus!

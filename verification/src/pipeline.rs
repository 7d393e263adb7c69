use vstd::prelude::*;

use crate::component::{
    step_matches_model, unit_matches_model, AgreementResult, NegotiationError, NegotiationErrorV,
    NegotiationResult, NegotiatorComponent, StepModel,
};
use crate::config::{ConfigStore, GlobalsState};
use crate::document::{OfferDefinition, ProposalView, ValueV};

verus! {

/// The outcome of folding one negotiation round over `components`, in
/// order: the first rejection or fault short-circuits the round; if every
/// component accepts, the round is `Ready` with the fully folded Offer.
pub open spec fn round_model<C: NegotiatorComponent>(
    components: Seq<C>,
    config: GlobalsState,
    demand: Map<Seq<char>, ValueV>,
    offer: Map<Seq<char>, ValueV>,
) -> StepModel
    decreases components.len(),
{
    if components.len() == 0 {
        StepModel::Ready { offer }
    } else {
        match components[0].step_model(config, demand, offer) {
            StepModel::Ready { offer: next_offer } => round_model(
                components.skip(1),
                config,
                demand,
                next_offer,
            ),
            StepModel::Reject { message, is_final } => StepModel::Reject { message, is_final },
            StepModel::Fault { error } => StepModel::Fault { error },
        }
    }
}

/// The component states after one round: every component up to and
/// including the deciding one has stepped, every later one is untouched.
pub open spec fn round_final<C: NegotiatorComponent>(
    components: Seq<C>,
    config: GlobalsState,
    demand: Map<Seq<char>, ValueV>,
    offer: Map<Seq<char>, ValueV>,
) -> Seq<C>
    decreases components.len(),
{
    if components.len() == 0 {
        components
    } else {
        let stepped = components[0].step_next(config, demand, offer);
        match components[0].step_model(config, demand, offer) {
            StepModel::Ready { offer: next_offer } => seq![stepped] + round_final(
                components.skip(1),
                config,
                demand,
                next_offer,
            ),
            _ => seq![stepped] + components.skip(1),
        }
    }
}

/// The outcome of folding every component's template fill, in order; any
/// error aborts construction, and no partial template is published.
pub open spec fn fill_round_model<C: NegotiatorComponent>(
    components: Seq<C>,
    config: GlobalsState,
    template: Map<Seq<char>, ValueV>,
) -> Result<Map<Seq<char>, ValueV>, NegotiationErrorV>
    decreases components.len(),
{
    if components.len() == 0 {
        Ok(template)
    } else {
        match components[0].fill_model(config, template) {
            Ok(next_template) => fill_round_model(components.skip(1), config, next_template),
            Err(e) => Err(e),
        }
    }
}

/// The component states after one template fill pass.
pub open spec fn fill_round_final<C: NegotiatorComponent>(
    components: Seq<C>,
    config: GlobalsState,
    template: Map<Seq<char>, ValueV>,
) -> Seq<C>
    decreases components.len(),
{
    if components.len() == 0 {
        components
    } else {
        let filled = components[0].fill_next(config, template);
        match components[0].fill_model(config, template) {
            Ok(next_template) => seq![filled] + fill_round_final(
                components.skip(1),
                config,
                next_template,
            ),
            Err(_) => seq![filled] + components.skip(1),
        }
    }
}

fn run_round<C: NegotiatorComponent>(
    components: Vec<C>,
    store: &ConfigStore,
    demand: &ProposalView,
    offer: ProposalView,
) -> (outcome: (Vec<C>, Result<NegotiationResult, NegotiationError>))
    requires
        forall|i: int|
            0 <= i < components@.len() ==> (#[trigger] components@[i]).step_ok(store.snapshot()),
    ensures
        outcome.0@ == round_final(components@, store.snapshot(), demand@, offer@),
        step_matches_model(
            outcome.1,
            round_model(components@, store.snapshot(), demand@, offer@),
        ),
    decreases components@.len(),
{
    let ghost cs0 = components@;
    let ghost offer0 = offer@;
    let mut components = components;
    if components.len() == 0 {
        return (components, Ok(NegotiationResult::Ready { offer }));
    }
    let mut first = components.remove(0);
    proof {
        assert(components@ =~= cs0.skip(1));
        assert(forall|i: int|
            0 <= i < components@.len() ==> (#[trigger] components@[i]).step_ok(store.snapshot()))
            by {
            assert(forall|i: int|
                0 <= i < components@.len() ==> components@[i] == cs0[i + 1]);
        }
    }
    let decision = first.negotiate_step(store, demand, offer);
    let ghost first_model = cs0[0].step_model(store.snapshot(), demand@, offer0);
    match decision {
        Ok(NegotiationResult::Ready { offer: next_offer }) => {
            proof {
                assert(first_model == (StepModel::Ready { offer: next_offer@ }));
            }
            let (mut rest, nested) = run_round(components, store, demand, next_offer);
            rest.insert(0, first);
            proof {
                assert(rest@ =~= seq![first] + round_final(
                    cs0.skip(1),
                    store.snapshot(),
                    demand@,
                    next_offer@,
                ));
            }
            (rest, nested)
        },
        other => {
            components.insert(0, first);
            proof {
                assert(components@ =~= seq![first] + cs0.skip(1));
                assert(round_model(cs0, store.snapshot(), demand@, offer0) == first_model);
            }
            (components, other)
        },
    }
}

fn run_fill<C: NegotiatorComponent>(
    components: Vec<C>,
    store: &ConfigStore,
    template: OfferDefinition,
) -> (outcome: (Vec<C>, Result<OfferDefinition, NegotiationError>))
    requires
        forall|i: int|
            0 <= i < components@.len() ==> (#[trigger] components@[i]).fill_ok(store.snapshot()),
    ensures
        outcome.0@ == fill_round_final(components@, store.snapshot(), template@),
        (match outcome.1 {
            Ok(t) => fill_round_model(components@, store.snapshot(), template@) == Ok::<
                Map<Seq<char>, ValueV>,
                NegotiationErrorV,
            >(t@),
            Err(e) => fill_round_model(components@, store.snapshot(), template@) == Err::<
                Map<Seq<char>, ValueV>,
                NegotiationErrorV,
            >(e@),
        }),
    decreases components@.len(),
{
    let ghost cs0 = components@;
    let ghost template0 = template@;
    let mut components = components;
    if components.len() == 0 {
        return (components, Ok(template));
    }
    let mut first = components.remove(0);
    proof {
        assert(components@ =~= cs0.skip(1));
        assert(forall|i: int|
            0 <= i < components@.len() ==> (#[trigger] components@[i]).fill_ok(store.snapshot()))
            by {
            assert(forall|i: int|
                0 <= i < components@.len() ==> components@[i] == cs0[i + 1]);
        }
    }
    let filled = first.fill_template(store, template);
    match filled {
        Ok(next_template) => {
            let (mut rest, nested) = run_fill(components, store, next_template);
            rest.insert(0, first);
            proof {
                assert(rest@ =~= seq![first] + fill_round_final(
                    cs0.skip(1),
                    store.snapshot(),
                    next_template@,
                ));
            }
            (rest, nested)
        },
        Err(e) => {
            components.insert(0, first);
            proof {
                assert(components@ =~= seq![first] + cs0.skip(1));
            }
            (components, Err(e))
        },
    }
}

/// The first bookkeeping fault among the approval notifications, taken in
/// order; every component is notified regardless of earlier faults.
pub open spec fn approved_round_model<C: NegotiatorComponent>(
    components: Seq<C>,
    agreement_id: Seq<char>,
) -> Result<(), NegotiationErrorV>
    decreases components.len(),
{
    if components.len() == 0 {
        Ok(())
    } else {
        match components[0].approved_model(agreement_id) {
            Ok(_) => approved_round_model(components.skip(1), agreement_id),
            Err(e) => Err(e),
        }
    }
}

/// The first bookkeeping fault among the termination notifications, taken
/// in order; every component is notified regardless of earlier faults.
pub open spec fn terminated_round_model<C: NegotiatorComponent>(
    components: Seq<C>,
    agreement_id: Seq<char>,
    outcome: AgreementResult,
) -> Result<(), NegotiationErrorV>
    decreases components.len(),
{
    if components.len() == 0 {
        Ok(())
    } else {
        match components[0].terminated_model(agreement_id, outcome) {
            Ok(_) => terminated_round_model(components.skip(1), agreement_id, outcome),
            Err(e) => Err(e),
        }
    }
}

fn run_approved<C: NegotiatorComponent>(components: Vec<C>, agreement_id: &str) -> (outcome: (
    Vec<C>,
    Result<(), NegotiationError>,
))
    ensures
        outcome.0@.len() == components@.len(),
        forall|i: int|
            0 <= i < components@.len() ==> outcome.0@[i] == (#[trigger] components@[i]).approved_next(
                agreement_id@,
            ),
        unit_matches_model(outcome.1, approved_round_model(components@, agreement_id@)),
    decreases components@.len(),
{
    let ghost cs0 = components@;
    let mut components = components;
    if components.len() == 0 {
        return (components, Ok(()));
    }
    let mut first = components.remove(0);
    proof {
        assert(components@ =~= cs0.skip(1));
    }
    let head = first.on_agreement_approved(agreement_id);
    let (mut rest, tail) = run_approved(components, agreement_id);
    let ghost stepped = rest@;
    rest.insert(0, first);
    proof {
        assert(rest@ =~= seq![first] + stepped);
        assert(forall|i: int|
            1 <= i < rest@.len() ==> rest@[i] == cs0.skip(1)[i - 1].approved_next(agreement_id@));
        assert(forall|i: int| 1 <= i < rest@.len() ==> cs0.skip(1)[i - 1] == cs0[i]);
    }
    let notified = match head {
        Ok(_) => tail,
        Err(e) => Err(e),
    };
    (rest, notified)
}

fn run_terminated<C: NegotiatorComponent>(
    components: Vec<C>,
    agreement_id: &str,
    outcome: &AgreementResult,
) -> (notified_all: (Vec<C>, Result<(), NegotiationError>))
    ensures
        notified_all.0@.len() == components@.len(),
        forall|i: int|
            0 <= i < components@.len() ==> notified_all.0@[i] == (
            #[trigger] components@[i]).terminated_next(agreement_id@, *outcome),
        unit_matches_model(
            notified_all.1,
            terminated_round_model(components@, agreement_id@, *outcome),
        ),
    decreases components@.len(),
{
    let ghost cs0 = components@;
    let mut components = components;
    if components.len() == 0 {
        return (components, Ok(()));
    }
    let mut first = components.remove(0);
    proof {
        assert(components@ =~= cs0.skip(1));
    }
    let head = first.on_agreement_terminated(agreement_id, outcome);
    let (mut rest, tail) = run_terminated(components, agreement_id, outcome);
    let ghost stepped = rest@;
    rest.insert(0, first);
    proof {
        assert(rest@ =~= seq![first] + stepped);
        assert(forall|i: int|
            1 <= i < rest@.len() ==> rest@[i] == cs0.skip(1)[i - 1].terminated_next(
                agreement_id@,
                *outcome,
            ));
        assert(forall|i: int| 1 <= i < rest@.len() ==> cs0.skip(1)[i - 1] == cs0[i]);
    }
    let notified = match head {
        Ok(_) => tail,
        Err(e) => Err(e),
    };
    (rest, notified)
}

/// The Offer as it stands when component `n` is reached, assuming every
/// earlier component accepted: the fold of the first `n` components'
/// Offer mutations, applied in configured order.
pub open spec fn offer_after<C: NegotiatorComponent>(
    components: Seq<C>,
    config: GlobalsState,
    demand: Map<Seq<char>, ValueV>,
    offer: Map<Seq<char>, ValueV>,
    n: int,
) -> Map<Seq<char>, ValueV>
    decreases n,
{
    if n <= 0 {
        offer
    } else {
        let prev = offer_after(components, config, demand, offer, n - 1);
        match components[n - 1].step_model(config, demand, prev) {
            StepModel::Ready { offer: next_offer } => next_offer,
            _ => prev,
        }
    }
}

proof fn lemma_offer_after_shift<C: NegotiatorComponent>(
    components: Seq<C>,
    config: GlobalsState,
    demand: Map<Seq<char>, ValueV>,
    offer: Map<Seq<char>, ValueV>,
    n: int,
)
    requires
        0 <= n,
        n + 1 <= components.len(),
        components[0].step_model(config, demand, offer) is Ready,
    ensures
        offer_after(
            components.skip(1),
            config,
            demand,
            components[0].step_model(config, demand, offer)->Ready_offer,
            n,
        ) == offer_after(components, config, demand, offer, n + 1),
    decreases n,
{
    let next = components[0].step_model(config, demand, offer)->Ready_offer;
    let rest = components.skip(1);
    if n == 0 {
        assert(offer_after(rest, config, demand, next, 0) == next);
        assert(offer_after(components, config, demand, offer, 0) == offer);
        assert(offer_after(components, config, demand, offer, 1) == next);
    } else {
        lemma_offer_after_shift(components, config, demand, offer, n - 1);
        assert(rest[n - 1] == components[n]);
        assert(offer_after(rest, config, demand, next, n) == (match components[n].step_model(
            config,
            demand,
            offer_after(rest, config, demand, next, n - 1),
        ) {
            StepModel::Ready { offer: next_offer } => next_offer,
            _ => offer_after(rest, config, demand, next, n - 1),
        }));
        assert(offer_after(components, config, demand, offer, n + 1) == (
        match components[n].step_model(
            config,
            demand,
            offer_after(components, config, demand, offer, n),
        ) {
            StepModel::Ready { offer: next_offer } => next_offer,
            _ => offer_after(components, config, demand, offer, n),
        }));
    }
}

/// Law: a rejection short-circuits the round.
///
/// If every component before `i` accepts the Offer as folded so far and
/// component `i` rejects, then the round's result equals exactly that
/// rejection, and no component after `i` is ever invoked: each keeps the
/// state it had when the round began.
pub proof fn lemma_reject_short_circuits<C: NegotiatorComponent>(
    components: Seq<C>,
    config: GlobalsState,
    demand: Map<Seq<char>, ValueV>,
    offer: Map<Seq<char>, ValueV>,
    i: int,
)
    requires
        0 <= i < components.len(),
        forall|j: int|
            0 <= j < i ==> (#[trigger] components[j]).step_model(
                config,
                demand,
                offer_after(components, config, demand, offer, j),
            ) is Ready,
        components[i].step_model(
            config,
            demand,
            offer_after(components, config, demand, offer, i),
        ) is Reject,
    ensures
        round_model(components, config, demand, offer) == components[i].step_model(
            config,
            demand,
            offer_after(components, config, demand, offer, i),
        ),
        round_final(components, config, demand, offer).len() == components.len(),
        forall|j: int|
            i < j < components.len() ==> round_final(components, config, demand, offer)[j]
                == components[j],
    decreases i,
{
    lemma_round_final_len(components, config, demand, offer);
    if i == 0 {
        assert(offer_after(components, config, demand, offer, 0) == offer);
        assert(round_final(components, config, demand, offer) == seq![
            components[0].step_next(config, demand, offer),
        ] + components.skip(1));
        assert(forall|j: int|
            0 < j < components.len() ==> round_final(components, config, demand, offer)[j]
                == components[j]);
    } else {
        assert(components[0].step_model(config, demand, offer) is Ready);
        let next = components[0].step_model(config, demand, offer)->Ready_offer;
        let rest = components.skip(1);
        assert forall|j: int| 0 <= j < i - 1 implies (#[trigger] rest[j]).step_model(
            config,
            demand,
            offer_after(rest, config, demand, next, j),
        ) is Ready by {
            lemma_offer_after_shift(components, config, demand, offer, j);
            assert(rest[j] == components[j + 1]);
        }
        lemma_offer_after_shift(components, config, demand, offer, i - 1);
        assert(rest[i - 1] == components[i]);
        lemma_reject_short_circuits(rest, config, demand, next, i - 1);
        assert(round_model(components, config, demand, offer) == round_model(
            rest,
            config,
            demand,
            next,
        ));
        let stepped = components[0].step_next(config, demand, offer);
        assert(round_final(components, config, demand, offer) == seq![stepped] + round_final(
            rest,
            config,
            demand,
            next,
        ));
        assert forall|j: int| i < j < components.len() implies round_final(
            components,
            config,
            demand,
            offer,
        )[j] == components[j] by {
            assert(round_final(components, config, demand, offer)[j] == round_final(
                rest,
                config,
                demand,
                next,
            )[j - 1]);
            assert(round_final(rest, config, demand, next)[j - 1] == rest[j - 1]);
            assert(rest[j - 1] == components[j]);
        }
    }
}

proof fn lemma_round_final_len<C: NegotiatorComponent>(
    components: Seq<C>,
    config: GlobalsState,
    demand: Map<Seq<char>, ValueV>,
    offer: Map<Seq<char>, ValueV>,
)
    ensures
        round_final(components, config, demand, offer).len() == components.len(),
    decreases components.len(),
{
    if components.len() > 0 {
        match components[0].step_model(config, demand, offer) {
            StepModel::Ready { offer: next_offer } => {
                lemma_round_final_len(components.skip(1), config, demand, next_offer);
            },
            _ => {},
        }
    }
}

/// Law: a round that reaches the end of the component list without
/// rejection or fault ends `Ready`, with an Offer equal to the fold of
/// every component's mutation applied in configured order.
pub proof fn lemma_full_round_folds<C: NegotiatorComponent>(
    components: Seq<C>,
    config: GlobalsState,
    demand: Map<Seq<char>, ValueV>,
    offer: Map<Seq<char>, ValueV>,
)
    requires
        forall|j: int|
            0 <= j < components.len() ==> (#[trigger] components[j]).step_model(
                config,
                demand,
                offer_after(components, config, demand, offer, j),
            ) is Ready,
    ensures
        round_model(components, config, demand, offer) == (StepModel::Ready {
            offer: offer_after(components, config, demand, offer, components.len() as int),
        }),
    decreases components.len(),
{
    if components.len() > 0 {
        assert(components[0].step_model(config, demand, offer) is Ready);
        let next = components[0].step_model(config, demand, offer)->Ready_offer;
        let rest = components.skip(1);
        assert forall|j: int| 0 <= j < rest.len() implies (#[trigger] rest[j]).step_model(
            config,
            demand,
            offer_after(rest, config, demand, next, j),
        ) is Ready by {
            lemma_offer_after_shift(components, config, demand, offer, j);
            assert(rest[j] == components[j + 1]);
        }
        lemma_full_round_folds(rest, config, demand, next);
        lemma_offer_after_shift(components, config, demand, offer, rest.len() as int);
    }
}

/// The Pipeline Composer: owns an ordered list of negotiation policies
/// and evaluates them strictly sequentially, in the fixed configured
/// order, over one negotiation round at a time.
pub struct Pipeline<C: NegotiatorComponent> {
    /// The policies, in evaluation order. Ordering is significant and
    /// caller-specified; the composer never reorders or parallelises.
    pub components: Vec<C>,
}

impl<C: NegotiatorComponent> Pipeline<C> {
    pub fn new(components: Vec<C>) -> (pipeline: Pipeline<C>)
        ensures
            pipeline.components@ == components@,
    {
        Pipeline { components }
    }

    /// One negotiation round: starting from the given Offer, invoke each
    /// component's `negotiate_step` in order, folding each accepted
    /// component's Offer mutation into the next call. The first `Reject`
    /// is the round's result and no later component is invoked; a hard
    /// fault aborts the round without a terminal negotiation result; if
    /// every component accepts, the round is `Ready` with the fully
    /// folded Offer.
    pub fn negotiate_round(
        &mut self,
        store: &ConfigStore,
        demand: &ProposalView,
        offer: ProposalView,
    ) -> (outcome: Result<NegotiationResult, NegotiationError>)
        requires
            forall|i: int|
                0 <= i < old(self).components@.len() ==> (#[trigger] old(
                    self,
                ).components@[i]).step_ok(store.snapshot()),
        ensures
            final(self).components@ == round_final(
                old(self).components@,
                store.snapshot(),
                demand@,
                offer@,
            ),
            step_matches_model(
                outcome,
                round_model(old(self).components@, store.snapshot(), demand@, offer@),
            ),
    {
        let mut taken: Vec<C> = Vec::new();
        core::mem::swap(&mut taken, &mut self.components);
        let (finished, outcome) = run_round(taken, store, demand, offer);
        self.components = finished;
        outcome
    }

    /// The Template Filler: folds every component's `fill_template` over
    /// the given template, in the same fixed order as negotiation. Any
    /// component's error aborts template construction; no partial
    /// template is published.
    pub fn fill_template(&mut self, store: &ConfigStore, template: OfferDefinition) -> (filled:
        Result<OfferDefinition, NegotiationError>)
        requires
            forall|i: int|
                0 <= i < old(self).components@.len() ==> (#[trigger] old(
                    self,
                ).components@[i]).fill_ok(store.snapshot()),
        ensures
            final(self).components@ == fill_round_final(
                old(self).components@,
                store.snapshot(),
                template@,
            ),
            (match filled {
                Ok(t) => fill_round_model(old(self).components@, store.snapshot(), template@)
                    == Ok::<Map<Seq<char>, ValueV>, NegotiationErrorV>(t@),
                Err(e) => fill_round_model(old(self).components@, store.snapshot(), template@)
                    == Err::<Map<Seq<char>, ValueV>, NegotiationErrorV>(e@),
            }),
    {
        let mut taken: Vec<C> = Vec::new();
        core::mem::swap(&mut taken, &mut self.components);
        let (finished, filled) = run_fill(taken, store, template);
        self.components = finished;
        filled
    }

    /// Delivers the Agreement-approved notification to every component,
    /// in order. A fault does not keep later components from being
    /// notified; the first fault, if any, is reported.
    pub fn on_agreement_approved(&mut self, agreement_id: &str) -> (notified: Result<
        (),
        NegotiationError,
    >)
        ensures
            final(self).components@.len() == old(self).components@.len(),
            forall|i: int|
                0 <= i < old(self).components@.len() ==> final(self).components@[i] == (
                #[trigger] old(self).components@[i]).approved_next(agreement_id@),
            unit_matches_model(
                notified,
                approved_round_model(old(self).components@, agreement_id@),
            ),
    {
        let mut taken: Vec<C> = Vec::new();
        core::mem::swap(&mut taken, &mut self.components);
        let (finished, notified) = run_approved(taken, agreement_id);
        self.components = finished;
        notified
    }

    /// Delivers the Agreement-terminated notification, with the
    /// Agreement's outcome, to every component, in order. A fault does
    /// not keep later components from being notified; the first fault,
    /// if any, is reported.
    pub fn on_agreement_terminated(
        &mut self,
        agreement_id: &str,
        outcome: &AgreementResult,
    ) -> (notified: Result<(), NegotiationError>)
        ensures
            final(self).components@.len() == old(self).components@.len(),
            forall|i: int|
                0 <= i < old(self).components@.len() ==> final(self).components@[i] == (
                #[trigger] old(self).components@[i]).terminated_next(agreement_id@, *outcome),
            unit_matches_model(
                notified,
                terminated_round_model(old(self).components@, agreement_id@, *outcome),
            ),
    {
        let mut taken: Vec<C> = Vec::new();
        core::mem::swap(&mut taken, &mut self.components);
        let (finished, notified) = run_terminated(taken, agreement_id, outcome);
        self.components = finished;
        notified
    }
}

} // verus!

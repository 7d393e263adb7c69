use vstd::prelude::*;

use crate::config::{ConfigStore, GlobalsState};
use crate::document::{OfferDefinition, ProposalView, ValueV};

verus! {

/// A hard negotiation fault: not a business-level rejection but a reason
/// to abort the whole round, surfaced as-is to the caller.
#[derive(Debug, PartialEq, Eq)]
pub enum NegotiationError {
    /// The counterpart set the property at `path` with the wrong type,
    /// which signals malformed counterpart data.
    MalformedProperty { path: String },
}

/// The mathematical shape of a [`NegotiationError`].
pub enum NegotiationErrorV {
    MalformedProperty { path: Seq<char> },
}

impl View for NegotiationError {
    type V = NegotiationErrorV;

    open spec fn view(&self) -> NegotiationErrorV {
        match self {
            NegotiationError::MalformedProperty { path } => NegotiationErrorV::MalformedProperty {
                path: path@,
            },
        }
    }
}

/// The closed set of outcomes a single policy can produce for one
/// negotiation step.
#[derive(Debug)]
pub enum NegotiationResult {
    /// Continue with this Offer, returned unchanged or amended.
    Ready { offer: ProposalView },
    /// Refuse. `is_final` tells whether retrying later could change the
    /// outcome: `true` means the counterpart cannot satisfy the policy
    /// regardless of retries, `false` means conditions may change.
    Reject { message: String, is_final: bool },
}

/// The mathematical shape of one step's outcome. A business rejection and
/// a hard fault stay distinct channels; they are never unified.
pub enum StepModel {
    Ready { offer: Map<Seq<char>, ValueV> },
    Reject { message: Seq<char>, is_final: bool },
    Fault { error: NegotiationErrorV },
}

/// Whether the outcome `decision` of an executed step is the one the model
/// `m` describes.
pub open spec fn step_matches_model(
    decision: Result<NegotiationResult, NegotiationError>,
    m: StepModel,
) -> bool {
    match decision {
        Ok(NegotiationResult::Ready { offer }) => m == (StepModel::Ready { offer: offer@ }),
        Ok(NegotiationResult::Reject { message, is_final }) => m == (StepModel::Reject {
            message: message@,
            is_final,
        }),
        Err(e) => m == (StepModel::Fault { error: e@ }),
    }
}

/// Whether the outcome `notified` of a lifecycle notification is the one
/// the model `m` describes.
pub open spec fn unit_matches_model(
    notified: Result<(), NegotiationError>,
    m: Result<(), NegotiationErrorV>,
) -> bool {
    match notified {
        Ok(_) => m == Ok::<(), NegotiationErrorV>(()),
        Err(e) => m == Err::<(), NegotiationErrorV>(e@),
    }
}

/// How a previously reached Agreement ended.
#[derive(Clone, Copy, Debug, PartialEq, Eq, Structural)]
pub enum AgreementResult {
    Fulfilled,
    Broken,
    Cancelled,
}

/// The Negotiator Component Contract: the interface every pluggable
/// negotiation policy implements.
///
/// A component states its behaviour with spec functions: what one step
/// decides ([`step_model`](Self::step_model)) and does to its private state
/// ([`step_next`](Self::step_next)), and likewise for template filling.
/// Each step is thereby a pure function of the counterpart's Demand, this
/// side's Offer, the current shared-configuration snapshot and the
/// component's private state — no side channels.
pub trait NegotiatorComponent: Sized {
    /// What the per-step decision demands of the configuration snapshot.
    /// A snapshot that misses a field the policy requires is a deployment
    /// fault, refused up front rather than guessed around.
    spec fn step_ok(self, config: GlobalsState) -> bool;

    /// The component's private state after one negotiation step.
    spec fn step_next(
        self,
        config: GlobalsState,
        demand: Map<Seq<char>, ValueV>,
        offer: Map<Seq<char>, ValueV>,
    ) -> Self;

    /// The decision one negotiation step produces.
    spec fn step_model(
        self,
        config: GlobalsState,
        demand: Map<Seq<char>, ValueV>,
        offer: Map<Seq<char>, ValueV>,
    ) -> StepModel;

    /// What template filling demands of the configuration snapshot.
    spec fn fill_ok(self, config: GlobalsState) -> bool;

    /// The component's private state after one template fill.
    spec fn fill_next(self, config: GlobalsState, template: Map<Seq<char>, ValueV>) -> Self;

    /// The template one fill produces, or the error that aborts Offer
    /// construction.
    spec fn fill_model(self, config: GlobalsState, template: Map<Seq<char>, ValueV>) -> Result<
        Map<Seq<char>, ValueV>,
        NegotiationErrorV,
    >;

    /// The component's private state after an approval notification.
    spec fn approved_next(self, agreement_id: Seq<char>) -> Self;

    /// The bookkeeping outcome of an approval notification.
    spec fn approved_model(self, agreement_id: Seq<char>) -> Result<(), NegotiationErrorV>;

    /// The component's private state after a termination notification.
    spec fn terminated_next(self, agreement_id: Seq<char>, outcome: AgreementResult) -> Self;

    /// The bookkeeping outcome of a termination notification.
    spec fn terminated_model(self, agreement_id: Seq<char>, outcome: AgreementResult) -> Result<
        (),
        NegotiationErrorV,
    >;

    /// One negotiation step: given the counterpart's Demand and this
    /// side's Offer, accept (`Ready`, with the Offer unchanged or
    /// amended), reject (`Reject`), or abort the round with a hard fault.
    fn negotiate_step(
        &mut self,
        store: &ConfigStore,
        demand: &ProposalView,
        offer: ProposalView,
    ) -> (decision: Result<NegotiationResult, NegotiationError>)
        requires
            old(self).step_ok(store.snapshot()),
        ensures
            *final(self) == old(self).step_next(store.snapshot(), demand@, offer@),
            step_matches_model(decision, old(self).step_model(store.snapshot(), demand@, offer@)),
    ;

    /// Offer-template enrichment: optionally add or overwrite properties
    /// of the in-progress Offer template. An error aborts Offer
    /// construction entirely.
    fn fill_template(&mut self, store: &ConfigStore, template: OfferDefinition) -> (filled: Result<
        OfferDefinition,
        NegotiationError,
    >)
        requires
            old(self).fill_ok(store.snapshot()),
        ensures
            *final(self) == old(self).fill_next(store.snapshot(), template@),
            (match filled {
                Ok(t) => old(self).fill_model(store.snapshot(), template@) == Ok::<
                    Map<Seq<char>, ValueV>,
                    NegotiationErrorV,
                >(t@),
                Err(e) => old(self).fill_model(store.snapshot(), template@) == Err::<
                    Map<Seq<char>, ValueV>,
                    NegotiationErrorV,
                >(e@),
            }),
    ;

    /// Notification that negotiation concluded in an Agreement. Used for
    /// bookkeeping, never for negotiation decisions.
    fn on_agreement_approved(&mut self, agreement_id: &str) -> (notified: Result<
        (),
        NegotiationError,
    >)
        ensures
            *final(self) == old(self).approved_next(agreement_id@),
            unit_matches_model(notified, old(self).approved_model(agreement_id@)),
    ;

    /// Notification that an Agreement previously reached has ended,
    /// carrying its outcome. Bookkeeping only.
    fn on_agreement_terminated(
        &mut self,
        agreement_id: &str,
        outcome: &AgreementResult,
    ) -> (notified: Result<(), NegotiationError>)
        ensures
            *final(self) == old(self).terminated_next(agreement_id@, *outcome),
            unit_matches_model(notified, old(self).terminated_model(agreement_id@, *outcome)),
    ;
}

} // verus!

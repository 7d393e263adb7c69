use vstd::prelude::*;

use crate::component::{
    AgreementResult, NegotiationError, NegotiationErrorV, NegotiationResult, NegotiatorComponent,
    StepModel,
};
use crate::config::{ConfigStore, GlobalsState};
use crate::document::{OfferDefinition, PropertyError, ProposalView, Value, ValueV};

verus! {

/// Well-known charity-extension paths. They are part of the wire contract
/// and must match deployed counterparts byte for byte.
pub const CHARITY_WALLET_PROPERTY: &'static str = "golem.com.payment.charity.charity-wallet";

pub const CHARITY_PERCENTAGE_PROPERTY: &'static str =
    "golem.com.payment.charity.charity-percentage";

pub const CHARITY_CONFIRMATION_PROPERTY: &'static str =
    "golem.com.payment.charity.charity-confirmation";

/// The final rejection sent to a counterpart that never declared support
/// for the charity extension.
pub const CHARITY_REJECT_MESSAGE: &'static str = "Charity protocol not recognized";

/// The reference charity policy: an optional protocol extension that,
/// when enabled, donates a configured percentage cut to a configured
/// wallet and insists that the counterpart confirms support.
///
/// The component holds no private state; every decision rests solely on
/// the shared-configuration snapshot read once per call.
pub struct CharityComponent {}

impl CharityComponent {
    pub fn new() -> (component: Result<CharityComponent, NegotiationError>)
        ensures
            component is Ok,
    {
        Ok(CharityComponent {})
    }

    /// Whether the extension is administratively enabled: a configured
    /// percentage of zero disables enforcement and advertising entirely.
    pub open spec fn enabled(config: GlobalsState) -> bool {
        config.charity_percentage matches Some(p) && p != 0
    }

    /// The policy's per-step decision.
    ///
    /// Disabled: accept unconditionally, Offer untouched. Enabled: require
    /// the counterpart's confirmation property to be `true`; an absent or
    /// `false` property is a final rejection (the counterpart's software
    /// does not implement the extension — no value in retrying), and a
    /// property of another type is a hard fault, not a rejection.
    pub open spec fn decision(
        config: GlobalsState,
        demand: Map<Seq<char>, ValueV>,
        offer: Map<Seq<char>, ValueV>,
    ) -> StepModel {
        if !Self::enabled(config) {
            StepModel::Ready { offer }
        } else {
            match confirmation_model(demand) {
                Ok(Some(true)) => StepModel::Ready { offer },
                Ok(_) => StepModel::Reject { message: CHARITY_REJECT_MESSAGE@, is_final: true },
                Err(e) => StepModel::Fault { error: e },
            }
        }
    }

    /// The template the policy's fill produces: untouched while the
    /// extension is disabled, otherwise advertising the configured wallet
    /// and percentage under their well-known paths.
    pub open spec fn filled_template(config: GlobalsState, template: Map<Seq<char>, ValueV>) -> Map<
        Seq<char>,
        ValueV,
    > {
        if !Self::enabled(config) {
            template
        } else {
            template.insert(
                CHARITY_WALLET_PROPERTY@,
                ValueV::Text(config.charity_wallet->Some_0@),
            ).insert(
                CHARITY_PERCENTAGE_PROPERTY@,
                ValueV::Number(config.charity_percentage->Some_0),
            )
        }
    }
}

/// How the counterpart's confirmation property reads: `Some(flag)` when it
/// is a boolean, `None` when the path is absent (the counterpart does not
/// know the extension), an error when it holds another type.
pub open spec fn confirmation_model(demand: Map<Seq<char>, ValueV>) -> Result<
    Option<bool>,
    NegotiationErrorV,
> {
    if !demand.dom().contains(CHARITY_CONFIRMATION_PROPERTY@) {
        Ok(None)
    } else {
        match demand[CHARITY_CONFIRMATION_PROPERTY@] {
            ValueV::Bool(b) => Ok(Some(b)),
            _ => Err(
                NegotiationErrorV::MalformedProperty { path: CHARITY_CONFIRMATION_PROPERTY@ },
            ),
        }
    }
}

/// Reads the counterpart's charity confirmation out of its Demand,
/// keeping "not set" (a soft signal) apart from "set with the wrong type"
/// (a hard fault).
fn extract_charity_confirmation(proposal: &ProposalView) -> (confirmation: Result<
    Option<bool>,
    NegotiationError,
>)
    ensures
        (match confirmation {
            Ok(c) => confirmation_model(proposal@) == Ok::<Option<bool>, NegotiationErrorV>(c),
            Err(e) => confirmation_model(proposal@) == Err::<Option<bool>, NegotiationErrorV>(e@),
        }),
{
    match proposal.get_typed::<bool>(CHARITY_CONFIRMATION_PROPERTY) {
        // The counterpart declared whether it accepts charities.
        Ok(flag) => Ok(Some(flag)),
        // It never set the property, so it cannot accept them.
        Err(PropertyError::NotFound) => Ok(None),
        // The property has an invalid type: the counterpart probably does
        // not understand the specification, so negotiation must not go on.
        Err(PropertyError::TypeMismatch) => Err(
            NegotiationError::MalformedProperty { path: CHARITY_CONFIRMATION_PROPERTY.to_owned() },
        ),
    }
}

impl NegotiatorComponent for CharityComponent {
    open spec fn step_ok(self, config: GlobalsState) -> bool {
        config.charity_percentage is Some
    }

    open spec fn step_next(
        self,
        config: GlobalsState,
        demand: Map<Seq<char>, ValueV>,
        offer: Map<Seq<char>, ValueV>,
    ) -> CharityComponent {
        self
    }

    open spec fn step_model(
        self,
        config: GlobalsState,
        demand: Map<Seq<char>, ValueV>,
        offer: Map<Seq<char>, ValueV>,
    ) -> StepModel {
        Self::decision(config, demand, offer)
    }

    open spec fn fill_ok(self, config: GlobalsState) -> bool {
        config.charity_percentage is Some && (Self::enabled(config)
            ==> config.charity_wallet is Some)
    }

    open spec fn fill_next(
        self,
        config: GlobalsState,
        template: Map<Seq<char>, ValueV>,
    ) -> CharityComponent {
        self
    }

    open spec fn fill_model(self, config: GlobalsState, template: Map<Seq<char>, ValueV>) -> Result<
        Map<Seq<char>, ValueV>,
        NegotiationErrorV,
    > {
        Ok(Self::filled_template(config, template))
    }

    open spec fn approved_next(self, agreement_id: Seq<char>) -> CharityComponent {
        self
    }

    open spec fn approved_model(self, agreement_id: Seq<char>) -> Result<(), NegotiationErrorV> {
        Ok(())
    }

    open spec fn terminated_next(
        self,
        agreement_id: Seq<char>,
        outcome: AgreementResult,
    ) -> CharityComponent {
        self
    }

    open spec fn terminated_model(
        self,
        agreement_id: Seq<char>,
        outcome: AgreementResult,
    ) -> Result<(), NegotiationErrorV> {
        Ok(())
    }

    fn negotiate_step(
        &mut self,
        store: &ConfigStore,
        demand: &ProposalView,
        offer: ProposalView,
    ) -> (decision: Result<NegotiationResult, NegotiationError>) {
        let state_read = store.read();
        if state_read.charity_percentage.unwrap() == 0 {
            return Ok(NegotiationResult::Ready { offer });
        }
        let charity_confirmation = extract_charity_confirmation(demand)?;

        let confirmation = match charity_confirmation {
            Some(flag) => flag,
            None => false,
        };

        // The counterpart does not understand the charity extension.
        if !confirmation {
            return Ok(NegotiationResult::Reject {
                message: CHARITY_REJECT_MESSAGE.to_owned(),
                is_final: true,
            });
        }

        Ok(NegotiationResult::Ready { offer })
    }

    fn fill_template(&mut self, store: &ConfigStore, template: OfferDefinition) -> (filled: Result<
        OfferDefinition,
        NegotiationError,
    >) {
        let state_read = store.read();
        let mut template = template;

        if state_read.charity_percentage.unwrap() == 0 {
            return Ok(template);
        }

        template.offer.set_property(
            CHARITY_WALLET_PROPERTY,
            Value::Text(state_read.charity_wallet.unwrap()),
        );

        template.offer.set_property(
            CHARITY_PERCENTAGE_PROPERTY,
            Value::Number(state_read.charity_percentage.unwrap()),
        );

        Ok(template)
    }

    fn on_agreement_terminated(
        &mut self,
        agreement_id: &str,
        outcome: &AgreementResult,
    ) -> (notified: Result<(), NegotiationError>) {
        Ok(())
    }

    fn on_agreement_approved(&mut self, agreement_id: &str) -> (notified: Result<
        (),
        NegotiationError,
    >) {
        Ok(())
    }
}

/// Law: template filling is idempotent for the charity policy. Filling
/// leaves the component's state untouched, so a second fill with the same
/// input template and the same Shared Configuration State snapshot yields
/// the identical output template.
pub proof fn lemma_fill_template_idempotent(
    component: CharityComponent,
    config: GlobalsState,
    template: Map<Seq<char>, ValueV>,
)
    ensures
        component.fill_next(config, template) == component,
        component.fill_next(config, template).fill_model(config, template) == component.fill_model(
            config,
            template,
        ),
{
}

} // verus!

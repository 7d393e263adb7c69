use negotiator::charity::{
    CharityComponent, CHARITY_CONFIRMATION_PROPERTY, CHARITY_PERCENTAGE_PROPERTY,
    CHARITY_WALLET_PROPERTY,
};
use negotiator::component::{AgreementResult, NegotiationError, NegotiationResult, NegotiatorComponent};
use negotiator::config::{ConfigStore, GlobalsState};
use negotiator::document::{OfferDefinition, PropertyError, ProposalView, Value};
use negotiator::pipeline::Pipeline;

fn store_with(percentage: Option<i64>, wallet: Option<&str>) -> ConfigStore {
    ConfigStore::new(GlobalsState {
        charity_wallet: wallet.map(|w| w.to_string()),
        charity_percentage: percentage,
    })
}

fn demand_with_confirmation(value: Value) -> ProposalView {
    let mut demand = ProposalView::new();
    demand.set_property(CHARITY_CONFIRMATION_PROPERTY, value);
    demand
}

#[test]
fn get_typed_absent_path_is_not_found() {
    let doc = ProposalView::new();
    assert_eq!(doc.get_typed::<bool>("golem.com.payment.x"), Err(PropertyError::NotFound));
}

#[test]
fn get_typed_wrong_type_is_type_mismatch() {
    let mut doc = ProposalView::new();
    doc.set_property("flag", Value::Text("yes".to_string()));
    assert_eq!(doc.get_typed::<bool>("flag"), Err(PropertyError::TypeMismatch));
}

#[test]
fn get_typed_present_bool_is_returned() {
    let mut doc = ProposalView::new();
    doc.set_property("flag", Value::Bool(true));
    assert_eq!(doc.get_typed::<bool>("flag"), Ok(true));
}

#[test]
fn get_typed_number_and_text() {
    let mut doc = ProposalView::new();
    doc.set_property("cut", Value::Number(500));
    doc.set_property("wallet", Value::Text("0xwallet".to_string()));
    assert_eq!(doc.get_typed::<i64>("cut"), Ok(500));
    assert_eq!(doc.get_typed::<String>("wallet"), Ok("0xwallet".to_string()));
    assert_eq!(doc.get_typed::<i64>("wallet"), Err(PropertyError::TypeMismatch));
}

#[test]
fn set_property_overwrites_in_place() {
    let mut doc = ProposalView::new();
    doc.set_property("cut", Value::Number(100));
    doc.set_property("cut", Value::Number(200));
    assert_eq!(doc.entry_count(), 1);
    assert_eq!(doc.get_typed::<i64>("cut"), Ok(200));
}

#[test]
fn config_store_read_and_replace() {
    let mut store = store_with(Some(500), Some("0xwallet"));
    let snapshot = store.read();
    assert_eq!(snapshot.charity_percentage, Some(500));
    assert_eq!(snapshot.charity_wallet.as_deref(), Some("0xwallet"));
    store.replace(GlobalsState { charity_wallet: None, charity_percentage: Some(0) });
    let snapshot = store.read();
    assert_eq!(snapshot.charity_percentage, Some(0));
    assert_eq!(snapshot.charity_wallet, None);
    // the first snapshot was an owned copy, untouched by the replace
}

#[test]
fn disabled_extension_fills_nothing() {
    let store = store_with(Some(0), Some("0xwallet"));
    let mut component = CharityComponent::new().unwrap();
    let template = OfferDefinition::new();
    let filled = component.fill_template(&store, template).unwrap();
    assert_eq!(filled.offer.entry_count(), 0);
    assert_eq!(
        filled.offer.get_typed::<String>(CHARITY_WALLET_PROPERTY),
        Err(PropertyError::NotFound)
    );
}

#[test]
fn disabled_extension_always_ready() {
    let store = store_with(Some(0), None);
    let mut component = CharityComponent::new().unwrap();
    // whatever the demand's confirmation property says, even a malformed one
    for demand in [
        ProposalView::new(),
        demand_with_confirmation(Value::Bool(false)),
        demand_with_confirmation(Value::Number(7)),
    ] {
        let mut offer = ProposalView::new();
        offer.set_property("golem.node.id.name", Value::Text("provider".to_string()));
        let decision = component.negotiate_step(&store, &demand, offer).unwrap();
        match decision {
            NegotiationResult::Ready { offer } => {
                assert_eq!(offer.entry_count(), 1);
                assert_eq!(
                    offer.get_typed::<String>("golem.node.id.name"),
                    Ok("provider".to_string())
                );
            }
            NegotiationResult::Reject { .. } => panic!("disabled policy must accept"),
        }
    }
}

#[test]
fn enabled_unconfirmed_is_final_rejection() {
    let store = store_with(Some(500), Some("0xwallet"));
    let mut component = CharityComponent::new().unwrap();
    let demand = ProposalView::new();
    let decision = component.negotiate_step(&store, &demand, ProposalView::new()).unwrap();
    match decision {
        NegotiationResult::Reject { message, is_final } => {
            assert!(is_final);
            assert_eq!(message, "Charity protocol not recognized");
        }
        NegotiationResult::Ready { .. } => panic!("must reject an unconfirmed counterpart"),
    }
}

#[test]
fn enabled_false_confirmation_is_final_rejection() {
    let store = store_with(Some(500), Some("0xwallet"));
    let mut component = CharityComponent::new().unwrap();
    let demand = demand_with_confirmation(Value::Bool(false));
    let decision = component.negotiate_step(&store, &demand, ProposalView::new()).unwrap();
    match decision {
        NegotiationResult::Reject { is_final, .. } => assert!(is_final),
        NegotiationResult::Ready { .. } => panic!("must reject a refusing counterpart"),
    }
}

#[test]
fn enabled_confirmed_is_ready_with_untouched_offer() {
    let store = store_with(Some(500), Some("0xwallet"));
    let mut component = CharityComponent::new().unwrap();
    let demand = demand_with_confirmation(Value::Bool(true));
    let mut offer = ProposalView::new();
    offer.set_property("golem.node.id.name", Value::Text("provider".to_string()));
    let decision = component.negotiate_step(&store, &demand, offer).unwrap();
    match decision {
        NegotiationResult::Ready { offer } => {
            assert_eq!(offer.entry_count(), 1);
            assert_eq!(
                offer.get_typed::<String>("golem.node.id.name"),
                Ok("provider".to_string())
            );
        }
        NegotiationResult::Reject { .. } => panic!("must accept a confirmed counterpart"),
    }
}

#[test]
fn malformed_confirmation_is_an_error_not_a_rejection() {
    let store = store_with(Some(500), Some("0xwallet"));
    let mut component = CharityComponent::new().unwrap();
    let demand = demand_with_confirmation(Value::Number(1));
    let outcome = component.negotiate_step(&store, &demand, ProposalView::new());
    assert_eq!(
        outcome.unwrap_err(),
        NegotiationError::MalformedProperty { path: CHARITY_CONFIRMATION_PROPERTY.to_string() }
    );
}

#[test]
fn enabled_fill_advertises_wallet_and_percentage() {
    let store = store_with(Some(500), Some("0xwallet"));
    let mut component = CharityComponent::new().unwrap();
    let filled = component.fill_template(&store, OfferDefinition::new()).unwrap();
    assert_eq!(
        filled.offer.get_typed::<String>(CHARITY_WALLET_PROPERTY),
        Ok("0xwallet".to_string())
    );
    assert_eq!(filled.offer.get_typed::<i64>(CHARITY_PERCENTAGE_PROPERTY), Ok(500));
    assert_eq!(filled.offer.entry_count(), 2);
}

#[test]
fn fill_twice_yields_identical_templates() {
    let store = store_with(Some(250), Some("0xwallet"));
    let mut component = CharityComponent::new().unwrap();
    let first = component.fill_template(&store, OfferDefinition::new()).unwrap();
    let second = component.fill_template(&store, OfferDefinition::new()).unwrap();
    assert_eq!(first.offer.entry_count(), second.offer.entry_count());
    assert_eq!(
        first.offer.get_typed::<String>(CHARITY_WALLET_PROPERTY),
        second.offer.get_typed::<String>(CHARITY_WALLET_PROPERTY)
    );
    assert_eq!(
        first.offer.get_typed::<i64>(CHARITY_PERCENTAGE_PROPERTY),
        second.offer.get_typed::<i64>(CHARITY_PERCENTAGE_PROPERTY)
    );
}

#[test]
fn pipeline_rejection_short_circuits_the_round() {
    let store = store_with(Some(500), Some("0xwallet"));
    let mut pipeline = Pipeline::new(vec![
        CharityComponent::new().unwrap(),
        CharityComponent::new().unwrap(),
    ]);
    let demand = ProposalView::new();
    let outcome = pipeline.negotiate_round(&store, &demand, ProposalView::new()).unwrap();
    match outcome {
        NegotiationResult::Reject { message, is_final } => {
            assert!(is_final);
            assert_eq!(message, "Charity protocol not recognized");
        }
        NegotiationResult::Ready { .. } => panic!("the first rejection must end the round"),
    }
}

#[test]
fn pipeline_all_ready_folds_the_offer_through() {
    let store = store_with(Some(500), Some("0xwallet"));
    let mut pipeline = Pipeline::new(vec![
        CharityComponent::new().unwrap(),
        CharityComponent::new().unwrap(),
    ]);
    let demand = demand_with_confirmation(Value::Bool(true));
    let mut offer = ProposalView::new();
    offer.set_property("golem.node.id.name", Value::Text("provider".to_string()));
    let outcome = pipeline.negotiate_round(&store, &demand, offer).unwrap();
    match outcome {
        NegotiationResult::Ready { offer } => {
            assert_eq!(offer.entry_count(), 1);
        }
        NegotiationResult::Reject { .. } => panic!("every component accepts here"),
    }
}

#[test]
fn pipeline_fault_aborts_the_round() {
    let store = store_with(Some(500), Some("0xwallet"));
    let mut pipeline = Pipeline::new(vec![CharityComponent::new().unwrap()]);
    let demand = demand_with_confirmation(Value::Text("yes".to_string()));
    let outcome = pipeline.negotiate_round(&store, &demand, ProposalView::new());
    assert_eq!(
        outcome.unwrap_err(),
        NegotiationError::MalformedProperty { path: CHARITY_CONFIRMATION_PROPERTY.to_string() }
    );
}

#[test]
fn empty_pipeline_round_is_ready() {
    let store = store_with(None, None);
    let mut pipeline: Pipeline<CharityComponent> = Pipeline::new(Vec::new());
    let outcome = pipeline.negotiate_round(&store, &ProposalView::new(), ProposalView::new());
    match outcome.unwrap() {
        NegotiationResult::Ready { offer } => assert_eq!(offer.entry_count(), 0),
        NegotiationResult::Reject { .. } => panic!("an empty round accepts"),
    }
}

#[test]
fn pipeline_fill_template_folds_every_component() {
    let store = store_with(Some(500), Some("0xwallet"));
    let mut pipeline = Pipeline::new(vec![
        CharityComponent::new().unwrap(),
        CharityComponent::new().unwrap(),
    ]);
    let filled = pipeline.fill_template(&store, OfferDefinition::new()).unwrap();
    assert_eq!(filled.offer.entry_count(), 2);
    assert_eq!(filled.offer.get_typed::<i64>(CHARITY_PERCENTAGE_PROPERTY), Ok(500));
}

#[test]
fn lifecycle_notifications_are_accepted() {
    let mut component = CharityComponent::new().unwrap();
    assert!(component.on_agreement_approved("agreement-1").is_ok());
    assert!(component
        .on_agreement_terminated("agreement-1", &AgreementResult::Fulfilled)
        .is_ok());
}

#[test]
fn pipeline_lifecycle_notifies_every_component() {
    let mut pipeline = Pipeline::new(vec![
        CharityComponent::new().unwrap(),
        CharityComponent::new().unwrap(),
    ]);
    assert!(pipeline.on_agreement_approved("agreement-1").is_ok());
    assert!(pipeline
        .on_agreement_terminated("agreement-1", &AgreementResult::Broken)
        .is_ok());
}

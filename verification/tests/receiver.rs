use workshop::component::BicycleComponent;
use workshop::decision::{Continuation, Decision, Directive, Outcome, Timing};
use workshop::error::WorkshopError;
use workshop::whitelist::TrustedRegistries;
use workshop::workshop::Workshop;

const REGISTRY: &str = "nft.registry";

fn trusting(identities: &[&str]) -> Workshop {
    Workshop::new(identities.iter().map(|identity| identity.to_string()).collect())
}

fn held(workshop: &Workshop, owner: &str, slot: BicycleComponent) -> Option<String> {
    workshop.crafting_table(owner).and_then(|table| table.slot(slot).cloned())
}

#[test]
fn trusted_registries_keep_their_order() {
    let trusted = TrustedRegistries::new(vec![
        "b.registry".to_string(),
        "a.registry".to_string(),
        "b.registry".to_string(),
    ]);
    assert_eq!(trusted.len(), 3);
    assert_eq!(trusted.get(0), Some(&"b.registry".to_string()));
    assert_eq!(trusted.get(1), Some(&"a.registry".to_string()));
    assert_eq!(trusted.get(2), Some(&"b.registry".to_string()));
    assert_eq!(trusted.get(3), None);
}

#[test]
fn membership_is_exact_and_case_sensitive() {
    let trusted = TrustedRegistries::new(vec!["nft.registry".to_string(), "other".to_string()]);
    assert!(trusted.contains("nft.registry"));
    assert!(trusted.contains("other"));
    assert!(!trusted.contains("NFT.registry"));
    assert!(!trusted.contains("nft.registr"));
    assert!(!trusted.contains("nft.registry "));
    assert!(!trusted.contains(""));
}

#[test]
fn authorize_admits_only_trusted_callers() {
    let workshop = trusting(&[REGISTRY]);
    assert_eq!(workshop.authorize(REGISTRY), Ok(()));
    assert_eq!(workshop.authorize("alice"), Err(WorkshopError::Unauthorized));
    assert_eq!(workshop.authorize("Nft.Registry"), Err(WorkshopError::Unauthorized));
}

#[test]
fn nobody_is_trusted_by_an_empty_list() {
    let workshop = trusting(&[]);
    assert_eq!(workshop.authorize(REGISTRY), Err(WorkshopError::Unauthorized));
    assert_eq!(workshop.authorize(""), Err(WorkshopError::Unauthorized));
}

#[test]
fn new_workshop_has_no_tables() {
    let workshop = trusting(&[REGISTRY]);
    assert!(workshop.crafting_table("alice").is_none());
    assert_eq!(workshop.component_nft_whitelist().len(), 1);
    assert_eq!(workshop.component_nft_whitelist().get(0), Some(&REGISTRY.to_string()));
    assert!(workshop.crafting_tables_per_owner().get("alice").is_none());
}

#[test]
fn initialize_works_once() {
    let mut state: Option<Workshop> = None;
    assert_eq!(Workshop::initialize(&mut state, vec![REGISTRY.to_string()]), Ok(()));
    let workshop = state.as_ref().expect("the workshop is set up");
    assert_eq!(workshop.authorize(REGISTRY), Ok(()));
    assert!(workshop.crafting_table("alice").is_none());
}

#[test]
fn initialize_fails_the_second_time() {
    let mut state: Option<Workshop> = None;
    assert_eq!(Workshop::initialize(&mut state, vec![REGISTRY.to_string()]), Ok(()));
    state.as_mut().unwrap().merge_slot("alice", "1", BicycleComponent::Frame);

    assert_eq!(
        Workshop::initialize(&mut state, vec!["someone.else".to_string()]),
        Err(WorkshopError::DoubleInitialization)
    );

    let workshop = state.as_ref().unwrap();
    assert_eq!(workshop.authorize(REGISTRY), Ok(()));
    assert_eq!(workshop.authorize("someone.else"), Err(WorkshopError::Unauthorized));
    assert_eq!(held(workshop, "alice", BicycleComponent::Frame), Some("1".to_string()));
}

#[test]
fn keywords_are_read_exactly() {
    assert_eq!(
        Directive::parse("return-it-now"),
        Some(Directive { outcome: Outcome::Return, timing: Timing::Now })
    );
    assert_eq!(
        Directive::parse("return-it-later"),
        Some(Directive { outcome: Outcome::Return, timing: Timing::Later })
    );
    assert_eq!(
        Directive::parse("keep-it-now"),
        Some(Directive { outcome: Outcome::Keep, timing: Timing::Now })
    );
    assert_eq!(
        Directive::parse("keep-it-later"),
        Some(Directive { outcome: Outcome::Keep, timing: Timing::Later })
    );
    assert_eq!(Directive::parse("Keep-it-now"), None);
    assert_eq!(Directive::parse("keep-it-now "), None);
    assert_eq!(Directive::parse("keep it now"), None);
    assert_eq!(Directive::parse("incorrect message"), None);
    assert_eq!(Directive::parse("wheels"), None);
    assert_eq!(Directive::parse(""), None);
}

#[test]
fn outcome_says_whether_the_asset_goes_back() {
    assert!(Outcome::Return.should_return());
    assert!(!Outcome::Keep.should_return());
}

#[test]
fn decide_answers_now_keywords_at_once() {
    assert_eq!(
        Decision::decide("alice", "1", "return-it-now"),
        Ok(Decision::Resolved { return_asset: true })
    );
    assert_eq!(
        Decision::decide("alice", "1", "keep-it-now"),
        Ok(Decision::Resolved { return_asset: false })
    );
}

#[test]
fn decide_defers_later_keywords() {
    assert_eq!(
        Decision::decide("alice", "7", "return-it-later"),
        Ok(Decision::Deferred(Continuation {
            owner: "alice".to_string(),
            asset_id: "7".to_string(),
            requested_outcome: Outcome::Return,
        }))
    );
    assert_eq!(
        Decision::decide("bob", "8", "keep-it-later"),
        Ok(Decision::Deferred(Continuation {
            owner: "bob".to_string(),
            asset_id: "8".to_string(),
            requested_outcome: Outcome::Keep,
        }))
    );
}

#[test]
fn decide_fails_on_every_other_instruction() {
    for instruction in ["", "incorrect message", "wheels", "brakes", "KEEP-IT-NOW", "keep-it"] {
        assert_eq!(
            Decision::decide("alice", "1", instruction),
            Err(WorkshopError::UnrecognizedInstruction)
        );
    }
}

#[test]
fn continuation_resolves_to_what_was_asked_for() {
    let keep = Continuation {
        owner: "alice".to_string(),
        asset_id: "1".to_string(),
        requested_outcome: Outcome::Keep,
    };
    let give_back = Continuation {
        owner: "alice".to_string(),
        asset_id: "1".to_string(),
        requested_outcome: Outcome::Return,
    };
    assert_eq!(keep.clone().resolve(true), Ok(false));
    assert_eq!(give_back.clone().resolve(true), Ok(true));
    assert_eq!(keep.resolve(false), Err(WorkshopError::SubCallFailed));
    assert_eq!(give_back.resolve(false), Err(WorkshopError::SubCallFailed));
}

#[test]
fn settle_ignores_the_sub_call_for_a_resolved_decision() {
    assert_eq!(Decision::Resolved { return_asset: true }.settle(true), Ok(true));
    assert_eq!(Decision::Resolved { return_asset: true }.settle(false), Ok(true));
    assert_eq!(Decision::Resolved { return_asset: false }.settle(true), Ok(false));
    assert_eq!(Decision::Resolved { return_asset: false }.settle(false), Ok(false));
}

#[test]
fn settle_resolves_a_deferred_decision() {
    let deferred = Decision::decide("alice", "1", "keep-it-later").unwrap();
    assert_eq!(deferred.clone().settle(true), Ok(false));
    assert_eq!(deferred.settle(false), Err(WorkshopError::SubCallFailed));
    let deferred = Decision::decide("alice", "1", "return-it-later").unwrap();
    assert_eq!(deferred.clone().settle(true), Ok(true));
    assert_eq!(deferred.settle(false), Err(WorkshopError::SubCallFailed));
}

#[test]
fn notification_from_an_untrusted_caller_fails_and_writes_nothing() {
    let instructions = [
        "wheels",
        "frame",
        "keep-it-now",
        "keep-it-later",
        "return-it-now",
        "return-it-later",
        "incorrect message",
        "",
    ];
    for instruction in instructions {
        let mut workshop = trusting(&[REGISTRY]);
        workshop.merge_slot("alice", "0", BicycleComponent::Saddle);
        let before = trusting(&[REGISTRY]);
        let mut expected = before;
        expected.merge_slot("alice", "0", BicycleComponent::Saddle);

        let answer = workshop.on_transfer_notify("mallory", "alice", "alice", "1", instruction);

        assert_eq!(answer, Err(WorkshopError::Unauthorized));
        assert_eq!(workshop, expected);
    }
}

#[test]
fn the_previous_owner_is_not_the_caller() {
    let mut workshop = trusting(&[REGISTRY]);
    let answer = workshop.on_transfer_notify("alice", "alice", "alice", "1", "keep-it-now");
    assert_eq!(answer, Err(WorkshopError::Unauthorized));
}

#[test]
fn notification_with_a_keyword_writes_no_table() {
    let mut workshop = trusting(&[REGISTRY]);
    assert_eq!(
        workshop.on_transfer_notify(REGISTRY, "alice", "alice", "1", "keep-it-now"),
        Ok(Decision::Resolved { return_asset: false })
    );
    assert_eq!(
        workshop.on_transfer_notify(REGISTRY, "alice", "alice", "1", "return-it-now"),
        Ok(Decision::Resolved { return_asset: true })
    );
    assert_eq!(
        workshop.on_transfer_notify(REGISTRY, "alice", "alice", "1", "keep-it-later"),
        Ok(Decision::Deferred(Continuation {
            owner: "alice".to_string(),
            asset_id: "1".to_string(),
            requested_outcome: Outcome::Keep,
        }))
    );
    assert_eq!(
        workshop.on_transfer_notify(REGISTRY, "alice", "alice", "1", "return-it-later"),
        Ok(Decision::Deferred(Continuation {
            owner: "alice".to_string(),
            asset_id: "1".to_string(),
            requested_outcome: Outcome::Return,
        }))
    );
    assert_eq!(workshop, trusting(&[REGISTRY]));
}

#[test]
fn notification_with_a_slot_name_merges_and_then_fails() {
    let mut workshop = trusting(&[REGISTRY]);
    let answer = workshop.on_transfer_notify(REGISTRY, "carol", "alice", "w-1", "wheels");
    assert_eq!(answer, Err(WorkshopError::UnrecognizedInstruction));
    assert_eq!(held(&workshop, "alice", BicycleComponent::Wheels), Some("w-1".to_string()));
    assert!(workshop.crafting_table("carol").is_none());
    assert_eq!(held(&workshop, "alice", BicycleComponent::Frame), None);
}

#[test]
fn notification_with_an_unknown_instruction_fails_and_writes_nothing() {
    let mut workshop = trusting(&[REGISTRY]);
    let answer = workshop.on_transfer_notify(REGISTRY, "alice", "alice", "4", "incorrect message");
    assert_eq!(answer, Err(WorkshopError::UnrecognizedInstruction));
    assert_eq!(workshop, trusting(&[REGISTRY]));
}

#[test]
fn notifications_are_merged_in_the_order_of_arrival() {
    let mut workshop = trusting(&[REGISTRY, "second.registry"]);
    let _ = workshop.on_transfer_notify(REGISTRY, "alice", "alice", "a", "frame");
    let _ = workshop.on_transfer_notify("second.registry", "alice", "alice", "b", "frame");
    let _ = workshop.on_transfer_notify(REGISTRY, "bob", "bob", "c", "brakes");
    assert_eq!(held(&workshop, "alice", BicycleComponent::Frame), Some("b".to_string()));
    assert_eq!(held(&workshop, "bob", BicycleComponent::Brakes), Some("c".to_string()));
    assert_eq!(held(&workshop, "bob", BicycleComponent::Frame), None);
}

#[test]
fn workshop_merge_slot_is_idempotent() {
    let mut once = trusting(&[REGISTRY]);
    once.merge_slot("alice", "1", BicycleComponent::Transmission);
    let mut twice = trusting(&[REGISTRY]);
    twice.merge_slot("alice", "1", BicycleComponent::Transmission);
    twice.merge_slot("alice", "1", BicycleComponent::Transmission);
    assert_eq!(once, twice);
    assert_eq!(held(&twice, "alice", BicycleComponent::Transmission), Some("1".to_string()));
}

//! The handshake between registry and workshop: what the workshop's
//! invocation comes to, who owns the asset afterwards, and how the registry
//! reports it.

use vstd::prelude::*;

use crate::decision::{directive, lemma_keywords, settled, DecisionView};
use crate::error::WorkshopError;
use crate::workshop::{notified, WorkshopView};

verus! {

/// How a transfer-and-call ended.
#[derive(Clone, Copy, Debug, PartialEq, Eq)]
pub enum Settlement {
    /// The receiver keeps the asset.
    Kept,
    /// The receiver handed the asset back; the previous owner has it again.
    Returned,
    /// The receiver failed; the previous owner has the asset again.
    Reverted(WorkshopError),
}

/// What the receiver's invocation comes to: the final answer of its decision,
/// or the failure with which the notification or the deferred call ended.
pub open spec fn outcome(answer: Result<DecisionView, WorkshopError>, sub_call_succeeded: bool)
    -> Result<bool, WorkshopError> {
    match answer {
        Ok(made) => settled(made, sub_call_succeeded),
        Err(error) => Err(error),
    }
}

/// Who owns the asset once the handshake is over: the receiver if it
/// answered that the asset is not to be returned, the previous owner if it
/// answered that it is, or failed.
pub open spec fn final_owner(
    previous_owner: Seq<char>,
    receiver: Seq<char>,
    outcome: Result<bool, WorkshopError>,
) -> Seq<char> {
    if outcome == Ok::<bool, WorkshopError>(false) {
        receiver
    } else {
        previous_owner
    }
}

/// How the handshake is reported to the one who asked for the transfer.
pub open spec fn settlement(outcome: Result<bool, WorkshopError>) -> Settlement {
    match outcome {
        Ok(false) => Settlement::Kept,
        Ok(true) => Settlement::Returned,
        Err(error) => Settlement::Reverted(error),
    }
}

/// What the receiver's invocation comes to when `registry` notifies
/// `workshop` of an asset of `previous_owner` that arrives with `instruction`.
pub open spec fn handshake(
    workshop: WorkshopView,
    registry: Seq<char>,
    previous_owner: Seq<char>,
    asset_id: Seq<char>,
    instruction: Seq<char>,
    sub_call_succeeded: bool,
) -> Result<bool, WorkshopError> {
    outcome(
        notified(workshop, registry, previous_owner, asset_id, instruction).1,
        sub_call_succeeded,
    )
}

impl Settlement {
    /// Whether the asset is back with its previous owner.
    pub open spec fn back_with_sender(self) -> bool {
        !(self is Kept)
    }

    /// Whether the receiver's invocation failed.
    pub open spec fn receiver_failed(self) -> bool {
        self is Reverted
    }

    /// Whether the asset is back with its previous owner.
    pub fn returned_to_sender(&self) -> (back: bool)
        ensures
            back == self.back_with_sender(),
    {
        match self {
            Settlement::Kept => false,
            Settlement::Returned => true,
            Settlement::Reverted(_) => true,
        }
    }

    /// Whether the receiver's invocation failed.
    pub fn failed(&self) -> (failed: bool)
        ensures
            failed == self.receiver_failed(),
    {
        match self {
            Settlement::Kept => false,
            Settlement::Returned => false,
            Settlement::Reverted(_) => true,
        }
    }
}

/// With a trusted registry, `keep-it-now` leaves the asset with the receiver
/// and `return-it-now` leaves it with the previous owner. Neither waits for a
/// further call, so how such a call would end makes no difference.
pub proof fn lemma_now_keywords(
    workshop: WorkshopView,
    registry: Seq<char>,
    previous_owner: Seq<char>,
    receiver: Seq<char>,
    asset_id: Seq<char>,
    sub_call_succeeded: bool,
)
    requires
        workshop.trusted.contains(registry),
    ensures
        handshake(workshop, registry, previous_owner, asset_id, "keep-it-now"@, sub_call_succeeded)
            == Ok::<bool, WorkshopError>(false),
        final_owner(
            previous_owner,
            receiver,
            handshake(
                workshop,
                registry,
                previous_owner,
                asset_id,
                "keep-it-now"@,
                sub_call_succeeded,
            ),
        ) == receiver,
        handshake(
            workshop,
            registry,
            previous_owner,
            asset_id,
            "return-it-now"@,
            sub_call_succeeded,
        ) == Ok::<bool, WorkshopError>(true),
        final_owner(
            previous_owner,
            receiver,
            handshake(
                workshop,
                registry,
                previous_owner,
                asset_id,
                "return-it-now"@,
                sub_call_succeeded,
            ),
        ) == previous_owner,
{
    lemma_keywords();
}

/// With a trusted registry, `return-it-later` leaves the asset with the
/// previous owner however the awaited call ends, and `keep-it-later` leaves
/// it with the receiver once that call has succeeded. Where the call
/// succeeds, each "later" keyword comes to the same answer as its "now"
/// counterpart.
pub proof fn lemma_later_keywords(
    workshop: WorkshopView,
    registry: Seq<char>,
    previous_owner: Seq<char>,
    receiver: Seq<char>,
    asset_id: Seq<char>,
    sub_call_succeeded: bool,
)
    requires
        workshop.trusted.contains(registry),
    ensures
        final_owner(
            previous_owner,
            receiver,
            handshake(
                workshop,
                registry,
                previous_owner,
                asset_id,
                "return-it-later"@,
                sub_call_succeeded,
            ),
        ) == previous_owner,
        sub_call_succeeded ==> final_owner(
            previous_owner,
            receiver,
            handshake(
                workshop,
                registry,
                previous_owner,
                asset_id,
                "keep-it-later"@,
                sub_call_succeeded,
            ),
        ) == receiver,
        sub_call_succeeded ==> handshake(
            workshop,
            registry,
            previous_owner,
            asset_id,
            "keep-it-later"@,
            sub_call_succeeded,
        ) == handshake(
            workshop,
            registry,
            previous_owner,
            asset_id,
            "keep-it-now"@,
            sub_call_succeeded,
        ),
        sub_call_succeeded ==> handshake(
            workshop,
            registry,
            previous_owner,
            asset_id,
            "return-it-later"@,
            sub_call_succeeded,
        ) == handshake(
            workshop,
            registry,
            previous_owner,
            asset_id,
            "return-it-now"@,
            sub_call_succeeded,
        ),
        !sub_call_succeeded ==> handshake(
            workshop,
            registry,
            previous_owner,
            asset_id,
            "keep-it-later"@,
            sub_call_succeeded,
        ) == Err::<bool, WorkshopError>(WorkshopError::SubCallFailed),
{
    lemma_keywords();
}

/// An instruction that is none of the four keywords fails the receiver's
/// invocation, whoever calls, and the asset ends with its previous owner.
/// This holds for a slot name too: the merge is made and the invocation
/// fails all the same.
pub proof fn lemma_unrecognized_instruction_reverts(
    workshop: WorkshopView,
    registry: Seq<char>,
    previous_owner: Seq<char>,
    receiver: Seq<char>,
    asset_id: Seq<char>,
    instruction: Seq<char>,
    sub_call_succeeded: bool,
)
    requires
        directive(instruction) is None,
    ensures
        handshake(workshop, registry, previous_owner, asset_id, instruction, sub_call_succeeded)
            is Err,
        workshop.trusted.contains(registry) ==> handshake(
            workshop,
            registry,
            previous_owner,
            asset_id,
            instruction,
            sub_call_succeeded,
        ) == Err::<bool, WorkshopError>(WorkshopError::UnrecognizedInstruction),
        settlement(
            handshake(
                workshop,
                registry,
                previous_owner,
                asset_id,
                instruction,
                sub_call_succeeded,
            ),
        ).receiver_failed(),
        final_owner(
            previous_owner,
            receiver,
            handshake(
                workshop,
                registry,
                previous_owner,
                asset_id,
                instruction,
                sub_call_succeeded,
            ),
        ) == previous_owner,
{
}

} // verus!

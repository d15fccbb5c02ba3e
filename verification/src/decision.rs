//! What the workshop answers to a transfer notification: keep the asset or
//! hand it back, at once or after one further call has come back.

use vstd::prelude::*;

use crate::component::BicycleComponent;
use crate::error::WorkshopError;
use crate::text::same_text;

verus! {

/// What is to become of a presented asset.
#[derive(Clone, Copy, Debug, PartialEq, Eq, Structural)]
pub enum Outcome {
    /// The asset stays with the workshop.
    Keep,
    /// The asset goes back to its previous owner.
    Return,
}

/// When the answer is given.
#[derive(Clone, Copy, Debug, PartialEq, Eq, Structural)]
pub enum Timing {
    /// Within the notification itself.
    Now,
    /// After one further call has come back.
    Later,
}

/// One of the four keywords of the keep and return protocol.
#[derive(Clone, Copy, Debug, PartialEq, Eq, Structural)]
pub struct Directive {
    pub outcome: Outcome,
    pub timing: Timing,
}

/// The keyword that `instruction` spells, if it spells one. The match is
/// exact and case-sensitive.
pub open spec fn directive(instruction: Seq<char>) -> Option<Directive> {
    if instruction == "return-it-now"@ {
        Some(Directive { outcome: Outcome::Return, timing: Timing::Now })
    } else if instruction == "return-it-later"@ {
        Some(Directive { outcome: Outcome::Return, timing: Timing::Later })
    } else if instruction == "keep-it-now"@ {
        Some(Directive { outcome: Outcome::Keep, timing: Timing::Now })
    } else if instruction == "keep-it-later"@ {
        Some(Directive { outcome: Outcome::Keep, timing: Timing::Later })
    } else {
        None
    }
}

impl Outcome {
    /// Whether this outcome sends the asset back to its previous owner.
    pub open spec fn returns_asset(self) -> bool {
        self == Outcome::Return
    }

    /// Whether this outcome sends the asset back to its previous owner.
    pub fn should_return(&self) -> (back: bool)
        ensures
            back == self.returns_asset(),
    {
        match self {
            Outcome::Keep => false,
            Outcome::Return => true,
        }
    }
}

impl Directive {
    /// Reads an instruction as a keyword. Returns `None` for every text that
    /// is not one of `return-it-now`, `return-it-later`, `keep-it-now` and
    /// `keep-it-later`.
    pub fn parse(instruction: &str) -> (keyword: Option<Directive>)
        ensures
            keyword == directive(instruction@),
    {
        if same_text(instruction, "return-it-now") {
            Some(Directive { outcome: Outcome::Return, timing: Timing::Now })
        } else if same_text(instruction, "return-it-later") {
            Some(Directive { outcome: Outcome::Return, timing: Timing::Later })
        } else if same_text(instruction, "keep-it-now") {
            Some(Directive { outcome: Outcome::Keep, timing: Timing::Now })
        } else if same_text(instruction, "keep-it-later") {
            Some(Directive { outcome: Outcome::Keep, timing: Timing::Later })
        } else {
            None
        }
    }
}

/// A decision that waits for one further call: whose asset it is about and
/// which outcome was asked for. It is kept until that call has come back.
#[derive(Debug, PartialEq, Eq)]
pub struct Continuation {
    pub owner: String,
    pub asset_id: String,
    pub requested_outcome: Outcome,
}

/// A continuation, with texts in place of strings.
pub struct ContinuationView {
    pub owner: Seq<char>,
    pub asset_id: Seq<char>,
    pub requested_outcome: Outcome,
}

impl View for Continuation {
    type V = ContinuationView;

    open spec fn view(&self) -> ContinuationView {
        ContinuationView {
            owner: self.owner@,
            asset_id: self.asset_id@,
            requested_outcome: self.requested_outcome,
        }
    }
}

/// The workshop's answer to a transfer notification.
#[derive(Debug, PartialEq, Eq)]
pub enum Decision {
    /// The answer is final: `return_asset` says whether the asset goes back
    /// to its previous owner.
    Resolved { return_asset: bool },
    /// The answer follows once one further call has come back.
    Deferred(Continuation),
}

/// A decision, with texts in place of strings.
pub enum DecisionView {
    Resolved { return_asset: bool },
    Deferred(ContinuationView),
}

impl View for Decision {
    type V = DecisionView;

    open spec fn view(&self) -> DecisionView {
        match self {
            Decision::Resolved { return_asset } => DecisionView::Resolved {
                return_asset: *return_asset,
            },
            Decision::Deferred(continuation) => DecisionView::Deferred(continuation@),
        }
    }
}

/// The decision on an asset of `previous_owner` that arrives with
/// `instruction`. A "now" keyword is answered at once, a "later" keyword is
/// deferred, and every other instruction fails the invocation.
pub open spec fn decision(
    previous_owner: Seq<char>,
    asset_id: Seq<char>,
    instruction: Seq<char>,
) -> Result<DecisionView, WorkshopError> {
    match directive(instruction) {
        Some(keyword) => match keyword.timing {
            Timing::Now => Ok(
                DecisionView::Resolved { return_asset: keyword.outcome.returns_asset() },
            ),
            Timing::Later => Ok(
                DecisionView::Deferred(
                    ContinuationView {
                        owner: previous_owner,
                        asset_id,
                        requested_outcome: keyword.outcome,
                    },
                ),
            ),
        },
        None => Err(WorkshopError::UnrecognizedInstruction),
    }
}

/// The answer of a deferred decision once its call has come back: the
/// outcome that was asked for if the call succeeded, a failure if it did not.
pub open spec fn resolved(requested_outcome: Outcome, sub_call_succeeded: bool) -> Result<
    bool,
    WorkshopError,
> {
    if sub_call_succeeded {
        Ok(requested_outcome.returns_asset())
    } else {
        Err(WorkshopError::SubCallFailed)
    }
}

/// The final answer that a decision comes to: its own, if it is resolved;
/// that of its continuation, if it is deferred.
pub open spec fn settled(answer: DecisionView, sub_call_succeeded: bool) -> Result<
    bool,
    WorkshopError,
> {
    match answer {
        DecisionView::Resolved { return_asset } => Ok(return_asset),
        DecisionView::Deferred(continuation) => resolved(
            continuation.requested_outcome,
            sub_call_succeeded,
        ),
    }
}

/// The view of what a notification returned.
pub open spec fn answer_view(answer: Result<Decision, WorkshopError>) -> Result<
    DecisionView,
    WorkshopError,
> {
    match answer {
        Ok(made) => Ok(made@),
        Err(error) => Err(error),
    }
}

impl Clone for Continuation {
    fn clone(&self) -> (copy: Continuation)
        ensures
            copy == *self,
    {
        Continuation {
            owner: self.owner.clone(),
            asset_id: self.asset_id.clone(),
            requested_outcome: self.requested_outcome,
        }
    }
}

impl Clone for Decision {
    fn clone(&self) -> (copy: Decision)
        ensures
            copy == *self,
    {
        match self {
            Decision::Resolved { return_asset } => Decision::Resolved {
                return_asset: *return_asset,
            },
            Decision::Deferred(continuation) => Decision::Deferred(continuation.clone()),
        }
    }
}

impl Continuation {
    /// Resolves the deferred decision now that its call has come back, and
    /// uses the continuation up. Returns whether the asset goes back to its
    /// previous owner, or `SubCallFailed` when the call did not succeed.
    pub fn resolve(self, sub_call_succeeded: bool) -> (answer: Result<bool, WorkshopError>)
        ensures
            answer == resolved(self@.requested_outcome, sub_call_succeeded),
    {
        if sub_call_succeeded {
            Ok(self.requested_outcome.should_return())
        } else {
            Err(WorkshopError::SubCallFailed)
        }
    }
}

impl Decision {
    /// Decides on an asset of `previous_owner` from the instruction that came
    /// with it.
    pub fn decide(previous_owner: &str, asset_id: &str, instruction: &str) -> (answer: Result<
        Decision,
        WorkshopError,
    >)
        ensures
            answer_view(answer) == decision(previous_owner@, asset_id@, instruction@),
    {
        match Directive::parse(instruction) {
            Some(keyword) => match keyword.timing {
                Timing::Now => Ok(
                    Decision::Resolved { return_asset: keyword.outcome.should_return() },
                ),
                Timing::Later => Ok(
                    Decision::Deferred(
                        Continuation {
                            owner: previous_owner.to_owned(),
                            asset_id: asset_id.to_owned(),
                            requested_outcome: keyword.outcome,
                        },
                    ),
                ),
            },
            None => Err(WorkshopError::UnrecognizedInstruction),
        }
    }

    /// Brings the decision to its final answer. A resolved decision has it
    /// already and `sub_call_succeeded` is not looked at; a deferred one is
    /// resolved with it.
    pub fn settle(self, sub_call_succeeded: bool) -> (answer: Result<bool, WorkshopError>)
        ensures
            answer == settled(self@, sub_call_succeeded),
    {
        match self {
            Decision::Resolved { return_asset } => Ok(return_asset),
            Decision::Deferred(continuation) => continuation.resolve(sub_call_succeeded),
        }
    }
}

/// The four keywords differ from one another, and none of them is a slot
/// name: an instruction that selects a slot is never a keyword.
pub proof fn lemma_keywords()
    ensures
        directive("return-it-now"@) == Some(
            Directive { outcome: Outcome::Return, timing: Timing::Now },
        ),
        directive("return-it-later"@) == Some(
            Directive { outcome: Outcome::Return, timing: Timing::Later },
        ),
        directive("keep-it-now"@) == Some(
            Directive { outcome: Outcome::Keep, timing: Timing::Now },
        ),
        directive("keep-it-later"@) == Some(
            Directive { outcome: Outcome::Keep, timing: Timing::Later },
        ),
        forall|instruction: Seq<char>|
            BicycleComponent::named(instruction) is Some ==> directive(instruction) is None,
{
    reveal_strlit("return-it-now");
    reveal_strlit("return-it-later");
    reveal_strlit("keep-it-now");
    reveal_strlit("keep-it-later");
    reveal_strlit("wheels");
    reveal_strlit("handlebar");
    reveal_strlit("frame");
    reveal_strlit("saddle");
    reveal_strlit("transmission");
    reveal_strlit("brakes");
    assert("return-it-now"@.len() == 13 && "return-it-now"@[0] == 'r');
    assert("return-it-later"@.len() == 15);
    assert("keep-it-now"@.len() == 11);
    assert("keep-it-later"@.len() == 13 && "keep-it-later"@[0] == 'k');
    assert("wheels"@.len() == 6);
    assert("handlebar"@.len() == 9);
    assert("frame"@.len() == 5);
    assert("saddle"@.len() == 6);
    assert("transmission"@.len() == 12);
    assert("brakes"@.len() == 6);
}

} // verus!

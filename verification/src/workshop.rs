//! The workshop: the receiving side of the handshake.

use vstd::prelude::*;

use crate::component::BicycleComponent;
use crate::decision::{answer_view, decision, Decision, DecisionView};
use crate::error::WorkshopError;
use crate::tables::{merged, CraftingTables};
use crate::whitelist::{authorized, TrustedRegistries};

verus! {

/// The workshop's state: the crafting tables of all owners and the registries
/// it accepts notifications from. Nothing but the workshop's own operations
/// writes to either, and none of them changes the trusted registries.
#[derive(Debug, PartialEq, Eq)]
pub struct Workshop {
    crafting_tables_per_owner: CraftingTables,
    component_nft_whitelist: TrustedRegistries,
}

/// The workshop's state as mathematical values.
pub struct WorkshopView {
    /// Each owner's table: the occupied slots and what they hold.
    pub tables: Map<Seq<char>, Map<BicycleComponent, Seq<char>>>,
    /// The trusted registries, in the order given at set-up.
    pub trusted: Seq<Seq<char>>,
}

impl View for Workshop {
    type V = WorkshopView;

    closed spec fn view(&self) -> WorkshopView {
        WorkshopView {
            tables: self.crafting_tables_per_owner@,
            trusted: self.component_nft_whitelist@,
        }
    }
}

/// The state of a workshop that has just been set up with `trusted`.
pub open spec fn fresh(trusted: Seq<Seq<char>>) -> WorkshopView {
    WorkshopView { tables: Map::empty(), trusted }
}

/// The tables after an asset has been presented with `instruction`: merged
/// into the slot that the instruction names, on the previous owner's table;
/// unchanged when the instruction names no slot.
pub open spec fn presented(
    tables: Map<Seq<char>, Map<BicycleComponent, Seq<char>>>,
    previous_owner: Seq<char>,
    asset_id: Seq<char>,
    instruction: Seq<char>,
) -> Map<Seq<char>, Map<BicycleComponent, Seq<char>>> {
    match BicycleComponent::named(instruction) {
        Some(slot) => merged(tables, previous_owner, asset_id, slot),
        None => tables,
    }
}

/// A transfer notification as a step of the workshop: the state after it and
/// the answer it gives.
///
/// A caller that is not trusted is rejected and the state stays as it is.
/// For a trusted caller the asset is first presented to the tables and the
/// decision is made afterwards, so the tables keep the asset also where the
/// decision is to hand it back or the invocation fails.
pub open spec fn notified(
    workshop: WorkshopView,
    caller: Seq<char>,
    previous_owner: Seq<char>,
    asset_id: Seq<char>,
    instruction: Seq<char>,
) -> (WorkshopView, Result<DecisionView, WorkshopError>) {
    if authorized(workshop.trusted, caller) is Err {
        (workshop, Err(WorkshopError::Unauthorized))
    } else {
        (
            WorkshopView {
                tables: presented(workshop.tables, previous_owner, asset_id, instruction),
                trusted: workshop.trusted,
            },
            decision(previous_owner, asset_id, instruction),
        )
    }
}

/// A notification from a caller that is not a trusted registry always fails
/// and leaves the workshop exactly as it was, whatever asset and instruction
/// it carries.
pub proof fn lemma_untrusted_caller_rejected(
    workshop: WorkshopView,
    caller: Seq<char>,
    previous_owner: Seq<char>,
    asset_id: Seq<char>,
    instruction: Seq<char>,
)
    requires
        !workshop.trusted.contains(caller),
    ensures
        notified(workshop, caller, previous_owner, asset_id, instruction) == (
            workshop,
            Err::<DecisionView, WorkshopError>(WorkshopError::Unauthorized),
        ),
{
}

/// A notification never changes the trusted registries, and it changes the
/// tables only by a merge into the previous owner's table: every other
/// owner's table is as before.
pub proof fn lemma_notification_touches_one_table(
    workshop: WorkshopView,
    caller: Seq<char>,
    previous_owner: Seq<char>,
    asset_id: Seq<char>,
    instruction: Seq<char>,
)
    ensures
        notified(workshop, caller, previous_owner, asset_id, instruction).0.trusted
            == workshop.trusted,
        notified(workshop, caller, previous_owner, asset_id, instruction).0.tables.remove(
            previous_owner,
        ) == workshop.tables.remove(previous_owner),
{
}

impl Workshop {
    /// Sets up a workshop that trusts the given registries and holds no
    /// crafting table yet.
    pub fn new(trusted_registries: Vec<String>) -> (workshop: Workshop)
        ensures
            workshop@ == fresh(trusted_registries@.map_values(|identity: String| identity@)),
    {
        Workshop {
            crafting_tables_per_owner: CraftingTables::new(),
            component_nft_whitelist: TrustedRegistries::new(trusted_registries),
        }
    }

    /// Sets the workshop up in `state`, once. Where `state` holds a workshop
    /// already, it is left as it is and the call fails with
    /// `DoubleInitialization`.
    pub fn initialize(state: &mut Option<Workshop>, trusted_registries: Vec<String>) -> (done:
        Result<(), WorkshopError>)
        ensures
            *old(state) is Some ==> done == Err::<(), WorkshopError>(
                WorkshopError::DoubleInitialization,
            ) && *final(state) == *old(state),
            *old(state) is None ==> done == Ok::<(), WorkshopError>(()) && *final(state) is Some
                && (*final(state))->0@ == fresh(
                trusted_registries@.map_values(|identity: String| identity@),
            ),
    {
        if state.is_some() {
            Err(WorkshopError::DoubleInitialization)
        } else {
            *state = Some(Workshop::new(trusted_registries));
            Ok(())
        }
    }

    /// The crafting tables of all owners.
    pub fn crafting_tables_per_owner(&self) -> (tables: &CraftingTables)
        ensures
            tables@ == self@.tables,
    {
        &self.crafting_tables_per_owner
    }

    /// The trusted registries, as given at set-up.
    pub fn component_nft_whitelist(&self) -> (trusted: &TrustedRegistries)
        ensures
            trusted@ == self@.trusted,
    {
        &self.component_nft_whitelist
    }

    /// Admits `caller` if it is a trusted registry and fails with
    /// `Unauthorized` if it is not.
    pub fn authorize(&self, caller: &str) -> (verdict: Result<(), WorkshopError>)
        ensures
            verdict == authorized(self@.trusted, caller@),
    {
        self.component_nft_whitelist.authorize(caller)
    }

    /// Writes `asset_id` into `slot` of `owner`'s crafting table, which is
    /// taken as empty if the owner has none yet. The owner's other slots, the
    /// other owners' tables and the trusted registries stay as they are.
    pub fn merge_slot(&mut self, owner: &str, asset_id: &str, slot: BicycleComponent)
        ensures
            final(self)@.tables == merged(old(self)@.tables, owner@, asset_id@, slot),
            final(self)@.trusted == old(self)@.trusted,
    {
        self.crafting_tables_per_owner.merge_slot(owner, asset_id, slot);
    }

    /// The crafting table of `owner`, or `None` when nothing was merged for
    /// them yet.
    pub fn crafting_table(&self, owner: &str) -> (table: Option<&crate::table::CraftingTable>)
        ensures
            match table {
                Some(found) => self@.tables.contains_key(owner@) && self@.tables[owner@]
                    == found@,
                None => !self@.tables.contains_key(owner@),
            },
    {
        self.crafting_tables_per_owner.get(owner)
    }

    /// Handles the notification that `caller` has moved `asset_id` from
    /// `previous_owner` to the workshop on behalf of `sender`.
    ///
    /// A caller that is not a trusted registry is rejected with
    /// `Unauthorized` before anything is written. Otherwise the asset is
    /// merged into the previous owner's crafting table if `instruction` names
    /// a slot, and then the decision is made: resolved for `return-it-now`
    /// and `keep-it-now`, deferred for `return-it-later` and `keep-it-later`,
    /// and `UnrecognizedInstruction` for every other instruction. The merge
    /// stays whatever the decision is. The sender has no part in it.
    #[allow(unused_variables)]
    pub fn on_transfer_notify(
        &mut self,
        caller: &str,
        sender: &str,
        previous_owner: &str,
        asset_id: &str,
        instruction: &str,
    ) -> (answer: Result<Decision, WorkshopError>)
        ensures
            (final(self)@, answer_view(answer)) == notified(
                old(self)@,
                caller@,
                previous_owner@,
                asset_id@,
                instruction@,
            ),
            !old(self)@.trusted.contains(caller@) ==> answer_view(answer) == Err::<
                DecisionView,
                WorkshopError,
            >(WorkshopError::Unauthorized) && final(self)@ == old(self)@,
            final(self)@.trusted == old(self)@.trusted,
    {
        match self.authorize(caller) {
            Err(refusal) => {
                return Err(refusal);
            },
            Ok(_) => {},
        }
        match BicycleComponent::from_name(instruction) {
            Some(slot) => {
                self.merge_slot(previous_owner, asset_id, slot);
            },
            None => {},
        }
        Decision::decide(previous_owner, asset_id, instruction)
    }
}

} // verus!

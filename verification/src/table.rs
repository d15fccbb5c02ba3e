//! The crafting table: one record per owner, with one slot for each kind of
//! bicycle component.

use vstd::prelude::*;

use crate::component::BicycleComponent;

verus! {

/// A crafting table. Each of its six slots is empty or holds the identity of
/// one asset. Writing to an occupied slot replaces what it held.
#[derive(Debug, PartialEq, Eq)]
pub struct CraftingTable {
    wheels: Option<String>,
    handlebar: Option<String>,
    frame: Option<String>,
    saddle: Option<String>,
    transmission: Option<String>,
    brakes: Option<String>,
}

impl View for CraftingTable {
    type V = Map<BicycleComponent, Seq<char>>;

    /// The occupied slots, each with the identity of the asset it holds.
    closed spec fn view(&self) -> Map<BicycleComponent, Seq<char>> {
        Map::new(
            |slot: BicycleComponent| self.cell(slot) is Some,
            |slot: BicycleComponent| self.cell(slot)->0@,
        )
    }
}

impl CraftingTable {
    spec fn cell(&self, slot: BicycleComponent) -> Option<String> {
        match slot {
            BicycleComponent::Wheels => self.wheels,
            BicycleComponent::Handlebar => self.handlebar,
            BicycleComponent::Frame => self.frame,
            BicycleComponent::Saddle => self.saddle,
            BicycleComponent::Transmission => self.transmission,
            BicycleComponent::Brakes => self.brakes,
        }
    }

    /// A table with all six slots empty.
    pub fn new() -> (table: CraftingTable)
        ensures
            table@ == Map::<BicycleComponent, Seq<char>>::empty(),
    {
        CraftingTable {
            wheels: None,
            handlebar: None,
            frame: None,
            saddle: None,
            transmission: None,
            brakes: None,
        }
    }

    /// The asset held in `slot`, or `None` when the slot is empty.
    pub fn slot(&self, slot: BicycleComponent) -> (held: Option<&String>)
        ensures
            match held {
                Some(asset) => self@.contains_key(slot) && self@[slot] == asset@,
                None => !self@.contains_key(slot),
            },
    {
        match slot {
            BicycleComponent::Wheels => self.wheels.as_ref(),
            BicycleComponent::Handlebar => self.handlebar.as_ref(),
            BicycleComponent::Frame => self.frame.as_ref(),
            BicycleComponent::Saddle => self.saddle.as_ref(),
            BicycleComponent::Transmission => self.transmission.as_ref(),
            BicycleComponent::Brakes => self.brakes.as_ref(),
        }
    }

    /// Puts `asset_id` into `slot`. Whatever the slot held before is
    /// replaced; the other five slots keep what they hold.
    pub fn set_slot(&mut self, slot: BicycleComponent, asset_id: &str)
        ensures
            final(self)@ == old(self)@.insert(slot, asset_id@),
    {
        let held = Some(asset_id.to_owned());
        match slot {
            BicycleComponent::Wheels => {
                self.wheels = held;
            },
            BicycleComponent::Handlebar => {
                self.handlebar = held;
            },
            BicycleComponent::Frame => {
                self.frame = held;
            },
            BicycleComponent::Saddle => {
                self.saddle = held;
            },
            BicycleComponent::Transmission => {
                self.transmission = held;
            },
            BicycleComponent::Brakes => {
                self.brakes = held;
            },
        }
    }
}

impl Clone for CraftingTable {
    fn clone(&self) -> (copy: CraftingTable)
        ensures
            copy@ == self@,
    {
        CraftingTable {
            wheels: clone_cell(&self.wheels),
            handlebar: clone_cell(&self.handlebar),
            frame: clone_cell(&self.frame),
            saddle: clone_cell(&self.saddle),
            transmission: clone_cell(&self.transmission),
            brakes: clone_cell(&self.brakes),
        }
    }
}

impl Default for CraftingTable {
    fn default() -> (table: CraftingTable)
        ensures
            table@ == Map::<BicycleComponent, Seq<char>>::empty(),
    {
        CraftingTable::new()
    }
}

fn clone_cell(cell: &Option<String>) -> (copy: Option<String>)
    ensures
        copy == *cell,
{
    match cell {
        Some(asset) => Some(asset.clone()),
        None => None,
    }
}

} // verus!

//! The six kinds of bicycle component, one per slot of a crafting table.

use vstd::prelude::*;

use crate::text::same_text;

verus! {

/// A kind of bicycle component. Each kind has one slot on a crafting table
/// and is addressed in a transfer instruction by its lower-case name.
#[derive(Clone, Copy, Debug, PartialEq, Eq, Structural)]
pub enum BicycleComponent {
    Wheels,
    Handlebar,
    Frame,
    Saddle,
    Transmission,
    Brakes,
}

impl BicycleComponent {
    /// The name by which an instruction selects this component's slot.
    pub open spec fn slot_name(self) -> Seq<char> {
        match self {
            BicycleComponent::Wheels => "wheels"@,
            BicycleComponent::Handlebar => "handlebar"@,
            BicycleComponent::Frame => "frame"@,
            BicycleComponent::Saddle => "saddle"@,
            BicycleComponent::Transmission => "transmission"@,
            BicycleComponent::Brakes => "brakes"@,
        }
    }

    /// The component whose slot name is exactly `name`, if there is one.
    /// The match is case-sensitive.
    pub open spec fn named(name: Seq<char>) -> Option<BicycleComponent> {
        if name == "wheels"@ {
            Some(BicycleComponent::Wheels)
        } else if name == "handlebar"@ {
            Some(BicycleComponent::Handlebar)
        } else if name == "frame"@ {
            Some(BicycleComponent::Frame)
        } else if name == "saddle"@ {
            Some(BicycleComponent::Saddle)
        } else if name == "transmission"@ {
            Some(BicycleComponent::Transmission)
        } else if name == "brakes"@ {
            Some(BicycleComponent::Brakes)
        } else {
            None
        }
    }

    /// The slot name of this component.
    pub fn name(&self) -> (name: &'static str)
        ensures
            name@ == self.slot_name(),
    {
        match self {
            BicycleComponent::Wheels => "wheels",
            BicycleComponent::Handlebar => "handlebar",
            BicycleComponent::Frame => "frame",
            BicycleComponent::Saddle => "saddle",
            BicycleComponent::Transmission => "transmission",
            BicycleComponent::Brakes => "brakes",
        }
    }

    /// Reads a slot name. Returns the component it names, or `None` when
    /// the text is not one of the six slot names.
    pub fn from_name(name: &str) -> (component: Option<BicycleComponent>)
        ensures
            component == Self::named(name@),
    {
        if same_text(name, "wheels") {
            Some(BicycleComponent::Wheels)
        } else if same_text(name, "handlebar") {
            Some(BicycleComponent::Handlebar)
        } else if same_text(name, "frame") {
            Some(BicycleComponent::Frame)
        } else if same_text(name, "saddle") {
            Some(BicycleComponent::Saddle)
        } else if same_text(name, "transmission") {
            Some(BicycleComponent::Transmission)
        } else if same_text(name, "brakes") {
            Some(BicycleComponent::Brakes)
        } else {
            None
        }
    }

    /// Slot names tell the components apart: reading a component's own name
    /// gives that component back, and a text names a component only if it is
    /// that component's name.
    pub proof fn lemma_names_distinct(self)
        ensures
            Self::named(self.slot_name()) == Some(self),
            forall|name: Seq<char>| Self::named(name) == Some(self) <==> name == self.slot_name(),
    {
        reveal_strlit("wheels");
        reveal_strlit("handlebar");
        reveal_strlit("frame");
        reveal_strlit("saddle");
        reveal_strlit("transmission");
        reveal_strlit("brakes");
        assert("wheels"@.len() == 6 && "wheels"@[0] == 'w');
        assert("handlebar"@.len() == 9);
        assert("frame"@.len() == 5);
        assert("saddle"@.len() == 6 && "saddle"@[0] == 's');
        assert("transmission"@.len() == 12);
        assert("brakes"@.len() == 6 && "brakes"@[0] == 'b');
    }
}

} // verus!

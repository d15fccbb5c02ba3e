//! Receiver side of a transfer-and-call handshake for unique assets.
//!
//! A registry hands an asset to the workshop together with a free-form
//! instruction. The workshop checks that the registry is one it trusts,
//! records the asset on the previous owner's crafting table when the
//! instruction names a slot, and answers whether the asset is to be kept
//! or handed back, at once or after one further call has come back.
//! The registry then settles ownership on that answer.

pub mod text;
pub mod component;
pub mod table;
pub mod error;
pub mod whitelist;
pub mod tables;
pub mod decision;
pub mod workshop;
pub mod decimal;
pub mod ledger;
pub mod handshake;
pub mod registry;

pub use crate::component::BicycleComponent;
pub use crate::decision::{Continuation, Decision, Directive, Outcome, Timing};
pub use crate::error::WorkshopError;
pub use crate::handshake::Settlement;
pub use crate::registry::{AssetInfo, AssetRegistry, RegistryError};
pub use crate::table::CraftingTable;
pub use crate::tables::CraftingTables;
pub use crate::whitelist::TrustedRegistries;
pub use crate::workshop::Workshop;

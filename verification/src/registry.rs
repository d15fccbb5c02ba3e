//! The asset registry as the workshop relies on it: a ledger of who owns
//! which asset, and the transfer-and-call that settles ownership on the
//! workshop's answer.

use vstd::prelude::*;

use crate::decimal::{decimal, to_decimal};
use crate::handshake::{final_owner, handshake, settlement, Settlement};
use crate::ledger::{
    asset_ids_of, distinct_ids, lemma_push_keeps_distinct, lemma_reassigned_again,
    lemma_reassigned_at, lemma_reassigned_record, lemma_reassigned_unknown, lemma_record_absent,
    lemma_record_at, lemma_take_next, owner_of, reassigned, record_of, stepped, supply,
    AssetView, LedgerStep,
};
use crate::text::same_text;
use crate::workshop::{notified, Workshop};

verus! {

/// Why the registry refused a request.
#[derive(Clone, Copy, Debug, PartialEq, Eq, Structural)]
pub enum RegistryError {
    /// An asset with this identity was minted before.
    AssetExists,
    /// No asset with this identity was ever minted.
    UnknownAsset,
}

/// What the registry tells about one asset.
#[derive(Debug, PartialEq, Eq)]
pub struct AssetInfo {
    pub owner_id: String,
    pub metadata: String,
}

impl Clone for AssetInfo {
    fn clone(&self) -> (copy: AssetInfo)
        ensures
            copy == *self,
    {
        AssetInfo { owner_id: self.owner_id.clone(), metadata: self.metadata.clone() }
    }
}

/// One asset on the ledger.
#[derive(Debug, PartialEq, Eq)]
struct AssetRecord {
    asset_id: String,
    owner: String,
    metadata: String,
}

/// The registry: its own identity and the assets it has minted, in the order
/// of minting. No two assets have the same identity.
#[derive(Debug, PartialEq, Eq)]
pub struct AssetRegistry {
    identity: String,
    assets: Vec<AssetRecord>,
}

/// The registry as mathematical values.
pub struct RegistryView {
    pub identity: Seq<char>,
    pub assets: Seq<AssetView>,
}

impl View for AssetRecord {
    type V = AssetView;

    closed spec fn view(&self) -> AssetView {
        AssetView { asset_id: self.asset_id@, owner: self.owner@, metadata: self.metadata@ }
    }
}

impl View for AssetRegistry {
    type V = RegistryView;

    closed spec fn view(&self) -> RegistryView {
        RegistryView { identity: self.identity@, assets: ledger(self.assets@) }
    }
}

spec fn ledger(records: Seq<AssetRecord>) -> Seq<AssetView> {
    records.map_values(|record: AssetRecord| record@)
}

impl AssetRegistry {
    #[verifier::type_invariant]
    spec fn ids_distinct(&self) -> bool {
        distinct_ids(ledger(self.assets@))
    }

    /// A registry that is known to others as `identity` and has minted
    /// nothing yet.
    pub fn new(identity: &str) -> (registry: AssetRegistry)
        ensures
            registry@.identity == identity@,
            registry@.assets == Seq::<AssetView>::empty(),
    {
        AssetRegistry { identity: identity.to_owned(), assets: Vec::new() }
    }

    /// The identity under which the registry calls a receiver.
    pub fn identity(&self) -> (identity: &str)
        ensures
            identity@ == self@.identity,
    {
        self.identity.as_str()
    }

    fn find(&self, asset_id: &str) -> (found: Option<usize>)
        ensures
            match found {
                Some(i) => i < self@.assets.len() && self@.assets[i as int].asset_id == asset_id@
                    && record_of(self@.assets, asset_id@) == Some(self@.assets[i as int]),
                None => record_of(self@.assets, asset_id@) is None,
            },
            distinct_ids(self@.assets),
            self@.assets.len() == self.assets@.len(),
    {
        proof {
            use_type_invariant(self);
        }
        let mut i: usize = 0;
        while i < self.assets.len()
            invariant
                i <= self.assets@.len(),
                self@.assets == ledger(self.assets@),
                distinct_ids(self@.assets),
                forall|j: int| 0 <= j < i ==> self@.assets[j].asset_id != asset_id@,
            decreases self.assets@.len() - i,
        {
            if same_text(self.assets[i].asset_id.as_str(), asset_id) {
                proof {
                    lemma_record_at(self@.assets, i as int, asset_id@);
                }
                return Some(i);
            }
            i += 1;
        }
        proof {
            lemma_record_absent(self@.assets, asset_id@);
        }
        None
    }

    fn assign(&mut self, i: usize, owner: &str)
        requires
            i < old(self)@.assets.len(),
        ensures
            final(self)@.identity == old(self)@.identity,
            final(self)@.assets == reassigned(
                old(self)@.assets,
                old(self)@.assets[i as int].asset_id,
                owner@,
            ),
    {
        proof {
            use_type_invariant(&*self);
            lemma_reassigned_at(self@.assets, i as int, owner@);
        }
        let mut assets: Vec<AssetRecord> = Vec::new();
        core::mem::swap(&mut self.assets, &mut assets);
        assets[i].owner = owner.to_owned();
        proof {
            assert(ledger(assets@) =~= reassigned(
                old(self)@.assets,
                old(self)@.assets[i as int].asset_id,
                owner@,
            ));
        }
        core::mem::swap(&mut self.assets, &mut assets);
    }

    /// Mints `asset_id` to `owner`. Fails with `AssetExists`, and changes
    /// nothing, if an asset with this identity was minted before.
    pub fn mint(&mut self, asset_id: &str, owner: &str, metadata: &str) -> (done: Result<
        (),
        RegistryError,
    >)
        ensures
            final(self)@.identity == old(self)@.identity,
            record_of(old(self)@.assets, asset_id@) is Some ==> done == Err::<(), RegistryError>(
                RegistryError::AssetExists,
            ) && final(self)@ == old(self)@,
            record_of(old(self)@.assets, asset_id@) is None ==> done == Ok::<(), RegistryError>(())
                && final(self)@.assets == old(self)@.assets.push(
                AssetView { asset_id: asset_id@, owner: owner@, metadata: metadata@ },
            ),
            final(self)@.assets == stepped(
                old(self)@.assets,
                LedgerStep::Mint(
                    AssetView { asset_id: asset_id@, owner: owner@, metadata: metadata@ },
                ),
            ),
    {
        match self.find(asset_id) {
            Some(_) => Err(RegistryError::AssetExists),
            None => {
                let record = AssetRecord {
                    asset_id: asset_id.to_owned(),
                    owner: owner.to_owned(),
                    metadata: metadata.to_owned(),
                };
                let ghost before = self@.assets;
                let mut assets: Vec<AssetRecord> = Vec::new();
                core::mem::swap(&mut self.assets, &mut assets);
                assets.push(record);
                proof {
                    let after = ledger(assets@);
                    assert(after =~= before.push(record@));
                    lemma_push_keeps_distinct(before, record@);
                }
                core::mem::swap(&mut self.assets, &mut assets);
                Ok(())
            },
        }
    }

    /// Makes `asset_id` over to `new_owner`, without asking the new owner.
    /// Fails with `UnknownAsset`, and changes nothing, if no such asset was
    /// minted.
    pub fn transfer(&mut self, asset_id: &str, new_owner: &str) -> (done: Result<
        (),
        RegistryError,
    >)
        ensures
            final(self)@.identity == old(self)@.identity,
            record_of(old(self)@.assets, asset_id@) is None ==> done == Err::<(), RegistryError>(
                RegistryError::UnknownAsset,
            ) && final(self)@ == old(self)@,
            record_of(old(self)@.assets, asset_id@) is Some ==> done == Ok::<(), RegistryError>(())
                && final(self)@.assets == reassigned(old(self)@.assets, asset_id@, new_owner@),
            record_of(old(self)@.assets, asset_id@) is Some ==> owner_of(
                final(self)@.assets,
                asset_id@,
            ) == Some(new_owner@),
            final(self)@.assets == stepped(
                old(self)@.assets,
                LedgerStep::Transfer { asset_id: asset_id@, new_owner: new_owner@ },
            ),
    {
        proof {
            lemma_reassigned_record(self@.assets, asset_id@, new_owner@, asset_id@);
            if record_of(self@.assets, asset_id@) is None {
                lemma_reassigned_unknown(self@.assets, asset_id@, new_owner@);
            }
        }
        match self.find(asset_id) {
            Some(i) => {
                self.assign(i, new_owner);
                Ok(())
            },
            None => Err(RegistryError::UnknownAsset),
        }
    }

    /// The owner and the metadata of `asset_id`, or `None` if no such asset
    /// was minted.
    pub fn query(&self, asset_id: &str) -> (info: Option<AssetInfo>)
        ensures
            match info {
                Some(found) => record_of(self@.assets, asset_id@) == Some(
                    AssetView {
                        asset_id: asset_id@,
                        owner: found.owner_id@,
                        metadata: found.metadata@,
                    },
                ),
                None => record_of(self@.assets, asset_id@) is None,
            },
    {
        match self.find(asset_id) {
            Some(i) => Some(
                AssetInfo {
                    owner_id: self.assets[i].owner.clone(),
                    metadata: self.assets[i].metadata.clone(),
                },
            ),
            None => None,
        }
    }

    /// The number of assets minted so far, in decimal notation.
    pub fn total_supply(&self) -> (count: String)
        ensures
            count@ == decimal(self@.assets.len()),
    {
        to_decimal(self.assets.len())
    }

    /// The number of assets that `owner` has, in decimal notation.
    pub fn supply_for_owner(&self, owner: &str) -> (count: String)
        ensures
            count@ == decimal(supply(self@.assets, owner@)),
    {
        let mut count: usize = 0;
        let mut i: usize = 0;
        while i < self.assets.len()
            invariant
                i <= self.assets@.len(),
                self@.assets == ledger(self.assets@),
                count == supply(self@.assets.take(i as int), owner@),
                count <= i,
            decreases self.assets@.len() - i,
        {
            proof {
                lemma_take_next(self@.assets, i as int, owner@);
            }
            if same_text(self.assets[i].owner.as_str(), owner) {
                count += 1;
            }
            i += 1;
        }
        assert(self@.assets.take(i as int) =~= self@.assets);
        to_decimal(count)
    }

    /// The identities of the assets that `owner` has, in the order of
    /// minting.
    pub fn tokens_for_owner(&self, owner: &str) -> (ids: Vec<String>)
        ensures
            ids@.map_values(|id: String| id@) == asset_ids_of(self@.assets, owner@),
    {
        let mut ids: Vec<String> = Vec::new();
        let mut i: usize = 0;
        while i < self.assets.len()
            invariant
                i <= self.assets@.len(),
                self@.assets == ledger(self.assets@),
                ids@.map_values(|id: String| id@) == asset_ids_of(
                    self@.assets.take(i as int),
                    owner@,
                ),
            decreases self.assets@.len() - i,
        {
            let ghost before = ids@.map_values(|id: String| id@);
            proof {
                lemma_take_next(self@.assets, i as int, owner@);
            }
            if same_text(self.assets[i].owner.as_str(), owner) {
                ids.push(self.assets[i].asset_id.clone());
                assert(asset_ids_of(self@.assets.take(i + 1), owner@) =~= before.push(
                    self@.assets[i as int].asset_id,
                ));
            }
            i += 1;
        }
        assert(self@.assets.take(i as int) =~= self@.assets);
        ids
    }

    /// Hands `asset_id` to the workshop `receiver`, known as `receiver_id`,
    /// together with `instruction`, and settles ownership on its answer.
    ///
    /// The asset is first made over to the receiver, which is then notified
    /// in the registry's name, with the previous owner as the sender. Where
    /// the receiver defers its decision, `sub_call_succeeded` tells how the
    /// call that it waits for ended. The receiver keeps the asset if its
    /// final answer is not to return it; the previous owner gets it back if
    /// the answer is to return it or the receiver failed. What the receiver
    /// wrote to its crafting tables stays in either case.
    ///
    /// Fails with `UnknownAsset`, and changes nothing, if no such asset was
    /// minted.
    pub fn transfer_and_call(
        &mut self,
        receiver: &mut Workshop,
        receiver_id: &str,
        asset_id: &str,
        instruction: &str,
        sub_call_succeeded: bool,
    ) -> (done: Result<Settlement, RegistryError>)
        ensures
            final(self)@.identity == old(self)@.identity,
            record_of(old(self)@.assets, asset_id@) is None ==> done == Err::<
                Settlement,
                RegistryError,
            >(RegistryError::UnknownAsset) && final(self)@ == old(self)@ && final(receiver)@
                == old(receiver)@,
            record_of(old(self)@.assets, asset_id@) matches Some(record) ==> {
                let result = handshake(
                    old(receiver)@,
                    old(self)@.identity,
                    record.owner,
                    asset_id@,
                    instruction@,
                    sub_call_succeeded,
                );
                &&& final(receiver)@ == notified(
                    old(receiver)@,
                    old(self)@.identity,
                    record.owner,
                    asset_id@,
                    instruction@,
                ).0
                &&& done == Ok::<Settlement, RegistryError>(settlement(result))
                &&& final(self)@.assets == reassigned(
                    old(self)@.assets,
                    asset_id@,
                    final_owner(record.owner, receiver_id@, result),
                )
                &&& owner_of(final(self)@.assets, asset_id@) == Some(
                    final_owner(record.owner, receiver_id@, result),
                )
            },
    {
        let i = match self.find(asset_id) {
            Some(i) => i,
            None => {
                return Err(RegistryError::UnknownAsset);
            },
        };
        let ghost before = self@.assets;
        let previous_owner = self.assets[i].owner.clone();
        self.assign(i, receiver_id);
        let answer = receiver.on_transfer_notify(
            self.identity.as_str(),
            previous_owner.as_str(),
            previous_owner.as_str(),
            asset_id,
            instruction,
        );
        let result = match answer {
            Ok(made) => made.settle(sub_call_succeeded),
            Err(error) => Err(error),
        };
        proof {
            lemma_reassigned_again(before, asset_id@, receiver_id@, previous_owner@);
            lemma_reassigned_record(before, asset_id@, receiver_id@, asset_id@);
            lemma_reassigned_record(before, asset_id@, previous_owner@, asset_id@);
        }
        let report = match result {
            Ok(false) => Settlement::Kept,
            Ok(true) => {
                self.assign(i, previous_owner.as_str());
                Settlement::Returned
            },
            Err(error) => {
                self.assign(i, previous_owner.as_str());
                Settlement::Reverted(error)
            },
        };
        Ok(report)
    }
}

} // verus!

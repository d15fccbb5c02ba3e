//! The registry's ledger as a mathematical value: the assets in the order of
//! minting, who owns each, and how many each owner has.

use vstd::prelude::*;

verus! {

/// An asset on the ledger, with texts in place of strings.
pub struct AssetView {
    pub asset_id: Seq<char>,
    pub owner: Seq<char>,
    pub metadata: Seq<char>,
}

/// No two assets of the ledger have the same identity.
pub open spec fn distinct_ids(assets: Seq<AssetView>) -> bool {
    forall|i: int, j: int|
        0 <= i < assets.len() && 0 <= j < assets.len() && #[trigger] assets[i].asset_id
            == #[trigger] assets[j].asset_id ==> i == j
}

/// The ledger's record of `asset_id`, or `None` if no such asset was minted.
pub open spec fn record_of(assets: Seq<AssetView>, asset_id: Seq<char>) -> Option<AssetView>
    decreases assets.len(),
{
    if assets.len() == 0 {
        None
    } else if assets.last().asset_id == asset_id {
        Some(assets.last())
    } else {
        record_of(assets.drop_last(), asset_id)
    }
}

/// The owner of `asset_id`, or `None` if no such asset was minted.
pub open spec fn owner_of(assets: Seq<AssetView>, asset_id: Seq<char>) -> Option<Seq<char>> {
    match record_of(assets, asset_id) {
        Some(record) => Some(record.owner),
        None => None,
    }
}

/// The ledger with `asset_id` made over to `owner`; every other asset, and
/// the order of the assets, as before.
pub open spec fn reassigned(assets: Seq<AssetView>, asset_id: Seq<char>, owner: Seq<char>) -> Seq<
    AssetView,
> {
    assets.map_values(
        |asset: AssetView|
            if asset.asset_id == asset_id {
                AssetView { asset_id: asset.asset_id, owner, metadata: asset.metadata }
            } else {
                asset
            },
    )
}

/// The test whether an asset belongs to `owner`.
pub open spec fn owned_by(owner: Seq<char>) -> spec_fn(AssetView) -> bool {
    |asset: AssetView| asset.owner == owner
}

/// The assets of `owner`, in the order of minting.
pub open spec fn assets_of(assets: Seq<AssetView>, owner: Seq<char>) -> Seq<AssetView> {
    assets.filter(owned_by(owner))
}

/// The identities of the assets of `owner`, in the order of minting.
pub open spec fn asset_ids_of(assets: Seq<AssetView>, owner: Seq<char>) -> Seq<Seq<char>> {
    assets_of(assets, owner).map_values(|asset: AssetView| asset.asset_id)
}

/// How many assets `owner` has.
pub open spec fn supply(assets: Seq<AssetView>, owner: Seq<char>) -> nat {
    assets_of(assets, owner).len()
}

/// The supplies of the given owners, added up.
pub open spec fn total_of_supplies(assets: Seq<AssetView>, owners: Seq<Seq<char>>) -> nat
    decreases owners.len(),
{
    if owners.len() == 0 {
        0
    } else {
        total_of_supplies(assets, owners.drop_last()) + supply(assets, owners.last())
    }
}

/// An identity that no asset of the ledger has is not on record.
pub proof fn lemma_record_absent(assets: Seq<AssetView>, asset_id: Seq<char>)
    requires
        forall|i: int| 0 <= i < assets.len() ==> assets[i].asset_id != asset_id,
    ensures
        record_of(assets, asset_id) is None,
    decreases assets.len(),
{
    if assets.len() > 0 {
        lemma_record_absent(assets.drop_last(), asset_id);
    }
}

/// Where identities are distinct, the record of an identity is the one asset
/// that has it.
pub proof fn lemma_record_at(assets: Seq<AssetView>, i: int, asset_id: Seq<char>)
    requires
        distinct_ids(assets),
        0 <= i < assets.len(),
        assets[i].asset_id == asset_id,
    ensures
        record_of(assets, asset_id) == Some(assets[i]),
    decreases assets.len(),
{
    if assets.last().asset_id != asset_id {
        lemma_record_at(assets.drop_last(), i, asset_id);
    }
}

/// Where identities are distinct, making an asset over changes the ledger at
/// that asset's place and nowhere else.
pub proof fn lemma_reassigned_at(assets: Seq<AssetView>, i: int, owner: Seq<char>)
    requires
        distinct_ids(assets),
        0 <= i < assets.len(),
    ensures
        reassigned(assets, assets[i].asset_id, owner) == assets.update(
            i,
            AssetView { asset_id: assets[i].asset_id, owner, metadata: assets[i].metadata },
        ),
{
}

/// Of two reassignments of one asset only the second counts, and a
/// reassignment keeps each asset's identity and place.
pub proof fn lemma_reassigned_again(
    assets: Seq<AssetView>,
    asset_id: Seq<char>,
    first: Seq<char>,
    second: Seq<char>,
)
    ensures
        reassigned(reassigned(assets, asset_id, first), asset_id, second) == reassigned(
            assets,
            asset_id,
            second,
        ),
        reassigned(assets, asset_id, first).len() == assets.len(),
        forall|i: int|
            0 <= i < assets.len() ==> (#[trigger] reassigned(assets, asset_id, first)[i]).asset_id
                == assets[i].asset_id,
{
}

/// Counting the assets of an owner one place further adds the asset at that
/// place if it is the owner's, and nothing otherwise. An owner never has more
/// assets than there are.
pub proof fn lemma_take_next(assets: Seq<AssetView>, i: int, owner: Seq<char>)
    requires
        0 <= i < assets.len(),
    ensures
        assets_of(assets.take(i + 1), owner) == if assets[i].owner == owner {
            assets_of(assets.take(i), owner).push(assets[i])
        } else {
            assets_of(assets.take(i), owner)
        },
        supply(assets.take(i), owner) <= i,
{
    assert(assets.take(i + 1) =~= assets.take(i).push(assets[i]));
    assets.take(i).lemma_filter_push(assets[i], owned_by(owner));
    assets.take(i).lemma_filter_len(owned_by(owner));
}

/// A ledger with distinct identities stays one when an asset with a new
/// identity is appended.
pub proof fn lemma_push_keeps_distinct(assets: Seq<AssetView>, minted: AssetView)
    requires
        distinct_ids(assets),
        record_of(assets, minted.asset_id) is None,
    ensures
        distinct_ids(assets.push(minted)),
{
    let after = assets.push(minted);
    assert forall|i: int, j: int|
        0 <= i < after.len() && 0 <= j < after.len() && #[trigger] after[i].asset_id
            == #[trigger] after[j].asset_id implies i == j by {
        if i < assets.len() && j == assets.len() {
            lemma_record_at(assets, i, minted.asset_id);
        }
        if j < assets.len() && i == assets.len() {
            lemma_record_at(assets, j, minted.asset_id);
        }
    }
}

/// Making an asset over to another owner neither adds nor removes an asset.
pub proof fn lemma_reassigned_keeps_total(
    assets: Seq<AssetView>,
    asset_id: Seq<char>,
    owner: Seq<char>,
)
    ensures
        reassigned(assets, asset_id, owner).len() == assets.len(),
{
}

/// Every asset is counted for exactly one owner: over any list of distinct
/// owners that names the owner of each asset, the supplies add up to the
/// number of assets.
pub proof fn lemma_supplies_add_up(assets: Seq<AssetView>, owners: Seq<Seq<char>>)
    requires
        owners.no_duplicates(),
        forall|i: int| 0 <= i < assets.len() ==> owners.contains(#[trigger] assets[i].owner),
    ensures
        total_of_supplies(assets, owners) == assets.len(),
    decreases assets.len(),
{
    if assets.len() == 0 {
        lemma_nothing_to_count(assets, owners);
    } else {
        let rest = assets.drop_last();
        let last = assets.last();
        assert(assets =~= rest.push(last));
        assert forall|i: int| 0 <= i < rest.len() implies owners.contains(
            #[trigger] rest[i].owner,
        ) by {
            assert(rest[i] == assets[i]);
        }
        lemma_supplies_add_up(rest, owners);
        lemma_one_more_asset(rest, last, owners);
    }
}

proof fn lemma_nothing_to_count(assets: Seq<AssetView>, owners: Seq<Seq<char>>)
    requires
        assets.len() == 0,
    ensures
        total_of_supplies(assets, owners) == 0,
    decreases owners.len(),
{
    if owners.len() > 0 {
        lemma_nothing_to_count(assets, owners.drop_last());
        assets.lemma_filter_len(owned_by(owners.last()));
    }
}

proof fn lemma_one_more_asset(assets: Seq<AssetView>, minted: AssetView, owners: Seq<Seq<char>>)
    requires
        owners.no_duplicates(),
    ensures
        total_of_supplies(assets.push(minted), owners) == total_of_supplies(assets, owners) + (
        if owners.contains(minted.owner) {
            1nat
        } else {
            0nat
        }),
    decreases owners.len(),
{
    if owners.len() > 0 {
        let rest = owners.drop_last();
        let last = owners.last();
        lemma_one_more_asset(assets, minted, rest);
        assets.lemma_filter_len_push(owned_by(last), minted);
        if rest.contains(minted.owner) {
            let i = choose|i: int| 0 <= i < rest.len() && rest[i] == minted.owner;
            assert(owners[i] == minted.owner);
        } else if last != minted.owner {
            assert(!owners.contains(minted.owner)) by {
                if owners.contains(minted.owner) {
                    let i = choose|i: int| 0 <= i < owners.len() && owners[i] == minted.owner;
                    assert(rest[i] == minted.owner);
                }
            }
        }
    }
}

/// A request that changes the ledger.
pub enum LedgerStep {
    /// Mint this asset to its owner.
    Mint(AssetView),
    /// Make the asset over to a new owner.
    Transfer { asset_id: Seq<char>, new_owner: Seq<char> },
}

impl LedgerStep {
    /// The owner to whom the step gives an asset.
    pub open spec fn beneficiary(self) -> Seq<char> {
        match self {
            LedgerStep::Mint(asset) => asset.owner,
            LedgerStep::Transfer { new_owner, .. } => new_owner,
        }
    }

    /// Whether the step adds an asset to `assets`: it is a mint, and the
    /// identity is not taken.
    pub open spec fn mints_into(self, assets: Seq<AssetView>) -> bool {
        self matches LedgerStep::Mint(asset) && record_of(assets, asset.asset_id) is None
    }
}

/// The ledger after one step. A mint appends the asset, unless its identity
/// is taken; a transfer makes the asset over, if there is such an asset. A
/// step that is refused leaves the ledger as it is.
pub open spec fn stepped(assets: Seq<AssetView>, step: LedgerStep) -> Seq<AssetView> {
    match step {
        LedgerStep::Mint(asset) => if record_of(assets, asset.asset_id) is None {
            assets.push(asset)
        } else {
            assets
        },
        LedgerStep::Transfer { asset_id, new_owner } => reassigned(assets, asset_id, new_owner),
    }
}

/// The ledger after the given steps, taken one after the other from the
/// empty ledger.
pub open spec fn replayed(steps: Seq<LedgerStep>) -> Seq<AssetView>
    decreases steps.len(),
{
    if steps.len() == 0 {
        Seq::empty()
    } else {
        stepped(replayed(steps.drop_last()), steps.last())
    }
}

/// How many of the steps minted an asset.
pub open spec fn mints_among(steps: Seq<LedgerStep>) -> nat
    decreases steps.len(),
{
    if steps.len() == 0 {
        0
    } else {
        mints_among(steps.drop_last()) + if steps.last().mints_into(
            replayed(steps.drop_last()),
        ) {
            1nat
        } else {
            0nat
        }
    }
}

/// After an asset has been made over, the ledger names the new owner for it;
/// its metadata, and the record of every other asset, are as before.
pub proof fn lemma_reassigned_record(
    assets: Seq<AssetView>,
    asset_id: Seq<char>,
    owner: Seq<char>,
    other: Seq<char>,
)
    ensures
        record_of(reassigned(assets, asset_id, owner), asset_id) == match record_of(
            assets,
            asset_id,
        ) {
            Some(record) => Some(
                AssetView { asset_id: record.asset_id, owner, metadata: record.metadata },
            ),
            None => None,
        },
        owner_of(reassigned(assets, asset_id, owner), asset_id) == match owner_of(
            assets,
            asset_id,
        ) {
            Some(_) => Some(owner),
            None => None,
        },
        other != asset_id ==> record_of(reassigned(assets, asset_id, owner), other) == record_of(
            assets,
            other,
        ),
    decreases assets.len(),
{
    if assets.len() > 0 {
        lemma_reassigned_record(assets.drop_last(), asset_id, owner, other);
        assert(reassigned(assets, asset_id, owner).drop_last() =~= reassigned(
            assets.drop_last(),
            asset_id,
            owner,
        ));
    }
}

/// A transfer of an asset that was never minted changes nothing.
pub proof fn lemma_reassigned_unknown(
    assets: Seq<AssetView>,
    asset_id: Seq<char>,
    owner: Seq<char>,
)
    requires
        record_of(assets, asset_id) is None,
    ensures
        reassigned(assets, asset_id, owner) == assets,
{
    assert forall|i: int| 0 <= i < assets.len() implies assets[i].asset_id != asset_id by {
        lemma_record_present(assets, i);
    }
}

/// Every asset of the ledger is on record under its identity.
pub proof fn lemma_record_present(assets: Seq<AssetView>, i: int)
    requires
        0 <= i < assets.len(),
    ensures
        record_of(assets, assets[i].asset_id) is Some,
    decreases assets.len(),
{
    if assets.last().asset_id != assets[i].asset_id {
        lemma_record_present(assets.drop_last(), i);
    }
}

/// However many assets are minted and however they are transferred
/// afterwards, among owners from a list without repetition: no identity is
/// on the ledger twice, the ledger holds as many assets as were minted, and
/// the supplies of the owners add up to that number.
pub proof fn lemma_replayed_counts(steps: Seq<LedgerStep>, owners: Seq<Seq<char>>)
    requires
        owners.no_duplicates(),
        forall|i: int| 0 <= i < steps.len() ==> owners.contains(#[trigger] steps[i].beneficiary()),
    ensures
        distinct_ids(replayed(steps)),
        replayed(steps).len() == mints_among(steps),
        total_of_supplies(replayed(steps), owners) == mints_among(steps),
{
    lemma_replayed(steps, owners);
    lemma_supplies_add_up(replayed(steps), owners);
}

proof fn lemma_replayed(steps: Seq<LedgerStep>, owners: Seq<Seq<char>>)
    requires
        forall|i: int| 0 <= i < steps.len() ==> owners.contains(#[trigger] steps[i].beneficiary()),
    ensures
        distinct_ids(replayed(steps)),
        replayed(steps).len() == mints_among(steps),
        forall|i: int|
            0 <= i < replayed(steps).len() ==> owners.contains(#[trigger] replayed(steps)[i].owner),
    decreases steps.len(),
{
    if steps.len() > 0 {
        let earlier = steps.drop_last();
        let before = replayed(earlier);
        let after = replayed(steps);
        assert forall|i: int| 0 <= i < earlier.len() implies owners.contains(
            #[trigger] earlier[i].beneficiary(),
        ) by {
            assert(earlier[i] == steps[i]);
        }
        lemma_replayed(earlier, owners);
        assert(owners.contains(steps[steps.len() - 1].beneficiary()));
        match steps.last() {
            LedgerStep::Mint(asset) => {
                if record_of(before, asset.asset_id) is None {
                    lemma_push_keeps_distinct(before, asset);
                }
            },
            LedgerStep::Transfer { asset_id, new_owner } => {
                lemma_reassigned_again(before, asset_id, new_owner, new_owner);
                assert forall|i: int| 0 <= i < after.len() implies owners.contains(
                    #[trigger] after[i].owner,
                ) by {
                    assert(after[i].owner == new_owner || after[i].owner == before[i].owner);
                }
            },
        }
    }
}

} // verus!

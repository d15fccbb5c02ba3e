//! The crafting tables of all owners.

use vstd::prelude::*;

use crate::component::BicycleComponent;
use crate::table::CraftingTable;
use crate::text::same_text;

verus! {

/// One owner's record.
#[derive(Debug, PartialEq, Eq)]
struct TableEntry {
    owner: String,
    table: CraftingTable,
}

/// The crafting tables, one per owner. An owner has no table until the first
/// asset is merged for them; a table, once there, is never removed.
#[derive(Debug, PartialEq, Eq)]
pub struct CraftingTables {
    entries: Vec<TableEntry>,
}

/// The table that `tables` holds for `owner`, or the empty table when it
/// holds none.
pub open spec fn table_of(
    tables: Map<Seq<char>, Map<BicycleComponent, Seq<char>>>,
    owner: Seq<char>,
) -> Map<BicycleComponent, Seq<char>> {
    if tables.contains_key(owner) {
        tables[owner]
    } else {
        Map::empty()
    }
}

/// The tables after `asset_id` has been merged into `slot` of `owner`'s table:
/// that slot holds the asset, the owner's other slots and all other owners'
/// tables are as they were.
pub open spec fn merged(
    tables: Map<Seq<char>, Map<BicycleComponent, Seq<char>>>,
    owner: Seq<char>,
    asset_id: Seq<char>,
    slot: BicycleComponent,
) -> Map<Seq<char>, Map<BicycleComponent, Seq<char>>> {
    tables.insert(owner, table_of(tables, owner).insert(slot, asset_id))
}

/// A merge fills exactly one slot: afterwards the owner has a table, the
/// addressed slot of it holds the asset, its other slots are what they were
/// before (empty where the owner had no table), and the other owners' tables
/// are untouched.
pub proof fn lemma_merge_fills_one_slot(
    tables: Map<Seq<char>, Map<BicycleComponent, Seq<char>>>,
    owner: Seq<char>,
    asset_id: Seq<char>,
    slot: BicycleComponent,
)
    ensures
        merged(tables, owner, asset_id, slot).contains_key(owner),
        table_of(merged(tables, owner, asset_id, slot), owner).contains_key(slot),
        table_of(merged(tables, owner, asset_id, slot), owner)[slot] == asset_id,
        table_of(merged(tables, owner, asset_id, slot), owner).remove(slot) == table_of(
            tables,
            owner,
        ).remove(slot),
        merged(tables, owner, asset_id, slot).remove(owner) == tables.remove(owner),
{
}

/// Merging the same asset into the same slot a second time changes nothing.
pub proof fn lemma_merge_idempotent(
    tables: Map<Seq<char>, Map<BicycleComponent, Seq<char>>>,
    owner: Seq<char>,
    asset_id: Seq<char>,
    slot: BicycleComponent,
)
    ensures
        merged(merged(tables, owner, asset_id, slot), owner, asset_id, slot) == merged(
            tables,
            owner,
            asset_id,
            slot,
        ),
{
    let once = merged(tables, owner, asset_id, slot);
    assert(table_of(once, owner).insert(slot, asset_id) =~= table_of(once, owner));
}

impl View for CraftingTables {
    type V = Map<Seq<char>, Map<BicycleComponent, Seq<char>>>;

    /// The owners that have a table, each with the view of that table.
    closed spec fn view(&self) -> Map<Seq<char>, Map<BicycleComponent, Seq<char>>> {
        model(self.entries@)
    }
}

spec fn at(entries: Seq<TableEntry>, i: int, owner: Seq<char>) -> bool {
    0 <= i < entries.len() && entries[i].owner@ == owner
}

spec fn holds(entries: Seq<TableEntry>, owner: Seq<char>) -> bool {
    exists|i: int| at(entries, i, owner)
}

spec fn place(entries: Seq<TableEntry>, owner: Seq<char>) -> int {
    choose|i: int| at(entries, i, owner)
}

spec fn model(entries: Seq<TableEntry>) -> Map<Seq<char>, Map<BicycleComponent, Seq<char>>> {
    Map::new(
        |owner: Seq<char>| holds(entries, owner),
        |owner: Seq<char>| entries[place(entries, owner)].table@,
    )
}

spec fn distinct_owners(entries: Seq<TableEntry>) -> bool {
    forall|i: int, j: int|
        0 <= i < entries.len() && 0 <= j < entries.len() && #[trigger] entries[i].owner@
            == #[trigger] entries[j].owner@ ==> i == j
}

/// Where owners are distinct, the entry of an owner is the one place where
/// that owner stands.
proof fn lemma_place(entries: Seq<TableEntry>, i: int, owner: Seq<char>)
    requires
        distinct_owners(entries),
        at(entries, i, owner),
    ensures
        model(entries).contains_key(owner),
        model(entries)[owner] == entries[i].table@,
{
}

/// Writing the entry at `i`, be it an entry that was `owner`'s before or a
/// new one at the end, sets `owner`'s table and no other.
proof fn lemma_entry_written(
    before: Seq<TableEntry>,
    after: Seq<TableEntry>,
    i: int,
    owner: Seq<char>,
)
    requires
        distinct_owners(before),
        distinct_owners(after),
        at(after, i, owner),
        i < before.len() ==> after.len() == before.len() && at(before, i, owner),
        i >= before.len() ==> after.len() == before.len() + 1 && i == before.len(),
        forall|j: int| 0 <= j < before.len() && j != i ==> after[j] == before[j],
    ensures
        model(after) == model(before).insert(owner, after[i].table@),
{
    lemma_place(after, i, owner);
    assert forall|other: Seq<char>| other != owner implies holds(after, other) == holds(
        before,
        other,
    ) && (holds(before, other) ==> model(after)[other] == model(before)[other]) by {
        if holds(before, other) {
            let p = place(before, other);
            lemma_place(after, p, other);
        }
        if holds(after, other) {
            let p = place(after, other);
            assert(at(before, p, other));
        }
    }
}

impl CraftingTables {
    #[verifier::type_invariant]
    spec fn owners_distinct(&self) -> bool {
        distinct_owners(self.entries@)
    }

    /// No owner has a table yet.
    pub fn new() -> (tables: CraftingTables)
        ensures
            tables@ == Map::<Seq<char>, Map<BicycleComponent, Seq<char>>>::empty(),
    {
        let tables = CraftingTables { entries: Vec::new() };
        assert(tables@ =~= Map::<Seq<char>, Map<BicycleComponent, Seq<char>>>::empty());
        tables
    }

    fn find(&self, owner: &str) -> (found: Option<usize>)
        ensures
            match found {
                Some(i) => at(self.entries@, i as int, owner@),
                None => !holds(self.entries@, owner@),
            },
    {
        let mut i: usize = 0;
        while i < self.entries.len()
            invariant
                i <= self.entries@.len(),
                forall|j: int| 0 <= j < i ==> !at(self.entries@, j, owner@),
            decreases self.entries@.len() - i,
        {
            if same_text(self.entries[i].owner.as_str(), owner) {
                return Some(i);
            }
            i += 1;
        }
        None
    }

    /// The table of `owner`, or `None` when nothing was merged for them yet.
    pub fn get(&self, owner: &str) -> (table: Option<&CraftingTable>)
        ensures
            match table {
                Some(found) => self@.contains_key(owner@) && self@[owner@] == found@,
                None => !self@.contains_key(owner@),
            },
    {
        proof {
            use_type_invariant(self);
        }
        match self.find(owner) {
            Some(i) => {
                proof {
                    lemma_place(self.entries@, i as int, owner@);
                }
                Some(&self.entries[i].table)
            },
            None => None,
        }
    }

    /// Writes `asset_id` into `slot` of `owner`'s table, starting from the
    /// empty table when the owner has none. The owner's other five slots and
    /// every other owner's table are left as they are.
    pub fn merge_slot(&mut self, owner: &str, asset_id: &str, slot: BicycleComponent)
        ensures
            final(self)@ == merged(old(self)@, owner@, asset_id@, slot),
    {
        proof {
            use_type_invariant(&*self);
        }
        let ghost before = self.entries@;
        let found = self.find(owner);
        let mut entries: Vec<TableEntry> = Vec::new();
        core::mem::swap(&mut self.entries, &mut entries);
        let ghost i: int;
        match found {
            Some(at_index) => {
                entries[at_index].table.set_slot(slot, asset_id);
                proof {
                    i = at_index as int;
                    lemma_place(before, i, owner@);
                }
            },
            None => {
                let mut table = CraftingTable::new();
                table.set_slot(slot, asset_id);
                entries.push(TableEntry { owner: owner.to_owned(), table });
                proof {
                    i = before.len() as int;
                    assert forall|j: int, k: int|
                        0 <= j < entries@.len() && 0 <= k < entries@.len()
                            && #[trigger] entries@[j].owner@
                            == #[trigger] entries@[k].owner@ implies j == k by {
                        if j < i && k == i {
                            assert(at(before, j, owner@));
                        }
                        if k < i && j == i {
                            assert(at(before, k, owner@));
                        }
                    }
                }
            },
        }
        proof {
            lemma_entry_written(before, entries@, i, owner@);
        }
        core::mem::swap(&mut self.entries, &mut entries);
    }
}

} // verus!

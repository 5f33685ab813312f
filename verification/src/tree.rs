//! The size of a resource tree when it is written out, measured before
//! it is put into an executable: the offsets of a resource section are
//! 32-bit values.

use vstd::prelude::*;

verus! {

/// `editpe::ResourceTable`: one directory of a resource tree.
#[verifier::external_type_specification]
#[verifier::external_body]
pub struct ExResourceTable(editpe::ResourceTable);

/// The length of an entry's name in bytes, zero for a numbered entry, and
/// the length of its data, `None` for an entry that is a table.
pub type EntrySize = (usize, Option<usize>);

/// The root table of a tree.
pub uninterp spec fn root_of(tree: editpe::ResourceDirectory) -> editpe::ResourceTable;

/// The entries of a table in their order, each as the table that it is;
/// `None` stands for an entry that is data.
pub uninterp spec fn children_of(table: editpe::ResourceTable) -> Seq<
    Option<editpe::ResourceTable>,
>;

/// The sizes of the entries of a table, in their order.
pub uninterp spec fn entry_sizes_of(table: editpe::ResourceTable) -> Seq<EntrySize>;

/// `editpe::ResourceDirectory::root`.
#[verifier::external_body]
fn root_table(tree: &editpe::ResourceDirectory) -> (root: &editpe::ResourceTable)
    ensures
        *root == root_of(*tree),
{
    tree.root()
}

/// The tables that references stand for.
pub open spec fn tables_seq(tables: Seq<Option<&editpe::ResourceTable>>) -> Seq<
    Option<editpe::ResourceTable>,
> {
    Seq::new(
        tables.len(),
        |i: int|
            match tables[i] {
                Some(table) => Some(*table),
                None => None,
            },
    )
}

/// `editpe::ResourceTable::entries`, and for each entry what
/// `ResourceEntry::as_table` gives: the table that it is, or `None`.
#[verifier::external_body]
fn table_children(table: &editpe::ResourceTable) -> (children: Vec<Option<&editpe::ResourceTable>>)
    ensures
        tables_seq(children@) == children_of(*table),
{
    table.entries().into_iter().map(|name| table.get(name).and_then(|e| e.as_table())).collect()
}

/// `editpe::ResourceTable::entries`, and for each entry the bytes of its
/// name and, through `ResourceEntry::as_data`, the length of its data.
#[verifier::external_body]
fn table_entry_sizes(table: &editpe::ResourceTable) -> (sizes: Vec<EntrySize>)
    ensures
        sizes@ == entry_sizes_of(*table),
{
    table.entries().into_iter().map(|name| (
        match name {
            editpe::ResourceEntryName::Name(text) => text.len(),
            editpe::ResourceEntryName::ID(_) => 0,
        },
        table.get(name).and_then(|e| e.as_data()).map(|d| d.data().len()),
    )).collect()
}

/// The bytes that one entry takes: eight in its table, its name, and for
/// data a description of sixteen bytes and the data.
pub open spec fn entry_cost(entry: EntrySize) -> int {
    8 + entry.0 + match entry.1 {
        Some(len) => 16 + len,
        None => 0,
    }
}

/// The bytes that the first `n` entries take.
pub open spec fn entries_cost(sizes: Seq<EntrySize>, n: nat) -> int
    decreases n,
{
    if n == 0 {
        0
    } else {
        entries_cost(sizes, (n - 1) as nat) + entry_cost(sizes[n - 1])
    }
}

/// The bytes that a table takes without the tables under it: a header of
/// sixteen bytes and its entries.
pub open spec fn table_cost(table: editpe::ResourceTable) -> int {
    16 + entries_cost(entry_sizes_of(table), entry_sizes_of(table).len())
}

/// The bytes that an entry takes as a table, without the tables under
/// it; nothing for an entry that is data.
pub open spec fn flat_cost(entry: Option<editpe::ResourceTable>) -> int {
    match entry {
        Some(table) => table_cost(table),
        None => 0,
    }
}

/// The bytes that the tables among the first `n` entries take, each
/// without the tables under it.
pub open spec fn tables_cost(tables: Seq<Option<editpe::ResourceTable>>, n: nat) -> int
    decreases n,
{
    if n == 0 {
        0
    } else {
        tables_cost(tables, (n - 1) as nat) + flat_cost(tables[n - 1])
    }
}

/// None of the first `n` entries is a table.
pub open spec fn no_tables(entries: Seq<Option<editpe::ResourceTable>>, n: nat) -> bool {
    forall|i: int| 0 <= i < n ==> (#[trigger] entries[i]) is None
}

/// The entry is no table, or a table that has no table under it.
pub open spec fn is_flat(entry: Option<editpe::ResourceTable>) -> bool {
    match entry {
        Some(table) => no_tables(children_of(table), children_of(table).len()),
        None => true,
    }
}

/// Among the first `n` entries no table has a table under it.
pub open spec fn all_flat(tables: Seq<Option<editpe::ResourceTable>>, n: nat) -> bool {
    forall|i: int| 0 <= i < n ==> is_flat(#[trigger] tables[i])
}

/// The entry is no table, or a table of the second level that has only
/// flat tables under it.
pub open spec fn branch_is_shallow(entry: Option<editpe::ResourceTable>) -> bool {
    match entry {
        Some(table) => all_flat(children_of(table), children_of(table).len()),
        None => true,
    }
}

/// The bytes that an entry takes as a table of the second level, with
/// the tables under it; nothing for an entry that is data.
pub open spec fn branch_cost(entry: Option<editpe::ResourceTable>) -> int {
    match entry {
        Some(table) => table_cost(table) + tables_cost(
            children_of(table),
            children_of(table).len(),
        ),
        None => 0,
    }
}

/// The bytes that the tables among the first `n` entries take, as tables
/// of the second level.
pub open spec fn branches_cost(tables: Seq<Option<editpe::ResourceTable>>, n: nat) -> int
    decreases n,
{
    if n == 0 {
        0
    } else {
        branches_cost(tables, (n - 1) as nat) + branch_cost(tables[n - 1])
    }
}

/// The tables among the first `n` entries are shallow.
pub open spec fn all_shallow(tables: Seq<Option<editpe::ResourceTable>>, n: nat) -> bool {
    forall|i: int| 0 <= i < n ==> branch_is_shallow(#[trigger] tables[i])
}

/// The tree has tables on three levels at most: types, names, languages.
pub open spec fn tree_is_shallow(tree: editpe::ResourceDirectory) -> bool {
    all_shallow(children_of(root_of(tree)), children_of(root_of(tree)).len())
}

/// The bytes that a shallow tree takes when it is written out.
pub open spec fn tree_cost(tree: editpe::ResourceDirectory) -> int {
    table_cost(root_of(tree)) + branches_cost(
        children_of(root_of(tree)),
        children_of(root_of(tree)).len(),
    )
}

/// The tree is shallow and takes no more than `limit` bytes.
pub open spec fn tree_fits(tree: editpe::ResourceDirectory, limit: int) -> bool {
    tree_is_shallow(tree) && tree_cost(tree) <= limit
}

/// The most that any limit can be: offsets stay below 2^31.
pub const WEIGHT_CAP: u64 = 0x7fff_ffff;

/// Entries take no negative number of bytes, and more entries take no
/// fewer.
proof fn lemma_entries_cost_grows(sizes: Seq<EntrySize>, n: nat, m: nat)
    requires
        n <= m,
    ensures
        0 <= entries_cost(sizes, n) <= entries_cost(sizes, m),
    decreases m,
{
    if n < m {
        lemma_entries_cost_grows(sizes, n, (m - 1) as nat);
    } else if n > 0 {
        lemma_entries_cost_grows(sizes, (n - 1) as nat, (n - 1) as nat);
    }
}

/// A table takes no negative number of bytes.
proof fn lemma_flat_cost_bounds(entry: Option<editpe::ResourceTable>)
    ensures
        0 <= flat_cost(entry),
{
    if let Some(table) = entry {
        lemma_entries_cost_grows(entry_sizes_of(table), 0, entry_sizes_of(table).len());
    }
}

/// Tables take no negative number of bytes, and more tables take no
/// fewer.
proof fn lemma_tables_cost_grows(tables: Seq<Option<editpe::ResourceTable>>, n: nat, m: nat)
    requires
        n <= m,
    ensures
        0 <= tables_cost(tables, n) <= tables_cost(tables, m),
    decreases m,
{
    if n < m {
        lemma_tables_cost_grows(tables, n, (m - 1) as nat);
        lemma_flat_cost_bounds(tables[m - 1]);
    } else if n > 0 {
        lemma_tables_cost_grows(tables, (n - 1) as nat, (n - 1) as nat);
        lemma_flat_cost_bounds(tables[n - 1]);
    }
}

/// A table with the tables under it takes no negative number of bytes.
proof fn lemma_branch_cost_bounds(entry: Option<editpe::ResourceTable>)
    ensures
        0 <= branch_cost(entry),
{
    if let Some(table) = entry {
        lemma_flat_cost_bounds(entry);
        lemma_tables_cost_grows(children_of(table), 0, children_of(table).len());
    }
}

/// Tables with the tables under them take no negative number of bytes,
/// and more of them take no fewer.
proof fn lemma_branches_cost_grows(tables: Seq<Option<editpe::ResourceTable>>, n: nat, m: nat)
    requires
        n <= m,
    ensures
        0 <= branches_cost(tables, n) <= branches_cost(tables, m),
    decreases m,
{
    if n < m {
        lemma_branches_cost_grows(tables, n, (m - 1) as nat);
        lemma_branch_cost_bounds(tables[m - 1]);
    } else if n > 0 {
        lemma_branches_cost_grows(tables, (n - 1) as nat, (n - 1) as nat);
        lemma_branch_cost_bounds(tables[n - 1]);
    }
}

/// The bytes of a table without the tables under it, where they are no
/// more than `limit`.
fn weigh_table(table: &editpe::ResourceTable, limit: u64) -> (r: Option<u64>)
    requires
        limit <= WEIGHT_CAP,
    ensures
        match r {
            Some(cost) => cost == table_cost(*table) && cost <= limit,
            None => table_cost(*table) > limit,
        },
{
    let sizes = table_entry_sizes(table);
    let mut cost: u64 = 16;
    let mut i: usize = 0;
    while i < sizes.len()
        invariant
            i <= sizes.len(),
            limit <= WEIGHT_CAP,
            sizes@ == entry_sizes_of(*table),
            cost == 16 + entries_cost(sizes@, i as nat),
            cost <= limit || i == 0,
            cost <= WEIGHT_CAP + 16,
        decreases sizes.len() - i,
    {
        let (name, data) = sizes[i];
        let data_cost: u64 = match data {
            Some(len) => {
                if len as u64 > WEIGHT_CAP as u64 {
                    proof {
                        lemma_entries_cost_grows(sizes@, (i + 1) as nat, sizes@.len());
                        lemma_entries_cost_grows(sizes@, 0, i as nat);
                    }
                    return None;
                }
                16 + len as u64
            },
            None => 0,
        };
        if name as u64 > WEIGHT_CAP as u64 || 8 + name as u64 + data_cost > limit || cost + 8
            + name as u64 + data_cost > limit {
            proof {
                lemma_entries_cost_grows(sizes@, (i + 1) as nat, sizes@.len());
                lemma_entries_cost_grows(sizes@, 0, i as nat);
            }
            return None;
        }
        cost = cost + 8 + name as u64 + data_cost;
        i += 1;
    }
    if cost > limit {
        return None;
    }
    Some(cost)
}

/// Tests whether no entry is a table.
fn holds_no_table(entries: &Vec<Option<&editpe::ResourceTable>>) -> (ok: bool)
    ensures
        ok == no_tables(tables_seq(entries@), entries@.len()),
{
    let mut i: usize = 0;
    while i < entries.len()
        invariant
            i <= entries.len(),
            no_tables(tables_seq(entries@), i as nat),
        decreases entries.len() - i,
    {
        if entries[i].is_some() {
            assert(tables_seq(entries@)[i as int] is Some);
            return false;
        }
        assert(tables_seq(entries@)[i as int] is None);
        i += 1;
    }
    true
}

/// The bytes of the tables among the entries, where none of them has a
/// table under it and they take no more than `limit`.
fn weigh_flat(tables: &Vec<Option<&editpe::ResourceTable>>, limit: u64) -> (r: Option<u64>)
    requires
        limit <= WEIGHT_CAP,
    ensures
        match r {
            Some(cost) => all_flat(tables_seq(tables@), tables@.len()) && cost == tables_cost(
                tables_seq(tables@),
                tables@.len(),
            ) && cost <= limit,
            None => !(all_flat(tables_seq(tables@), tables@.len()) && tables_cost(
                tables_seq(tables@),
                tables@.len(),
            ) <= limit),
        },
{
    let ghost all = tables_seq(tables@);
    let mut cost: u64 = 0;
    let mut i: usize = 0;
    while i < tables.len()
        invariant
            i <= tables.len(),
            limit <= WEIGHT_CAP,
            all == tables_seq(tables@),
            all_flat(all, i as nat),
            cost == tables_cost(all, i as nat),
            cost <= limit,
        decreases tables.len() - i,
    {
        if let Some(table) = tables[i] {
            assert(all[i as int] == Some(*table));
            if !holds_no_table(&table_children(table)) {
                assert(!is_flat(all[i as int]));
                return None;
            }
            match weigh_table(table, limit - cost) {
                Some(own) => {
                    cost = cost + own;
                },
                None => {
                    proof {
                        lemma_tables_cost_grows(all, (i + 1) as nat, all.len());
                    }
                    return None;
                },
            }
        } else {
            assert(all[i as int] is None);
        }
        i += 1;
    }
    Some(cost)
}

/// The bytes of the tables among the entries, as tables of the second
/// level, where they are shallow and take no more than `limit`.
fn weigh_branches(tables: &Vec<Option<&editpe::ResourceTable>>, limit: u64) -> (r: Option<u64>)
    requires
        limit <= WEIGHT_CAP,
    ensures
        match r {
            Some(cost) => all_shallow(tables_seq(tables@), tables@.len()) && cost
                == branches_cost(tables_seq(tables@), tables@.len()) && cost <= limit,
            None => !(all_shallow(tables_seq(tables@), tables@.len()) && branches_cost(
                tables_seq(tables@),
                tables@.len(),
            ) <= limit),
        },
{
    let ghost all = tables_seq(tables@);
    let mut cost: u64 = 0;
    let mut i: usize = 0;
    while i < tables.len()
        invariant
            i <= tables.len(),
            limit <= WEIGHT_CAP,
            all == tables_seq(tables@),
            all_shallow(all, i as nat),
            cost == branches_cost(all, i as nat),
            cost <= limit,
        decreases tables.len() - i,
    {
        if let Some(table) = tables[i] {
            assert(all[i as int] == Some(*table));
            let own = match weigh_table(table, limit - cost) {
                Some(own) => own,
                None => {
                    proof {
                        lemma_branches_cost_grows(all, (i + 1) as nat, all.len());
                        lemma_tables_cost_grows(
                            children_of(*table),
                            0,
                            children_of(*table).len(),
                        );
                    }
                    return None;
                },
            };
            let children = table_children(table);
            match weigh_flat(&children, limit - cost - own) {
                Some(below) => {
                    cost = cost + own + below;
                },
                None => {
                    proof {
                        lemma_branches_cost_grows(all, (i + 1) as nat, all.len());
                        assert(!branch_is_shallow(all[i as int]) || branch_cost(all[i as int])
                            > limit - cost);
                    }
                    return None;
                },
            }
        } else {
            assert(all[i as int] is None);
        }
        i += 1;
    }
    Some(cost)
}

/// Tests whether the tree is shallow and takes no more than `limit`
/// bytes when it is written out.
pub fn tree_has_room(tree: &editpe::ResourceDirectory, limit: u64) -> (ok: bool)
    requires
        limit <= WEIGHT_CAP,
    ensures
        ok == tree_fits(*tree, limit as int),
{
    let root = root_table(tree);
    let own = match weigh_table(root, limit) {
        Some(own) => own,
        None => {
            proof {
                lemma_branches_cost_grows(
                    children_of(*root),
                    0,
                    children_of(*root).len(),
                );
            }
            return false;
        },
    };
    let children = table_children(root);
    weigh_branches(&children, limit - own).is_some()
}

} // verus!

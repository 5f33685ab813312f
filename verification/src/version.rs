//! The version-information block: a fixed numeric record and string
//! tables keyed by language and code page.

use vstd::prelude::*;
use crate::strings::{
    distinct_keys, lemma_upsert, pairs_view, upsert, value_of, Entry, StringMap,
};

verus! {

/// `editpe::VersionStringTable`: a key and the named strings under it.
/// What it holds is known only through [`string_table_key`] and
/// [`string_table_entries`].
#[verifier::external_type_specification]
#[verifier::external_body]
pub struct ExVersionStringTable(editpe::VersionStringTable);

/// `editpe::types::FixedFileInfo`: the fixed numeric version record,
/// carried through as it is.
#[verifier::external_type_specification]
#[verifier::external_body]
pub struct ExFixedFileInfo(editpe::types::FixedFileInfo);

/// `editpe::types::VersionU16`: one translation of a version block,
/// carried through as it is.
#[verifier::external_type_specification]
#[verifier::external_body]
pub struct ExVersionU16(editpe::types::VersionU16);

/// The language and code-page key of a version string table.
pub uninterp spec fn string_table_key(table: editpe::VersionStringTable) -> Seq<char>;

/// The named strings that a version string table holds, in their order.
pub uninterp spec fn string_table_entries(table: editpe::VersionStringTable) -> Seq<Entry>;

/// `editpe::VersionStringTable { key, strings: IndexMap::default() }`: a
/// table with the given key and no string.
#[verifier::external_body]
fn new_string_table(key: &str) -> (table: editpe::VersionStringTable)
    ensures
        string_table_key(table) == key@,
        string_table_entries(table) == Seq::<Entry>::empty(),
{
    editpe::VersionStringTable { key: key.to_string(), strings: Default::default() }
}

/// The `key` field of `editpe::VersionStringTable`.
#[verifier::external_body]
fn table_key(table: &editpe::VersionStringTable) -> (key: &String)
    ensures
        key@ == string_table_key(*table),
{
    &table.key
}

/// `IndexMap::insert` on the `strings` of a table: a name that is present
/// keeps its place and gets the new value, a new name goes to the end. The
/// table's key stays.
#[verifier::external_body]
fn table_insert(table: &mut editpe::VersionStringTable, name: String, value: String)
    ensures
        string_table_entries(*final(table)) == upsert(
            string_table_entries(*old(table)),
            name@,
            value@,
        ),
        string_table_key(*final(table)) == string_table_key(*old(table)),
{
    table.strings.insert(name, value);
}

/// The `strings` of a table, each name and value cloned, in their order.
#[verifier::external_body]
fn table_entries(table: &editpe::VersionStringTable) -> (entries: Vec<(String, String)>)
    ensures
        pairs_view(entries@) == string_table_entries(*table),
{
    table.strings.iter().map(|(name, value)| (name.clone(), value.clone())).collect()
}

/// A string table as a specification sees it.
pub struct TableView {
    pub key: Seq<char>,
    pub entries: Seq<Entry>,
}

/// A version-information block as a specification sees it.
pub struct VersionInfoView {
    pub fixed: editpe::types::FixedFileInfo,
    pub tables: Seq<TableView>,
    pub vars: Seq<editpe::types::VersionU16>,
}

/// The view of one table.
pub open spec fn table_view(table: editpe::VersionStringTable) -> TableView {
    TableView { key: string_table_key(table), entries: string_table_entries(table) }
}

/// The views of the tables of a vector.
pub open spec fn tables_view(tables: Seq<editpe::VersionStringTable>) -> Seq<TableView> {
    Seq::new(tables.len(), |i: int| table_view(tables[i]))
}

/// The key of the table that edits go to: US English, Unicode.
pub open spec fn default_table_key() -> Seq<char> {
    "040904b0"@
}

/// The place of the first table with the given key.
pub open spec fn first_table(tables: Seq<TableView>, key: Seq<char>) -> Option<int> {
    if exists|i: int| 0 <= i < tables.len() && (#[trigger] tables[i]).key == key {
        Some(
            choose|i: int|
                0 <= i < tables.len() && (#[trigger] tables[i]).key == key && forall|j: int|
                    0 <= j < i ==> (#[trigger] tables[j]).key != key,
        )
    } else {
        None
    }
}

/// The entries with a version written in: it becomes both the file
/// version and the product version.
pub open spec fn with_version(entries: Seq<Entry>, version: Option<Seq<char>>) -> Seq<Entry> {
    match version {
        Some(v) => upsert(upsert(entries, "FileVersion"@, v), "ProductVersion"@, v),
        None => entries,
    }
}

/// The entries with the first `n` of the given strings stored one after
/// another, later ones overwriting earlier ones of the same name.
pub open spec fn with_strings(entries: Seq<Entry>, strings: Seq<Entry>, n: nat) -> Seq<Entry>
    decreases n,
{
    if n == 0 {
        entries
    } else {
        upsert(with_strings(entries, strings, (n - 1) as nat), strings[n - 1].0, strings[n - 1].1)
    }
}

/// The entries of a table after an edit: first the version, then every
/// string asked for.
pub open spec fn edited_entries(
    entries: Seq<Entry>,
    version: Option<Seq<char>>,
    strings: Seq<Entry>,
) -> Seq<Entry> {
    with_strings(with_version(entries, version), strings, strings.len())
}

/// The tables after an edit: the first table with the default key gets
/// the edit; where there is none, one is added at the end.
pub open spec fn edited_tables(
    tables: Seq<TableView>,
    version: Option<Seq<char>>,
    strings: Seq<Entry>,
) -> Seq<TableView> {
    match first_table(tables, default_table_key()) {
        Some(i) => tables.update(
            i,
            TableView {
                key: tables[i].key,
                entries: edited_entries(tables[i].entries, version, strings),
            },
        ),
        None => tables.push(
            TableView {
                key: default_table_key(),
                entries: edited_entries(Seq::empty(), version, strings),
            },
        ),
    }
}

/// The fixed version record and the string tables of an executable.
pub struct VersionInfoBlock {
    pub(crate) fixed: editpe::types::FixedFileInfo,
    pub(crate) tables: Vec<editpe::VersionStringTable>,
    pub(crate) vars: Vec<editpe::types::VersionU16>,
}

impl View for VersionInfoBlock {
    type V = VersionInfoView;

    closed spec fn view(&self) -> VersionInfoView {
        VersionInfoView { fixed: self.fixed, tables: tables_view(self.tables@), vars: self.vars@ }
    }
}

/// `editpe::VersionInfo::default()`, field by field: the crate's default
/// fixed record, no string table and no translation.
#[verifier::external_body]
fn default_block() -> (block: VersionInfoBlock)
    ensures
        fixed_info_numbers(block@.fixed) == default_fixed_numbers(),
        block@.tables == Seq::<TableView>::empty(),
        block@.vars == Seq::<editpe::types::VersionU16>::empty(),
{
    let info = editpe::VersionInfo::default();
    VersionInfoBlock { fixed: info.info, tables: info.strings, vars: info.vars }
}

/// Writes a request into one table: the version, if any, as file version
/// and product version, then every string asked for.
fn write_entries(
    table: &mut editpe::VersionStringTable,
    version: Option<&String>,
    strings: &StringMap,
)
    ensures
        string_table_key(*final(table)) == string_table_key(*old(table)),
        string_table_entries(*final(table)) == edited_entries(
            string_table_entries(*old(table)),
            match version {
                Some(v) => Some(v@),
                None => None,
            },
            strings@,
        ),
{
    if let Some(v) = version {
        table_insert(table, "FileVersion".to_owned(), v.clone());
        table_insert(table, "ProductVersion".to_owned(), v.clone());
    }
    let ghost base = string_table_entries(*table);
    let mut i: usize = 0;
    while i < strings.len()
        invariant
            i <= strings@.len(),
            string_table_key(*table) == string_table_key(*old(table)),
            string_table_entries(*table) == with_strings(base, strings@, i as nat),
        decreases strings@.len() - i,
    {
        table_insert(table, strings.key_at(i).clone(), strings.value_at(i).clone());
        i += 1;
    }
}

impl VersionInfoBlock {
    /// The block to start from where an executable has none: the fixed
    /// record that a new version resource starts with, no string table and
    /// no translation.
    pub fn empty() -> (block: VersionInfoBlock)
        ensures
            fixed_info_numbers(block@.fixed) == default_fixed_numbers(),
            block@.tables == Seq::<TableView>::empty(),
            block@.vars == Seq::<editpe::types::VersionU16>::empty(),
    {
        default_block()
    }

    /// The numbers of the fixed record, in the order of its fields.
    pub fn fixed_numbers(&self) -> (numbers: Vec<u64>)
        ensures
            numbers_view(numbers@) == fixed_info_numbers(self@.fixed),
    {
        fixed_numbers_of(&self.fixed)
    }

    /// The block that an edit writes back, given what was read from the
    /// executable: that block, or an empty one where there was none, with
    /// the request written into it as [`VersionInfoBlock::apply_request`]
    /// says.
    pub fn edited(
        found: Option<VersionInfoBlock>,
        version: Option<&String>,
        strings: &StringMap,
    ) -> (block: VersionInfoBlock)
        ensures
            block@.tables == edited_tables(
                match found {
                    Some(existing) => existing@.tables,
                    None => Seq::empty(),
                },
                match version {
                    Some(v) => Some(v@),
                    None => None,
                },
                strings@,
            ),
            found matches Some(existing) ==> block@.fixed == existing@.fixed && block@.vars
                == existing@.vars,
            found is None ==> block@.vars == Seq::<editpe::types::VersionU16>::empty()
                && fixed_info_numbers(block@.fixed) == default_fixed_numbers(),
    {
        let mut block = match found {
            Some(existing) => existing,
            None => VersionInfoBlock::empty(),
        };
        block.apply_request(version, strings);
        block
    }

    /// Number of string tables.
    pub fn table_count(&self) -> (n: usize)
        ensures
            n == self@.tables.len(),
    {
        self.tables.len()
    }

    /// The key of the table at a place.
    pub fn key_of(&self, i: usize) -> (key: &String)
        requires
            i < self@.tables.len(),
        ensures
            key@ == self@.tables[i as int].key,
    {
        table_key(&self.tables[i])
    }

    /// The named strings of the table at a place, in their order.
    pub fn entries_of(&self, i: usize) -> (entries: Vec<(String, String)>)
        requires
            i < self@.tables.len(),
        ensures
            pairs_view(entries@) == self@.tables[i as int].entries,
    {
        table_entries(&self.tables[i])
    }

    /// The place of the first table with the given key.
    pub fn find_table(&self, key: &str) -> (r: Option<usize>)
        ensures
            match r {
                Some(i) => first_table(self@.tables, key@) == Some(i as int) && i
                    < self@.tables.len(),
                None => first_table(self@.tables, key@) is None,
            },
    {
        let wanted = key.to_owned();
        let mut i: usize = 0;
        while i < self.tables.len()
            invariant
                i <= self.tables.len(),
                wanted@ == key@,
                forall|j: int| 0 <= j < i ==> (#[trigger] self@.tables[j]).key != key@,
            decreases self.tables.len() - i,
        {
            if *table_key(&self.tables[i]) == wanted {
                assert(self@.tables[i as int].key == key@);
                return Some(i);
            }
            i += 1;
        }
        None
    }

    /// Writes a request into the block: the table with the default key
    /// gets the version, if any, as file version and product version, and
    /// then every string asked for; where no table has that key, one is
    /// added. The fixed record and the translations stay as they are.
    pub fn apply_request(&mut self, version: Option<&String>, strings: &StringMap)
        ensures
            final(self)@ == (VersionInfoView {
                tables: edited_tables(
                    old(self)@.tables,
                    match version {
                        Some(v) => Some(v@),
                        None => None,
                    },
                    strings@,
                ),
                ..old(self)@
            }),
    {
        let ghost before = self@.tables;
        let ghost wanted = match version {
            Some(v) => Some(v@),
            None => None,
        };
        match self.find_table("040904b0") {
            Some(i) => {
                let ghost held = self.tables@;
                let mut table = self.tables.remove(i);
                write_entries(&mut table, version, strings);
                self.tables.insert(i, table);
                proof {
                    let expected = before.update(
                        i as int,
                        TableView {
                            key: before[i as int].key,
                            entries: edited_entries(before[i as int].entries, wanted, strings@),
                        },
                    );
                    assert(table_view(held[i as int]) == before[i as int]);
                    assert forall|j: int| 0 <= j < expected.len() implies self@.tables[j]
                        == expected[j] by {
                        if j != i {
                            assert(self.tables@[j] == held[j]);
                            assert(table_view(held[j]) == before[j]);
                        }
                    }
                    assert(self@.tables =~= expected);
                }
            },
            None => {
                let ghost held = self.tables@;
                let mut table = new_string_table("040904b0");
                write_entries(&mut table, version, strings);
                self.tables.push(table);
                proof {
                    let expected = before.push(
                        TableView {
                            key: default_table_key(),
                            entries: edited_entries(Seq::empty(), wanted, strings@),
                        },
                    );
                    assert forall|j: int| 0 <= j < expected.len() implies self@.tables[j]
                        == expected[j] by {
                        if j < held.len() {
                            assert(self.tables@[j] == held[j]);
                            assert(table_view(held[j]) == before[j]);
                        }
                    }
                    assert(self@.tables =~= expected);
                }
            },
        }
    }
}

/// The thirteen numbers of a fixed version record, in the order of its
/// fields: the signature; the structure version, the file version and
/// the product version, each as major and minor; the flags mask and the
/// flags; the operating system, the file type and the file subtype; the
/// file date.
pub uninterp spec fn fixed_info_numbers(info: editpe::types::FixedFileInfo) -> Seq<int>;

/// The numbers of the record that a new block starts with: the
/// signature of a fixed record, structure version 0.1, file version and
/// product version 1.0, all six flags in the mask and none set, the
/// operating system and file type of a 32-bit Windows application, no
/// subtype and no date.
pub open spec fn default_fixed_numbers() -> Seq<int> {
    seq![0xfeef_04bd, 0, 1, 1, 0, 1, 0, 0x3f, 0, 0x0004_0004, 1, 0, 0]
}

/// Numbers as a specification sees them.
pub open spec fn numbers_view(numbers: Seq<u64>) -> Seq<int> {
    Seq::new(numbers.len(), |i: int| numbers[i] as int)
}

/// The fields of `editpe::types::FixedFileInfo`, one number for each, in
/// the order in which the record declares them.
#[verifier::external_body]
fn fixed_numbers_of(info: &editpe::types::FixedFileInfo) -> (numbers: Vec<u64>)
    ensures
        numbers_view(numbers@) == fixed_info_numbers(*info),
{
    vec![
        info.signature as u64,
        info.struct_version.major as u64,
        info.struct_version.minor as u64,
        info.file_version.major as u64,
        info.file_version.minor as u64,
        info.product_version.major as u64,
        info.product_version.minor as u64,
        info.file_flags_mask as u64,
        info.file_flags as u64,
        info.file_os as u64,
        info.file_type as u64,
        info.file_subtype as u64,
        info.file_date,
    ]
}

/// Whether one of the first `n` strings has the given name.
pub open spec fn named_among(strings: Seq<Entry>, n: nat, name: Seq<char>) -> bool {
    exists|k: int| 0 <= k < n && (#[trigger] strings[k]).0 == name
}

/// What storing the first `n` strings does: each of them is then present
/// with its value, and every other name is as it was.
pub proof fn lemma_with_strings(entries: Seq<Entry>, strings: Seq<Entry>, n: nat)
    requires
        distinct_keys(entries),
        distinct_keys(strings),
        n <= strings.len(),
    ensures
        distinct_keys(with_strings(entries, strings, n)),
        forall|k: int|
            0 <= k < n ==> value_of(with_strings(entries, strings, n), (#[trigger] strings[k]).0)
                == Some(strings[k].1),
        forall|name: Seq<char>|
            !named_among(strings, n, name) ==> value_of(with_strings(entries, strings, n), name)
                == value_of(entries, name),
    decreases n,
{
    if n > 0 {
        let before = with_strings(entries, strings, (n - 1) as nat);
        let key = strings[n - 1].0;
        let value = strings[n - 1].1;
        lemma_with_strings(entries, strings, (n - 1) as nat);
        lemma_upsert(before, key, value);
        let after = with_strings(entries, strings, n);
        assert forall|k: int| 0 <= k < n implies value_of(after, (#[trigger] strings[k]).0)
            == Some(strings[k].1) by {
            if k < n - 1 {
                assert(strings[k].0 != strings[n - 1].0);
            }
        }
        assert forall|name: Seq<char>| !named_among(strings, n, name) implies value_of(
            after,
            name,
        ) == value_of(entries, name) by {
            assert(strings[n - 1].0 != name);
            assert(!named_among(strings, (n - 1) as nat, name)) by {
                if named_among(strings, (n - 1) as nat, name) {
                    let k = choose|k: int| 0 <= k < n - 1 && (#[trigger] strings[k]).0 == name;
                    assert(0 <= k < n && strings[k].0 == name);
                }
            }
        }
    }
}

/// What an edit leaves in a table. A name among the strings asked for has
/// the value asked for. Otherwise, where a version was given, the file
/// version and the product version are that version. Every other name is
/// as it was.
pub proof fn lemma_edited_entries(
    entries: Seq<Entry>,
    version: Option<Seq<char>>,
    strings: Seq<Entry>,
    name: Seq<char>,
)
    requires
        distinct_keys(entries),
        distinct_keys(strings),
    ensures
        distinct_keys(edited_entries(entries, version, strings)),
        value_of(edited_entries(entries, version, strings), name) == (if named_among(
            strings,
            strings.len(),
            name,
        ) {
            value_of(strings, name)
        } else if version is Some && (name == "FileVersion"@ || name == "ProductVersion"@) {
            version
        } else {
            value_of(entries, name)
        }),
{
    reveal_strlit("FileVersion");
    reveal_strlit("ProductVersion");
    assert("FileVersion"@ != "ProductVersion"@) by {
        assert("FileVersion"@.len() == 11);
        assert("ProductVersion"@.len() == 14);
    }
    let based = with_version(entries, version);
    if let Some(v) = version {
        lemma_upsert(entries, "FileVersion"@, v);
        lemma_upsert(upsert(entries, "FileVersion"@, v), "ProductVersion"@, v);
    }
    lemma_with_strings(based, strings, strings.len());
    if named_among(strings, strings.len(), name) {
        let k = choose|k: int| 0 <= k < strings.len() && (#[trigger] strings[k]).0 == name;
        let c = choose|c: int| 0 <= c < strings.len() && (#[trigger] strings[c]).0 == name;
        if c != k {
            if c < k {
                assert(strings[c].0 != strings[k].0);
            } else {
                assert(strings[k].0 != strings[c].0);
            }
        }
    }
}

} // verus!

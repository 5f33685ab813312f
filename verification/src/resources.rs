//! The resource tree of an executable: the icon and version-information
//! subtrees are rewritten through the `editpe` crate.

use vstd::prelude::*;
use crate::container::{layout_of, ExecutableImage};
use crate::error::{EditError, ErrorKind};
use crate::strings::{distinct_keys, Entry, StringMap};
use crate::tree::{tree_fits, tree_has_room, WEIGHT_CAP};
use crate::version::{
    default_fixed_numbers, edited_tables, fixed_info_numbers, TableView, VersionInfoBlock,
    VersionInfoView,
};

verus! {

/// `editpe::Image`: an executable as the crate parsed it, carried from
/// one call to the next.
#[verifier::external_type_specification]
#[verifier::external_body]
pub struct ExImage<'a>(editpe::Image<'a>);

/// `editpe::ResourceDirectory`: the resource tree of an executable,
/// carried from one call to the next.
#[verifier::external_type_specification]
#[verifier::external_body]
pub struct ExResourceDirectory(editpe::ResourceDirectory);

/// `editpe::ImageReadError`: why an executable could not be parsed.
#[verifier::external_type_specification]
#[verifier::external_body]
pub struct ExImageReadError(editpe::ImageReadError);

/// `editpe::ImageWriteError`: why a resource tree could not be put in.
#[verifier::external_type_specification]
#[verifier::external_body]
pub struct ExImageWriteError(editpe::ImageWriteError);

/// `editpe::ResourceError`: why a resource could not be read or set.
#[verifier::external_type_specification]
#[verifier::external_body]
pub struct ExResourceError(editpe::ResourceError);

/// Type code of the icon subtree.
pub const ICON_TYPE: u32 = 3;

/// Type code of the icon-group subtree.
pub const ICON_GROUP_TYPE: u32 = 14;

/// Type code of the version-information subtree.
pub const VERSION_TYPE: u32 = 16;

/// An icon container is at least a six-byte directory and one entry of
/// sixteen bytes.
pub const SMALLEST_ICON_CONTAINER: usize = 22;

/// The most entries that a table may hold for an edit to be made: the
/// tables count their entries in sixteen bits, and an edit adds up to two.
pub const TABLE_ROOM: usize = 65533;

/// One line of the section table, as plain numbers.
#[derive(Clone, Copy, Debug, PartialEq, Eq, Structural)]
pub struct Section {
    pub virtual_address: u32,
    pub virtual_size: u32,
    pub raw_pointer: u32,
    pub raw_size: u32,
}

/// The executable that `editpe` makes of bytes, where it accepts them.
pub uninterp spec fn opened(bytes: Seq<u8>) -> Option<editpe::Image<'static>>;

/// The bytes that an executable holds.
pub uninterp spec fn container_data(image: editpe::Image<'static>) -> Seq<u8>;

/// The section table of an executable.
pub uninterp spec fn sections_of(image: editpe::Image<'static>) -> Seq<Section>;

/// The address and size in the resource entry of the data-directory
/// table, where the table has that entry.
pub uninterp spec fn resource_entry_of(image: editpe::Image<'static>) -> Option<(u32, u32)>;

/// The section alignment in the header of an executable.
pub uninterp spec fn alignment_of(image: editpe::Image<'static>) -> u32;

/// The resource tree of an executable, empty where it has none.
pub uninterp spec fn tree_of(image: editpe::Image<'static>) -> editpe::ResourceDirectory;

/// Number of entries of the root table of a tree.
pub uninterp spec fn root_count(tree: editpe::ResourceDirectory) -> nat;

/// Number of entries of the table under a numbered type; zero where the
/// root has no table under it.
pub uninterp spec fn type_count(tree: editpe::ResourceDirectory, type_code: int) -> nat;

/// Number of entries of the table that the first entry of the table
/// under a numbered type is; zero where there is no such table.
pub uninterp spec fn first_inner_count(tree: editpe::ResourceDirectory, type_code: int) -> nat;

/// The tree without the subtree of a numbered type.
pub uninterp spec fn without_type(
    tree: editpe::ResourceDirectory,
    type_code: int,
) -> editpe::ResourceDirectory;

/// The tree with the given icon container as its main icon, where the
/// container is accepted.
pub uninterp spec fn with_main_icon(tree: editpe::ResourceDirectory, icon: Seq<u8>) -> Option<
    editpe::ResourceDirectory,
>;

/// The version information read from a tree: `None` where it is
/// malformed, `Some(None)` where the tree has none.
pub uninterp spec fn version_read(tree: editpe::ResourceDirectory) -> Option<
    Option<VersionInfoView>,
>;

/// The tree with the given version information, the fixed record given
/// by its numbers, where the block can be written.
pub uninterp spec fn with_version_info(
    tree: editpe::ResourceDirectory,
    fixed: Seq<int>,
    tables: Seq<TableView>,
    vars: Seq<editpe::types::VersionU16>,
) -> Option<editpe::ResourceDirectory>;

/// The executable with the given tree put in, where it can be.
pub uninterp spec fn installed(
    image: editpe::Image<'static>,
    tree: editpe::ResourceDirectory,
) -> Option<editpe::Image<'static>>;

/// `editpe::Image::parse` on a copy of the bytes.
#[verifier::external_body]
fn open_container(bytes: &Vec<u8>) -> (r: Result<editpe::Image<'static>, editpe::ImageReadError>)
    ensures
        match r {
            Ok(image) => opened(bytes@) == Some(image),
            Err(_) => opened(bytes@) is None,
        },
{
    editpe::Image::parse(bytes.clone())
}

/// `editpe::Image::section_table`, each line as four numbers.
#[verifier::external_body]
fn section_table(image: &editpe::Image<'static>) -> (sections: Vec<Section>)
    ensures
        sections@ == sections_of(*image),
{
    image.section_table().iter().map(|s| Section {
        virtual_address: s.virtual_address,
        virtual_size: s.virtual_size,
        raw_pointer: s.pointer_to_raw_data,
        raw_size: s.size_of_raw_data,
    }).collect()
}

/// `editpe::Image::data_directory` for the resource table, as two numbers.
#[verifier::external_body]
fn resource_entry(image: &editpe::Image<'static>) -> (entry: Option<(u32, u32)>)
    ensures
        entry == resource_entry_of(*image),
{
    image.data_directory(editpe::DataDirectoryType::ResourceTable).map(|d| (d.virtual_address, d.size))
}

/// `editpe::GenericWindowsHeader::section_alignment` of the header.
#[verifier::external_body]
fn section_alignment(image: &editpe::Image<'static>) -> (alignment: u32)
    ensures
        alignment == alignment_of(*image),
{
    image.windows_header().section_alignment()
}

/// `editpe::Image::resource_directory`, cloned; the crate's empty
/// directory where the image has none.
#[verifier::external_body]
fn resource_tree(image: &editpe::Image<'static>) -> (tree: editpe::ResourceDirectory)
    ensures
        tree == tree_of(*image),
{
    image.resource_directory().cloned().unwrap_or_default()
}

/// `editpe::ResourceTable::entries` of the root table, counted.
#[verifier::external_body]
fn count_root(tree: &editpe::ResourceDirectory) -> (n: usize)
    ensures
        n == root_count(*tree),
{
    tree.root().entries().len()
}

/// `editpe::ResourceTable::entries` of the table under a numbered type,
/// counted; zero where the root has no table under it.
#[verifier::external_body]
fn count_type(tree: &editpe::ResourceDirectory, type_code: u32) -> (n: usize)
    ensures
        n == type_count(*tree, type_code as int),
{
    let entry = tree.root().get(editpe::ResourceEntryName::ID(type_code));
    entry.and_then(|e| e.as_table()).map_or(0, |t| t.entries().len())
}

/// `editpe::ResourceTable::entries` of the table that the first entry of
/// the table under a numbered type is, counted; zero where there is no
/// such table.
#[verifier::external_body]
fn count_first_inner(tree: &editpe::ResourceDirectory, type_code: u32) -> (n: usize)
    ensures
        n == first_inner_count(*tree, type_code as int),
{
    let outer = tree.root().get(editpe::ResourceEntryName::ID(type_code)).and_then(|e| e.as_table());
    let first = outer.and_then(|t| t.entries().first().and_then(|name| t.get(*name)));
    first.and_then(|e| e.as_table()).map_or(0, |t| t.entries().len())
}

/// `editpe::ResourceTable::remove` on the root table, for a numbered
/// type. The root must count its entries truly, which it does up to
/// 65535 of them. Afterwards no table stands under that type, and the
/// tables under other types are as they were.
#[verifier::external_body]
fn remove_resource_type(tree: &mut editpe::ResourceDirectory, type_code: u32)
    requires
        root_count(*old(tree)) <= 65535,
    ensures
        *final(tree) == without_type(*old(tree), type_code as int),
        root_count(*final(tree)) <= root_count(*old(tree)),
        type_count(*final(tree), type_code as int) == 0,
        forall|other: int|
            other != type_code ==> #[trigger] type_count(*final(tree), other) == type_count(
                *old(tree),
                other,
            ),
{
    tree.root_mut().remove(editpe::ResourceEntryName::ID(type_code));
}

/// `editpe::ResourceDirectory::set_main_icon` with the bytes of an icon
/// container. The root must have room for two more entries, and the icon
/// table must be empty, so that no entry count runs over. It refuses data
/// shorter than a directory with one entry.
#[verifier::external_body]
fn put_main_icon(tree: &mut editpe::ResourceDirectory, icon: &Vec<u8>) -> (r: Result<
    (),
    editpe::ResourceError,
>)
    requires
        root_count(*old(tree)) <= TABLE_ROOM,
        type_count(*old(tree), ICON_TYPE as int) == 0,
        type_count(*old(tree), ICON_GROUP_TYPE as int) <= TABLE_ROOM,
    ensures
        match r {
            Ok(()) => with_main_icon(*old(tree), icon@) == Some(*final(tree)),
            Err(_) => with_main_icon(*old(tree), icon@) is None,
        },
        icon@.len() < SMALLEST_ICON_CONTAINER ==> r is Err,
{
    tree.set_main_icon(icon.as_slice())
}

/// The tables of a block hold no name twice.
pub open spec fn tables_distinct(tables: Seq<TableView>) -> bool {
    forall|i: int| 0 <= i < tables.len() ==> distinct_keys(#[trigger] tables[i].entries)
}

/// The view of a block that may be there.
pub open spec fn found_view(found: Option<VersionInfoBlock>) -> Option<VersionInfoView> {
    match found {
        Some(block) => Some(block@),
        None => None,
    }
}

/// `editpe::ResourceDirectory::get_version_info`, the block handed out
/// field by field. The strings of a table are a map, so no table of the
/// block holds a name twice.
#[verifier::external_body]
fn read_version_info(tree: &editpe::ResourceDirectory) -> (r: Result<
    Option<VersionInfoBlock>,
    editpe::ResourceError,
>)
    ensures
        match r {
            Ok(found) => version_read(*tree) == Some(found_view(found)) && (found matches Some(
                block,
            ) ==> tables_distinct(block@.tables)),
            Err(_) => version_read(*tree) is None,
        },
{
    let found = tree.get_version_info()?;
    Ok(found.map(|info| VersionInfoBlock { fixed: info.info, tables: info.strings, vars: info.vars }))
}

/// `editpe::ResourceDirectory::set_version_info`, the block handed in
/// field by field. The root, the version table and the table under its
/// first entry must each have room for one more entry.
#[verifier::external_body]
fn write_version_info(tree: &mut editpe::ResourceDirectory, block: &VersionInfoBlock) -> (r: Result<
    (),
    editpe::ResourceError,
>)
    requires
        version_tables_have_room(*old(tree)),
    ensures
        match r {
            Ok(()) => with_version_info(
                *old(tree),
                fixed_info_numbers(block@.fixed),
                block@.tables,
                block@.vars,
            ) == Some(*final(tree)),
            Err(_) => with_version_info(
                *old(tree),
                fixed_info_numbers(block@.fixed),
                block@.tables,
                block@.vars,
            ) is None,
        },
{
    let info = editpe::VersionInfo {
        info: block.fixed,
        strings: block.tables.clone(),
        vars: block.vars.clone(),
    };
    tree.set_version_info(&info)
}

/// `editpe::Image::set_resource_directory`; the directory it replaced is
/// dropped. Where a section covers the resource entry, that section must
/// have raw data in the file: the call takes it to be there. The tree
/// must be small enough for every offset of the section that is built,
/// and every address in it, to stay a 32-bit value.
#[verifier::external_body]
fn install_resources(image: &mut editpe::Image<'static>, tree: editpe::ResourceDirectory) -> (r:
    Result<(), editpe::ImageWriteError>)
    requires
        can_hold(*old(image), tree),
    ensures
        match r {
            Ok(()) => installed(*old(image), tree) == Some(*final(image)),
            Err(_) => installed(*old(image), tree) is None,
        },
{
    image.set_resource_directory(tree).map(|_| ())
}

/// `editpe::Image::data`, copied.
#[verifier::external_body]
fn container_bytes(image: &editpe::Image<'static>) -> (bytes: Vec<u8>)
    ensures
        bytes@ == container_data(*image),
{
    image.data().to_vec()
}

/// Whether the section's virtual range holds the address.
pub open spec fn covers(section: Section, address: u32) -> bool {
    section.virtual_address <= address < section.virtual_address + section.virtual_size
}

/// Whether section `i` is the first that covers the address.
pub open spec fn is_first_cover(sections: Seq<Section>, address: u32, i: int) -> bool {
    0 <= i < sections.len() && covers(sections[i], address) && forall|j: int|
        0 <= j < i ==> !covers(#[trigger] sections[j], address)
}

/// Where section `i` is the first that covers the address, it has raw
/// data, at a place other than the start of the file.
pub open spec fn cover_has_data(sections: Seq<Section>, address: u32, i: int) -> bool {
    is_first_cover(sections, address, i) ==> sections[i].raw_size > 0 && sections[i].raw_pointer
        > 0
}

/// Whether a new tree can be put in: where the resource entry has a size
/// and a section covers its address, the first such section has raw
/// data, at a place other than the start of the file.
pub open spec fn can_install(sections: Seq<Section>, entry: Option<(u32, u32)>) -> bool {
    match entry {
        Some((address, size)) => size > 0 ==> forall|i: int|
            #[trigger] cover_has_data(sections, address, i),
        None => true,
    }
}

/// The highest end of the virtual range of the first `n` sections.
pub open spec fn highest_end(sections: Seq<Section>, n: nat) -> int
    decreases n,
{
    if n == 0 {
        0
    } else {
        let before = highest_end(sections, (n - 1) as nat);
        let end = sections[n - 1].virtual_address + sections[n - 1].virtual_size;
        if end > before {
            end
        } else {
            before
        }
    }
}

/// No address of a rebuilt resource section starts above this: the
/// section stays at the address of the resource entry, or goes after the
/// highest section, aligned.
pub open spec fn address_bound(sections: Seq<Section>, entry: Option<(u32, u32)>, alignment: u32) -> int {
    let end = if sections.len() == 0 {
        alignment as int
    } else {
        highest_end(sections, sections.len())
    };
    let held = match entry {
        Some((address, size)) => address as int,
        None => 0,
    };
    if end + alignment > held {
        end + alignment
    } else {
        held
    }
}

/// The most bytes that a tree may take: its offsets stay below 2^31, and
/// its addresses below 2^32.
pub open spec fn weight_limit(sections: Seq<Section>, entry: Option<(u32, u32)>, alignment: u32) -> int {
    let room = 0xffff_ffff - address_bound(sections, entry, alignment);
    if room < WEIGHT_CAP {
        room
    } else {
        WEIGHT_CAP as int
    }
}

/// Whether the executable can take the tree: the section table allows
/// it, and the tree is shallow and within the limit of its weight.
pub open spec fn can_hold(image: editpe::Image<'static>, tree: editpe::ResourceDirectory) -> bool {
    &&& can_install(sections_of(image), resource_entry_of(image))
    &&& weight_limit(sections_of(image), resource_entry_of(image), alignment_of(image)) >= 0
    &&& tree_fits(
        tree,
        weight_limit(sections_of(image), resource_entry_of(image), alignment_of(image)),
    )
}

/// Computes the most bytes that a tree may take; `None` where there is no
/// room at all.
pub fn find_weight_limit(sections: &Vec<Section>, entry: Option<(u32, u32)>, alignment: u32) -> (r:
    Option<u64>)
    ensures
        match r {
            Some(limit) => limit == weight_limit(sections@, entry, alignment) && limit
                <= WEIGHT_CAP,
            None => weight_limit(sections@, entry, alignment) < 0,
        },
{
    let mut end: u64 = 0;
    let mut i: usize = 0;
    while i < sections.len()
        invariant
            i <= sections.len(),
            end == highest_end(sections@, i as nat),
            end <= 0x1_ffff_fffe,
        decreases sections.len() - i,
    {
        let this: u64 = sections[i].virtual_address as u64 + sections[i].virtual_size as u64;
        if this > end {
            end = this;
        }
        i += 1;
    }
    if sections.len() == 0 {
        end = alignment as u64;
    }
    let held: u64 = match entry {
        Some((address, _)) => address as u64,
        None => 0,
    };
    let placed: u64 = end + alignment as u64;
    let bound: u64 = if placed > held {
        placed
    } else {
        held
    };
    if bound > 0xffff_ffff {
        return None;
    }
    let room: u64 = 0xffff_ffff - bound;
    if room < WEIGHT_CAP {
        Some(room)
    } else {
        Some(WEIGHT_CAP)
    }
}

/// Tests whether a new tree can be put in.
pub fn check_sections(sections: &Vec<Section>, entry: Option<(u32, u32)>) -> (ok: bool)
    ensures
        ok == can_install(sections@, entry),
{
    match entry {
        Some((address, size)) => {
            if size == 0 {
                return true;
            }
            let mut i: usize = 0;
            while i < sections.len()
                invariant
                    i <= sections.len(),
                    entry == Some((address, size)),
                    size > 0,
                    forall|j: int| 0 <= j < i ==> !covers(#[trigger] sections@[j], address),
                decreases sections.len() - i,
            {
                let section = sections[i];
                if section.virtual_address <= address && (address as u64)
                    < section.virtual_address as u64 + section.virtual_size as u64 {
                    let ok = section.raw_size > 0 && section.raw_pointer > 0;
                    proof {
                        assert(is_first_cover(sections@, address, i as int));
                        if ok {
                            assert forall|k: int| #[trigger]
                                cover_has_data(sections@, address, k) by {
                                if 0 <= k < i {
                                    assert(!covers(sections@[k], address));
                                } else if i < k && is_first_cover(sections@, address, k) {
                                    assert(!covers(sections@[i as int], address));
                                }
                            }
                        } else {
                            assert(!cover_has_data(sections@, address, i as int));
                        }
                        assert(entry->Some_0.0 == address && entry->Some_0.1 == size);
                        assert(can_install(sections@, entry) == (forall|k: int| #[trigger]
                            cover_has_data(sections@, address, k)));
                        assert(ok == (forall|k: int| #[trigger]
                            cover_has_data(sections@, address, k)));
                    }
                    return ok;
                }
                i += 1;
            }
            true
        },
        None => true,
    }
}

/// Whether the version information of a tree can be replaced: the root,
/// the version table and the table under its first entry each have room.
pub open spec fn version_tables_have_room(tree: editpe::ResourceDirectory) -> bool {
    root_count(tree) <= TABLE_ROOM && type_count(tree, VERSION_TYPE as int) <= TABLE_ROOM
        && first_inner_count(tree, VERSION_TYPE as int) <= TABLE_ROOM
}

/// What putting a tree into an executable gives: the bytes of the
/// rewritten executable, or a parse error where the section table does
/// not allow it, the tree is too deep or too large, the tree cannot be
/// put in, or the bytes that result have no layout.
pub open spec fn committed(
    image: editpe::Image<'static>,
    tree: editpe::ResourceDirectory,
) -> Result<Seq<u8>, ErrorKind> {
    if !can_hold(image, tree) {
        Err(ErrorKind::ParseError)
    } else {
        match installed(image, tree) {
            Some(after) => if layout_of(container_data(after)) is Ok {
                Ok(container_data(after))
            } else {
                Err(ErrorKind::ParseError)
            },
            None => Err(ErrorKind::ParseError),
        }
    }
}

/// What the icon edit makes of an executable: the executable is opened,
/// the icon and icon-group subtrees are dropped from its tree, the icon
/// container is set as the main icon, and the tree is put back. A
/// container that is refused is an icon error; every other failure is a
/// parse error.
pub open spec fn icon_edit(bytes: Seq<u8>, icon: Seq<u8>) -> Result<Seq<u8>, ErrorKind> {
    match opened(bytes) {
        Some(image) => {
            let tree = tree_of(image);
            if root_count(tree) > TABLE_ROOM {
                Err(ErrorKind::ParseError)
            } else {
                let cleared = without_type(
                    without_type(tree, ICON_TYPE as int),
                    ICON_GROUP_TYPE as int,
                );
                match with_main_icon(cleared, icon) {
                    Some(tree) => committed(image, tree),
                    None => Err(ErrorKind::IconError),
                }
            }
        },
        None => Err(ErrorKind::ParseError),
    }
}

/// The block that an edit writes: the block read, or the default one
/// where there was none, with the request written into its tables.
pub open spec fn block_to_write(
    found: Option<VersionInfoView>,
    version: Option<Seq<char>>,
    strings: Seq<Entry>,
) -> (Seq<int>, Seq<TableView>, Seq<editpe::types::VersionU16>) {
    match found {
        Some(block) => (
            fixed_info_numbers(block.fixed),
            edited_tables(block.tables, version, strings),
            block.vars,
        ),
        None => (
            default_fixed_numbers(),
            edited_tables(Seq::empty(), version, strings),
            Seq::empty(),
        ),
    }
}

/// What the version edit makes of an executable: the executable is
/// opened, its version information is read, the block to write replaces
/// the version-information subtree, and the tree is put back. Every
/// failure is a parse error: an executable that cannot be opened, tables
/// without room, version information that is malformed, a block that
/// cannot be written, a tree that cannot be put back.
pub open spec fn version_edit(
    bytes: Seq<u8>,
    version: Option<Seq<char>>,
    strings: Seq<Entry>,
) -> Result<Seq<u8>, ErrorKind> {
    match opened(bytes) {
        Some(image) => {
            let tree = tree_of(image);
            if !version_tables_have_room(tree) {
                Err(ErrorKind::ParseError)
            } else {
                match version_read(tree) {
                    Some(found) => {
                        let block = block_to_write(found, version, strings);
                        match with_version_info(tree, block.0, block.1, block.2) {
                            Some(tree) => committed(image, tree),
                            None => Err(ErrorKind::ParseError),
                        }
                    },
                    None => Err(ErrorKind::ParseError),
                }
            }
        },
        None => Err(ErrorKind::ParseError),
    }
}

/// The view of an optional string.
pub open spec fn text_view(text: Option<&String>) -> Option<Seq<char>> {
    match text {
        Some(t) => Some(t@),
        None => None,
    }
}

/// Tests whether the tables that a version edit touches have room.
fn version_room(tree: &editpe::ResourceDirectory) -> (ok: bool)
    ensures
        ok == version_tables_have_room(*tree),
{
    count_root(tree) <= TABLE_ROOM && count_type(tree, VERSION_TYPE) <= TABLE_ROOM
        && count_first_inner(tree, VERSION_TYPE) <= TABLE_ROOM
}

/// Puts a rewritten resource tree into the executable and takes the
/// bytes that result. Nothing is written to `image` unless every step
/// succeeded.
fn commit_tree(
    image: &mut ExecutableImage,
    container: editpe::Image<'static>,
    tree: editpe::ResourceDirectory,
) -> (r: Result<(), EditError>)
    ensures
        match committed(container, tree) {
            Ok(bytes) => r is Ok && final(image)@ == bytes && final(image).wf(),
            Err(kind) => *final(image) == *old(image) && (r matches Err(e) && e.kind == kind),
        },
{
    let mut container = container;
    let sections = section_table(&container);
    let entry = resource_entry(&container);
    if !check_sections(&sections, entry) {
        return Err(
            EditError::new(ErrorKind::ParseError, "resource section has no data in the file"),
        );
    }
    let fits = match find_weight_limit(&sections, entry, section_alignment(&container)) {
        Some(limit) => tree_has_room(&tree, limit),
        None => false,
    };
    if !fits {
        return Err(EditError::new(ErrorKind::ParseError, "resource tree is too deep or too large"));
    }
    match install_resources(&mut container, tree) {
        Ok(()) => image.replace_bytes(container_bytes(&container)),
        Err(_) => Err(EditError::new(ErrorKind::ParseError, "resources could not be written back")),
    }
}

/// Replaces the icon of the executable by the given icon container: the
/// icon and icon-group subtrees are dropped and built anew from it, as
/// [`icon_edit`] says.
///
/// On success the image holds the rewritten executable and has a layout
/// again. On failure the image is exactly as it was; the error is an icon
/// error where the container was not usable as icon data, and a parse
/// error where the executable could not be read or rebuilt. A container
/// shorter than a directory with one entry is never accepted.
pub fn set_icon(image: &mut ExecutableImage, icon: &Vec<u8>) -> (r: Result<(), EditError>)
    ensures
        match icon_edit(old(image)@, icon@) {
            Ok(bytes) => r is Ok && final(image)@ == bytes && final(image).wf() && layout_of(bytes)
                is Ok && icon@.len() >= SMALLEST_ICON_CONTAINER,
            Err(kind) => *final(image) == *old(image) && (r matches Err(e) && e.kind == kind),
        },
{
    let container = match open_container(image.bytes()) {
        Ok(container) => container,
        Err(_) => {
            return Err(EditError::new(ErrorKind::ParseError, "executable could not be read"));
        },
    };
    let mut tree = resource_tree(&container);
    if count_root(&tree) > TABLE_ROOM {
        return Err(EditError::new(ErrorKind::ParseError, "resource tree has too many entries"));
    }
    remove_resource_type(&mut tree, ICON_TYPE);
    remove_resource_type(&mut tree, ICON_GROUP_TYPE);
    match put_main_icon(&mut tree, icon) {
        Ok(()) => commit_tree(image, container, tree),
        Err(_) => Err(EditError::new(ErrorKind::IconError, "icon data could not be used")),
    }
}

/// Writes a version and named strings into the version information of
/// the executable, as [`version_edit`] says. The block that is there is
/// read; the block that [`VersionInfoBlock::edited`] makes of it and the
/// request replaces the version-information subtree.
///
/// On success the image holds the rewritten executable and has a layout
/// again. On failure the image is exactly as it was and the error is a
/// parse error: the executable or its version information is malformed,
/// or the block could not be written back.
pub fn set_version_and_strings(
    image: &mut ExecutableImage,
    version: Option<&String>,
    strings: &StringMap,
) -> (r: Result<(), EditError>)
    ensures
        match version_edit(old(image)@, text_view(version), strings@) {
            Ok(bytes) => r is Ok && final(image)@ == bytes && final(image).wf() && layout_of(bytes)
                is Ok,
            Err(kind) => *final(image) == *old(image) && (r matches Err(e) && e.kind == kind),
        },
        r matches Err(e) ==> e.kind == ErrorKind::ParseError,
{
    let container = match open_container(image.bytes()) {
        Ok(container) => container,
        Err(_) => {
            return Err(EditError::new(ErrorKind::ParseError, "executable could not be read"));
        },
    };
    let mut tree = resource_tree(&container);
    if !version_room(&tree) {
        return Err(EditError::new(ErrorKind::ParseError, "resource tree has too many entries"));
    }
    let found = match read_version_info(&tree) {
        Ok(found) => found,
        Err(_) => {
            return Err(EditError::new(ErrorKind::ParseError, "version information is malformed"));
        },
    };
    let block = VersionInfoBlock::edited(found, version, strings);
    match write_version_info(&mut tree, &block) {
        Ok(()) => commit_tree(image, container, tree),
        Err(_) => Err(
            EditError::new(ErrorKind::ParseError, "version information could not be written"),
        ),
    }
}

/// What reading the version information of an executable gives: `None`
/// where the executable cannot be opened or the information is malformed.
pub open spec fn version_found(bytes: Seq<u8>) -> Option<Option<VersionInfoView>> {
    match opened(bytes) {
        Some(image) => version_read(tree_of(image)),
        None => None,
    }
}

/// Reads the version information of the executable: the block, `None`
/// where the executable has none, or a parse error where the executable
/// or the block is malformed. No table of a block read holds a name twice.
pub fn version_info(image: &ExecutableImage) -> (r: Result<Option<VersionInfoBlock>, EditError>)
    ensures
        match r {
            Ok(found) => version_found(image@) == Some(found_view(found)) && (found matches Some(
                block,
            ) ==> tables_distinct(block@.tables)),
            Err(e) => version_found(image@) is None && e.kind == ErrorKind::ParseError,
        },
{
    let container = match open_container(image.bytes()) {
        Ok(container) => container,
        Err(_) => {
            return Err(EditError::new(ErrorKind::ParseError, "executable could not be read"));
        },
    };
    let tree = resource_tree(&container);
    match read_version_info(&tree) {
        Ok(found) => Ok(found),
        Err(_) => Err(EditError::new(ErrorKind::ParseError, "version information is malformed")),
    }
}

} // verus!

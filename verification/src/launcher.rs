//! What the edit comes to where the executable has no resource
//! container: the text of a desktop launcher, and the entries of an
//! application bundle's manifest.

use vstd::prelude::*;
use vstd::string::{StrSliceExecFns, StringExecFns};
use crate::editor::{EditorView, MetadataEditor};
use crate::strings::{pairs_view, value_of, Entry};

verus! {

/// Whether a text ends with another.
pub open spec fn ends_with(text: Seq<char>, suffix: Seq<char>) -> bool {
    text.len() >= suffix.len() && text.subrange(text.len() - suffix.len(), text.len() as int)
        == suffix
}

/// Whether a path names an application bundle: it ends with `.app`.
pub fn is_bundle_path(path: &str) -> (b: bool)
    ensures
        b == ends_with(path@, ".app"@),
{
    proof {
        reveal_strlit(".app");
    }
    let len: usize = path.unicode_len();
    if len < 4 {
        return false;
    }
    let tail = path.substring_char(len - 4, len);
    tail.to_owned() == ".app".to_owned()
}

/// The name under which the application is shown: the product name asked
/// for, or else the given default.
pub open spec fn display_name(request: EditorView, default: Seq<char>) -> Seq<char> {
    match value_of(request.strings, "ProductName"@) {
        Some(name) => name,
        None => default,
    }
}

/// A line of a launcher made of a key, a value and a line break, or
/// nothing where there is no value.
pub open spec fn optional_line(key: Seq<char>, value: Option<Seq<char>>) -> Seq<char> {
    match value {
        Some(v) => key + v + "\n"@,
        None => Seq::empty(),
    }
}

/// The text of the launcher: the application's type and name, its
/// version if one was asked for, how to run it, that it needs no
/// terminal, and its icon if one was asked for.
pub open spec fn desktop_entry_text(
    request: EditorView,
    stem: Seq<char>,
    file_name: Seq<char>,
) -> Seq<char> {
    "[Desktop Entry]\nType=Application\n"@ + "Name="@ + display_name(request, stem) + "\n"@
        + optional_line("Version="@, request.version) + "Exec=./"@ + file_name + "\n"@
        + "Terminal=false\n"@ + optional_line("Icon="@, request.icon_path)
}

/// Writes the text of a desktop launcher for the request. `stem` is the
/// file's name without its extension, `file_name` the name with it.
pub fn desktop_entry(editor: &MetadataEditor, stem: &str, file_name: &str) -> (text: String)
    requires
        editor.wf(),
    ensures
        text@ == desktop_entry_text(editor@, stem@, file_name@),
{
    let mut text = "[Desktop Entry]\nType=Application\n".to_owned();
    text.append("Name=");
    match editor.strings().get(&"ProductName".to_owned()) {
        Some(name) => text.append(name.as_str()),
        None => text.append(stem),
    }
    text.append("\n");
    if let Some(version) = editor.version() {
        let ghost before = text@;
        text.append("Version=");
        text.append(version.as_str());
        text.append("\n");
        assert(text@ =~= before + optional_line("Version="@, editor@.version));
    } else {
        assert(text@ =~= text@ + optional_line("Version="@, editor@.version));
    }
    text.append("Exec=./");
    text.append(file_name);
    text.append("\n");
    text.append("Terminal=false\n");
    if let Some(icon) = editor.icon_path() {
        let ghost before = text@;
        text.append("Icon=");
        text.append(icon.as_str());
        text.append("\n");
        assert(text@ =~= before + optional_line("Icon="@, editor@.icon_path));
    } else {
        assert(text@ =~= text@ + optional_line("Icon="@, editor@.icon_path));
    }
    assert(text@ =~= desktop_entry_text(editor@, stem@, file_name@));
    text
}

/// The version that a bundle shows where the request asks for none.
pub open spec fn default_bundle_version() -> Seq<char> {
    "1.0"@
}

/// The version that a bundle shows: the version asked for, or else the
/// default version.
pub open spec fn bundle_version(request: EditorView) -> Seq<char> {
    match request.version {
        Some(version) => version,
        None => default_bundle_version(),
    }
}

/// The entries of the bundle's manifest, which are always these four: the
/// executable's name; the display name, which is the product name asked
/// for or else the executable's name without its extension; the short
/// version string and the bundle version, which are both the version
/// asked for or else the default version.
pub open spec fn bundle_manifest_entries(
    request: EditorView,
    stem: Seq<char>,
    file_name: Seq<char>,
) -> Seq<Entry> {
    seq![
        ("CFBundleExecutable"@, file_name),
        ("CFBundleName"@, display_name(request, stem)),
        ("CFBundleShortVersionString"@, bundle_version(request)),
        ("CFBundleVersion"@, bundle_version(request)),
    ]
}

/// Lists the entries of an application bundle's manifest for the request.
/// `stem` is the file's name without its extension, `file_name` the name
/// with it.
pub fn bundle_manifest(editor: &MetadataEditor, stem: &str, file_name: &str) -> (entries: Vec<
    (String, String),
>)
    requires
        editor.wf(),
    ensures
        pairs_view(entries@) == bundle_manifest_entries(editor@, stem@, file_name@),
{
    let name = match editor.strings().get(&"ProductName".to_owned()) {
        Some(name) => name.clone(),
        None => stem.to_owned(),
    };
    let version = match editor.version() {
        Some(version) => version.clone(),
        None => "1.0".to_owned(),
    };
    let mut entries: Vec<(String, String)> = Vec::new();
    entries.push(("CFBundleExecutable".to_owned(), file_name.to_owned()));
    entries.push(("CFBundleName".to_owned(), name));
    entries.push(("CFBundleShortVersionString".to_owned(), version.clone()));
    entries.push(("CFBundleVersion".to_owned(), version));
    assert(pairs_view(entries@) =~= bundle_manifest_entries(editor@, stem@, file_name@));
    entries
}

} // verus!

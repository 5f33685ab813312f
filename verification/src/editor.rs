//! The edit request: which file to edit and what to put into it.

use vstd::prelude::*;
use vstd::string::StringExecFns;
use crate::strings::{distinct_keys, has_key, pairs_view, upsert, Entry, StringMap};

verus! {

/// What an editor holds, as a specification sees it.
pub struct EditorView {
    pub file_path: Seq<char>,
    pub icon_path: Option<Seq<char>>,
    pub version: Option<Seq<char>>,
    pub strings: Seq<Entry>,
}

/// The view of an optional string.
pub open spec fn option_view(s: Option<String>) -> Option<Seq<char>> {
    match s {
        Some(s) => Some(s@),
        None => None,
    }
}

/// A fresh request for a file: nothing to change yet.
pub open spec fn fresh(file_path: Seq<char>) -> EditorView {
    EditorView { file_path, icon_path: None, version: None, strings: Seq::empty() }
}

/// Where one entry of a flat metadata map goes: `icon` and `version` to
/// the fields of their own, every other name to the string table.
pub open spec fn routed(e: EditorView, key: Seq<char>, value: Seq<char>) -> EditorView {
    if key == "icon"@ {
        EditorView { icon_path: Some(value), ..e }
    } else if key == "version"@ {
        EditorView { version: Some(value), ..e }
    } else {
        EditorView { strings: upsert(e.strings, key, value), ..e }
    }
}

/// The first `n` entries of a flat metadata map, routed one after another.
pub open spec fn routed_all(e: EditorView, pairs: Seq<Entry>, n: nat) -> EditorView
    decreases n,
{
    if n == 0 {
        e
    } else {
        let before = routed_all(e, pairs, (n - 1) as nat);
        routed(before, pairs[n - 1].0, pairs[n - 1].1)
    }
}

/// A request to edit the metadata of one file.
pub struct MetadataEditor {
    file_path: String,
    icon_path: Option<String>,
    version: Option<String>,
    strings: StringMap,
}

impl View for MetadataEditor {
    type V = EditorView;

    closed spec fn view(&self) -> EditorView {
        EditorView {
            file_path: self.file_path@,
            icon_path: option_view(self.icon_path),
            version: option_view(self.version),
            strings: self.strings@,
        }
    }
}

impl MetadataEditor {
    /// Well-formedness: no name occurs twice in the string table.
    pub closed spec fn wf(&self) -> bool {
        self.strings.wf()
    }

    /// In a well-formed request no name occurs twice among the strings.
    pub proof fn lemma_wf_distinct(&self)
        requires
            self.wf(),
        ensures
            distinct_keys(self@.strings),
    {
        self.strings.lemma_wf_distinct();
    }

    /// A request for the given file that changes nothing yet.
    pub fn new(file_path: String) -> (e: MetadataEditor)
        ensures
            e@ == fresh(file_path@),
            e.wf(),
    {
        MetadataEditor { file_path, icon_path: None, version: None, strings: StringMap::new() }
    }

    /// Asks for the icon to be taken from the given picture file.
    pub fn set_icon(self, icon_path: String) -> (e: MetadataEditor)
        requires
            self.wf(),
        ensures
            e@ == (EditorView { icon_path: Some(icon_path@), ..self@ }),
            e.wf(),
    {
        MetadataEditor {
            file_path: self.file_path,
            icon_path: Some(icon_path),
            version: self.version,
            strings: self.strings,
        }
    }

    /// Asks for the given version to be shown as file and product version.
    pub fn set_version(self, version: String) -> (e: MetadataEditor)
        requires
            self.wf(),
        ensures
            e@ == (EditorView { version: Some(version@), ..self@ }),
            e.wf(),
    {
        MetadataEditor {
            file_path: self.file_path,
            icon_path: self.icon_path,
            version: Some(version),
            strings: self.strings,
        }
    }

    /// Asks for a named string to be set, replacing an earlier request
    /// for the same name.
    pub fn set_string(self, key: String, value: String) -> (e: MetadataEditor)
        requires
            self.wf(),
        ensures
            e@ == (EditorView { strings: upsert(self@.strings, key@, value@), ..self@ }),
            e.wf(),
    {
        let mut strings = self.strings;
        strings.insert(key, value);
        MetadataEditor {
            file_path: self.file_path,
            icon_path: self.icon_path,
            version: self.version,
            strings,
        }
    }

    /// The file to edit.
    pub fn file_path(&self) -> (p: &String)
        ensures
            p@ == self@.file_path,
    {
        &self.file_path
    }

    /// The picture file to take the icon from, if one was asked for.
    pub fn icon_path(&self) -> (p: Option<&String>)
        ensures
            match p {
                Some(s) => self@.icon_path == Some(s@),
                None => self@.icon_path is None,
            },
    {
        match &self.icon_path {
            Some(s) => Some(s),
            None => None,
        }
    }

    /// The version to show, if one was asked for.
    pub fn version(&self) -> (v: Option<&String>)
        ensures
            match v {
                Some(s) => self@.version == Some(s@),
                None => self@.version is None,
            },
    {
        match &self.version {
            Some(s) => Some(s),
            None => None,
        }
    }

    /// The named strings asked for.
    pub fn strings(&self) -> (m: &StringMap)
        ensures
            m@ == self@.strings,
            self.wf() ==> m.wf(),
    {
        &self.strings
    }

    /// Whether the request asks for any change to the resources.
    pub fn has_edits(&self) -> (b: bool)
        ensures
            b == (self@.icon_path is Some || self@.version is Some || self@.strings.len() > 0),
    {
        self.icon_path.is_some() || self.version.is_some() || !self.strings.is_empty()
    }

    /// Routes one entry of a flat metadata map.
    pub fn route(self, key: String, value: String) -> (e: MetadataEditor)
        requires
            self.wf(),
        ensures
            e@ == routed(self@, key@, value@),
            e.wf(),
    {
        if key == "icon".to_owned() {
            self.set_icon(value)
        } else if key == "version".to_owned() {
            self.set_version(value)
        } else {
            self.set_string(key, value)
        }
    }
}

/// Builds a request from a flat metadata map: the names `icon` and
/// `version` go to the fields of their own, all others to the string
/// table, where neither of the two ever appears.
pub fn edit(file_path: String, metadata: Option<Vec<(String, String)>>) -> (e: MetadataEditor)
    ensures
        e@ == match metadata {
            Some(pairs) => routed_all(
                fresh(file_path@),
                pairs_view(pairs@),
                pairs@.len(),
            ),
            None => fresh(file_path@),
        },
        e.wf(),
        !has_key(e@.strings, "icon"@),
        !has_key(e@.strings, "version"@),
{
    let ghost start = fresh(file_path@);
    let mut editor = MetadataEditor::new(file_path);
    match metadata {
        Some(pairs) => {
            let ghost all = pairs_view(pairs@);
            let mut done: usize = 0;
            while done < pairs.len()
                invariant
                    done <= pairs@.len(),
                    all == pairs_view(pairs@),
                    editor@ == routed_all(start, all, done as nat),
                    editor.wf(),
                    !has_key(editor@.strings, "icon"@),
                    !has_key(editor@.strings, "version"@),
                decreases pairs.len() - done,
            {
                let key = pairs[done].0.clone();
                let value = pairs[done].1.clone();
                proof {
                    lemma_routing_keeps_reserved_names_out(editor@, key@, value@);
                }
                editor = editor.route(key, value);
                done += 1;
            }
            editor
        },
        None => editor,
    }
}

/// Routing an entry never brings `icon` or `version` into the string table.
pub proof fn lemma_routing_keeps_reserved_names_out(e: EditorView, key: Seq<char>, value: Seq<char>)
    requires
        !has_key(e.strings, "icon"@),
        !has_key(e.strings, "version"@),
    ensures
        !has_key(routed(e, key, value).strings, "icon"@),
        !has_key(routed(e, key, value).strings, "version"@),
{
    if key != "icon"@ && key != "version"@ {
        let after = upsert(e.strings, key, value);
        assert forall|i: int| 0 <= i < after.len() implies (#[trigger] after[i]).0 != "icon"@
            && after[i].0 != "version"@ by {
            if i < e.strings.len() {
                assert(e.strings[i].0 != "icon"@);
                assert(e.strings[i].0 != "version"@);
            }
        }
    }
}

/// However many entries are routed into a fresh request, `icon` and
/// `version` never appear in its string table.
pub proof fn lemma_reserved_names_never_leak(file_path: Seq<char>, pairs: Seq<Entry>, n: nat)
    requires
        n <= pairs.len(),
    ensures
        !has_key(routed_all(fresh(file_path), pairs, n).strings, "icon"@),
        !has_key(routed_all(fresh(file_path), pairs, n).strings, "version"@),
    decreases n,
{
    if n > 0 {
        lemma_reserved_names_never_leak(file_path, pairs, (n - 1) as nat);
        let before = routed_all(fresh(file_path), pairs, (n - 1) as nat);
        lemma_routing_keeps_reserved_names_out(before, pairs[n - 1].0, pairs[n - 1].1);
    }
}

} // verus!

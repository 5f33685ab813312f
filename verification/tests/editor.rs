use metaedit::editor::{edit, MetadataEditor};
use metaedit::strings::StringMap;

fn pair(key: &str, value: &str) -> (String, String) {
    (key.to_string(), value.to_string())
}

fn entries(map: &StringMap) -> Vec<(String, String)> {
    (0..map.len()).map(|i| (map.key_at(i).clone(), map.value_at(i).clone())).collect()
}

#[test]
fn new_editor_asks_for_nothing() {
    let editor = MetadataEditor::new("app.exe".to_string());
    assert_eq!(editor.file_path(), "app.exe");
    assert_eq!(editor.icon_path(), None);
    assert_eq!(editor.version(), None);
    assert!(editor.strings().is_empty());
    assert!(!editor.has_edits());
}

#[test]
fn builder_sets_each_field() {
    let editor = MetadataEditor::new("app.exe".to_string())
        .set_icon("icon.png".to_string())
        .set_version("1.2.3".to_string())
        .set_string("ProductName".to_string(), "X".to_string());
    assert_eq!(editor.file_path(), "app.exe");
    assert_eq!(editor.icon_path(), Some(&"icon.png".to_string()));
    assert_eq!(editor.version(), Some(&"1.2.3".to_string()));
    assert_eq!(entries(editor.strings()), vec![pair("ProductName", "X")]);
    assert!(editor.has_edits());
    assert!(MetadataEditor::new("a".to_string()).set_icon("i".to_string()).has_edits());
    assert!(MetadataEditor::new("a".to_string()).set_version("1".to_string()).has_edits());
    assert!(MetadataEditor::new("a".to_string()).set_string("k".to_string(), "v".to_string()).has_edits());
}

#[test]
fn later_value_replaces_the_earlier_one_in_place() {
    let editor = MetadataEditor::new("app.exe".to_string())
        .set_string("Company".to_string(), "Acme".to_string())
        .set_string("ProductName".to_string(), "X".to_string())
        .set_string("Company".to_string(), "Apex".to_string())
        .set_icon("a.png".to_string())
        .set_icon("b.png".to_string());
    assert_eq!(
        entries(editor.strings()),
        vec![pair("Company", "Apex"), pair("ProductName", "X")]
    );
    assert_eq!(editor.icon_path(), Some(&"b.png".to_string()));
}

#[test]
fn edit_routes_icon_and_version_to_their_fields() {
    let editor = edit(
        "app.exe".to_string(),
        Some(vec![pair("icon", "a.png"), pair("version", "2.0"), pair("Company", "Acme")]),
    );
    assert_eq!(editor.file_path(), "app.exe");
    assert_eq!(editor.icon_path(), Some(&"a.png".to_string()));
    assert_eq!(editor.version(), Some(&"2.0".to_string()));
    assert_eq!(entries(editor.strings()), vec![pair("Company", "Acme")]);
}

#[test]
fn edit_never_lets_reserved_names_into_the_strings() {
    let editor = edit(
        "app.exe".to_string(),
        Some(vec![
            pair("Company", "Acme"),
            pair("icon", "a.png"),
            pair("Icon", "kept"),
            pair("version", "1"),
            pair("icon", "b.png"),
            pair("version", "2"),
            pair("Company", "Apex"),
        ]),
    );
    assert_eq!(editor.icon_path(), Some(&"b.png".to_string()));
    assert_eq!(editor.version(), Some(&"2".to_string()));
    assert_eq!(entries(editor.strings()), vec![pair("Company", "Apex"), pair("Icon", "kept")]);
    assert_eq!(editor.strings().find(&"icon".to_string()), None);
    assert_eq!(editor.strings().find(&"version".to_string()), None);
}

#[test]
fn edit_without_metadata_is_a_fresh_editor() {
    for metadata in [None, Some(Vec::new())] {
        let editor = edit("app.exe".to_string(), metadata);
        assert_eq!(editor.file_path(), "app.exe");
        assert_eq!(editor.icon_path(), None);
        assert_eq!(editor.version(), None);
        assert!(editor.strings().is_empty());
    }
}

#[test]
fn route_handles_one_entry() {
    let editor = MetadataEditor::new("a".to_string())
        .route("version".to_string(), "3".to_string())
        .route("versions".to_string(), "4".to_string());
    assert_eq!(editor.version(), Some(&"3".to_string()));
    assert_eq!(entries(editor.strings()), vec![pair("versions", "4")]);
}

#[test]
fn string_map_keeps_order_and_names_apart() {
    let mut map = StringMap::new();
    assert!(map.is_empty());
    assert_eq!(map.get(&"a".to_string()), None);
    map.insert("b".to_string(), "1".to_string());
    map.insert("a".to_string(), "2".to_string());
    map.insert("b".to_string(), "3".to_string());
    assert_eq!(map.len(), 2);
    assert_eq!(entries(&map), vec![pair("b", "3"), pair("a", "2")]);
    assert_eq!(map.find(&"a".to_string()), Some(1));
    assert_eq!(map.find(&"c".to_string()), None);
    assert_eq!(map.get(&"b".to_string()), Some(&"3".to_string()));
    assert_eq!(map.get(&"A".to_string()), None);
}

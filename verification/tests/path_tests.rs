//! Tests for translation paths, path resolution in JSON trees, and path
//! patterns.

use hayotrans::json::JsonValue;
use hayotrans::translation_path::{PathPattern, PathSegment, TranslationPath};

fn obj(fields: Vec<(&str, JsonValue)>) -> JsonValue {
    JsonValue::Object(
        fields.into_iter().map(|(k, v)| (k.to_string(), v)).collect(),
    )
}

fn arr(items: Vec<JsonValue>) -> JsonValue {
    JsonValue::Array(items)
}

fn s(text: &str) -> JsonValue {
    JsonValue::Str(text.to_string())
}

#[test]
fn test_path_parse() {
    let path = TranslationPath::parse("events.5.pages.0.list.12").unwrap();
    assert_eq!(path.len(), 6);
    assert!(matches!(&path.segments()[0], PathSegment::Key(k) if k == "events"));
    assert!(matches!(&path.segments()[1], PathSegment::Index(5)));
    assert!(matches!(&path.segments()[2], PathSegment::Key(k) if k == "pages"));
    assert!(matches!(&path.segments()[3], PathSegment::Index(0)));
}

#[test]
fn test_path_empty() {
    let path = TranslationPath::parse("").unwrap();
    assert!(path.is_empty());
}

#[test]
fn test_path_append() {
    let path = TranslationPath::new();
    let path = path.append_key("events");
    let path = path.append_index(5);
    assert_eq!(path.to_path_string(), "events.5");
}

#[test]
fn test_path_get() {
    let json = obj(vec![(
        "events",
        arr(vec![
            JsonValue::Null,
            obj(vec![
                ("name", s("Event 1")),
                ("pages", arr(vec![obj(vec![("list", arr(vec![obj(vec![("code", JsonValue::Int(401))])]))])])),
            ]),
        ]),
    )]);

    let path = TranslationPath::parse("events.1.name").unwrap();
    match path.get(&json) {
        Some(JsonValue::Str(v)) => assert_eq!(v, "Event 1"),
        other => panic!("unexpected value: {:?}", other),
    }

    let path = TranslationPath::parse("events.1.pages.0.list.0.code").unwrap();
    match path.get(&json) {
        Some(JsonValue::Int(401)) => {}
        other => panic!("unexpected value: {:?}", other),
    }

    let path = TranslationPath::parse("events.99").unwrap();
    assert!(path.get(&json).is_none());
}

#[test]
fn test_path_set() {
    let mut json = obj(vec![("events", arr(vec![obj(vec![("name", s("Old Name"))])]))]);

    let path = TranslationPath::parse("events.0.name").unwrap();
    path.set(&mut json, s("New Name")).unwrap();

    let check = TranslationPath::parse("events.0.name").unwrap();
    match check.get(&json) {
        Some(JsonValue::Str(v)) => assert_eq!(v, "New Name"),
        other => panic!("unexpected value: {:?}", other),
    }
}

#[test]
fn test_path_set_then_get_round_trip() {
    // setting a value then reading the same path returns exactly it
    let mut tree = obj(vec![(
        "quests",
        arr(vec![obj(vec![("title", s("A")), ("done", JsonValue::Bool(false))])]),
    )]);
    let path = TranslationPath::parse("quests.0.title").unwrap();
    assert!(path.get(&tree).is_some());
    path.set(&mut tree, s("B")).unwrap();
    match path.get(&tree) {
        Some(JsonValue::Str(v)) => assert_eq!(v, "B"),
        other => panic!("unexpected value: {:?}", other),
    }
    // untouched sibling keeps its value
    let done = TranslationPath::parse("quests.0.done").unwrap();
    assert!(matches!(done.get(&tree), Some(JsonValue::Bool(false))));
}

#[test]
fn test_path_set_out_of_bounds() {
    let mut tree = arr(vec![s("a")]);
    let path = TranslationPath::parse("5").unwrap();
    assert!(path.set(&mut tree, s("b")).is_err());
    // the tree is unchanged
    assert!(matches!(tree.get_index(0), Some(JsonValue::Str(v)) if v == "a"));
}

#[test]
fn test_path_parent_and_last() {
    let path = TranslationPath::parse("events.3.list").unwrap();
    let parent = path.parent().unwrap();
    assert_eq!(parent.to_path_string(), "events.3");
    assert!(matches!(path.last(), Some(PathSegment::Key(k)) if k == "list"));
    assert!(TranslationPath::new().parent().is_none());
}

#[test]
fn test_path_pattern() {
    let pattern = PathPattern::new("events.|ARY|.pages.|ARY|.list.|ARY|.parameters.|ARY|");
    assert!(pattern.matches("events.5.pages.0.list.12.parameters.0"));
    assert!(pattern.matches("events.0.pages.2.list.100.parameters.3"));
    assert!(!pattern.matches("events.5.pages.0.list.12"));
    assert!(!pattern.matches("other.5.pages.0.list.12.parameters.0"));
}

#[test]
fn test_path_pattern_obj() {
    let pattern = PathPattern::new("plugins.|OBJ|.parameters");
    assert!(pattern.matches("plugins.QuestSystem.parameters"));
    assert!(pattern.matches("plugins.NUUN_EnemyBook.parameters"));
    assert!(!pattern.matches("plugins.parameters"));
}

#[test]
fn test_path_pattern_ary_replacement() {
    // replacing the segment an |ARY| matched with another decimal segment
    // keeps the path matching
    let pattern = PathPattern::new("quests.|ARY|.title");
    assert!(pattern.matches("quests.0.title"));
    assert!(pattern.matches("quests.17.title"));
    assert!(pattern.matches("quests.99999.title"));
    assert!(!pattern.matches("quests.x.title"));
}

#[test]
fn test_to_unit_id() {
    let path = TranslationPath::parse("events.1.pages.0.list.5").unwrap();
    assert_eq!(path.to_unit_id("dialogue"), "events.1.pages.0.list.5_dialogue");
    assert_eq!(path.to_unit_id(""), "events.1.pages.0.list.5");
}

#[test]
fn test_path_duplicate_and_append() {
    let base = TranslationPath::parse("a.1").unwrap();
    let other = TranslationPath::parse("b.2").unwrap();
    let joined = base.append(&other);
    assert_eq!(joined.to_path_string(), "a.1.b.2");
    // the original is unchanged
    assert_eq!(base.to_path_string(), "a.1");
}

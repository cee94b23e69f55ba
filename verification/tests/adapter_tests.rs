//! Tests for the page walker and the common-events and map adapters,
//! including whole-list round trips.

use hayotrans::command::{commands_to_json, parse_commands, EventCommand};
use hayotrans::common_events::CommonEventsParser;
use hayotrans::context::ExtractionContext;
use hayotrans::event_code::EventCode;
use hayotrans::event_page::{EventPageParser, FileExtractionResult};
use hayotrans::json::JsonValue;
use hayotrans::map_file::{is_map_file, MapParser};
use hayotrans::options::{ExtractionOptions, InjectionOptions};
use hayotrans::tmap::TranslationMap;
use hayotrans::translation_path::TranslationPath;
use hayotrans::translation_unit::TranslationUnit;

fn s(text: &str) -> JsonValue {
    JsonValue::Str(text.to_string())
}

fn obj(fields: Vec<(&str, JsonValue)>) -> JsonValue {
    JsonValue::Object(fields.into_iter().map(|(k, v)| (k.to_string(), v)).collect())
}

fn cmd_json(code: i64, indent: i64, parameters: Vec<JsonValue>) -> JsonValue {
    obj(vec![
        ("code", JsonValue::Int(code)),
        ("indent", JsonValue::Int(indent)),
        ("parameters", JsonValue::Array(parameters)),
    ])
}

fn make_test_list() -> JsonValue {
    JsonValue::Array(vec![
        cmd_json(101, 0, vec![s("Actor1"), JsonValue::Int(0), JsonValue::Int(0), JsonValue::Int(2), s("村人A")]),
        cmd_json(401, 0, vec![s("こんにちは！")]),
        cmd_json(401, 0, vec![s("元気ですか？")]),
        cmd_json(102, 0, vec![
            JsonValue::Array(vec![s("はい"), s("いいえ")]),
            JsonValue::Int(0),
            JsonValue::Int(1),
            JsonValue::Int(2),
            JsonValue::Int(0),
        ]),
        cmd_json(402, 1, vec![JsonValue::Int(0), s("はい")]),
        cmd_json(0, 1, vec![]),
        cmd_json(402, 1, vec![JsonValue::Int(1), s("いいえ")]),
        cmd_json(0, 1, vec![]),
        cmd_json(0, 0, vec![]),
    ])
}

#[test]
fn test_parse_commands() {
    let json = JsonValue::Array(vec![
        cmd_json(101, 0, vec![s(""), JsonValue::Int(0), JsonValue::Int(0), JsonValue::Int(2), s("NPC")]),
        cmd_json(401, 0, vec![s("Hello!")]),
        cmd_json(401, 0, vec![s("How are you?")]),
        cmd_json(0, 0, vec![]),
    ]);

    let commands = parse_commands(&json);
    assert_eq!(commands.len(), 4);
    assert_eq!(commands[0].code, 101);
    assert_eq!(commands[1].get_dialogue_text().unwrap(), "Hello!");
}

#[test]
fn test_commands_to_json_round_trip() {
    let json = make_test_list();
    let commands = parse_commands(&json);
    let back = commands_to_json(&commands);
    let commands2 = parse_commands(&back);
    assert_eq!(commands.len(), commands2.len());
    for (a, b) in commands.iter().zip(commands2.iter()) {
        assert_eq!(a.code, b.code);
        assert_eq!(a.indent, b.indent);
        assert_eq!(a.parameters.len(), b.parameters.len());
    }
}

#[test]
fn test_event_command_accessors() {
    let cmd = EventCommand::new(401, 0, vec![s("Hello, world!")]);
    assert_eq!(cmd.code, 401);
    assert_eq!(cmd.indent, 0);
    assert_eq!(cmd.get_dialogue_text().unwrap(), "Hello, world!");
    assert!(cmd.is_dialogue());
    assert_eq!(cmd.event_code(), EventCode::ShowTextBody);
}

#[test]
fn test_show_text_speaker() {
    let cmd = EventCommand::new(
        101,
        0,
        vec![s("Actor1"), JsonValue::Int(0), JsonValue::Int(0), JsonValue::Int(2), s("村人A")],
    );
    assert_eq!(cmd.get_speaker_name(), Some("村人A".to_string()));
}

#[test]
fn test_show_text_no_speaker() {
    let cmd = EventCommand::new(
        101,
        0,
        vec![s("Actor1"), JsonValue::Int(0), JsonValue::Int(0), JsonValue::Int(2), s("")],
    );
    assert_eq!(cmd.get_speaker_name(), None);
}

#[test]
fn test_script_special_text() {
    let cmd = EventCommand::new(657, 0, vec![s("テキスト = これは特別なテキストです")]);
    let text = cmd.get_script_special_text("テキスト = ").unwrap();
    assert_eq!(text, "これは特別なテキストです");
}

#[test]
fn test_create_dialogue_command() {
    let cmd = EventCommand::dialogue(0, "New text");
    assert_eq!(cmd.code, 401);
    assert_eq!(cmd.indent, 0);
    assert_eq!(cmd.get_dialogue_text().unwrap(), "New text");
}

#[test]
fn test_extract_from_list() {
    let parser = EventPageParser::new();
    let list = make_test_list();
    let path = TranslationPath::new();
    let mut context = ExtractionContext::new("test.json");
    let options = ExtractionOptions::default();

    let units = parser.extract_from_list(&list, &path, &mut context, &options);

    assert!(units.len() >= 3);

    let dialogue = units.iter().find(|u| u.code == EventCode::ShowTextBody);
    assert!(dialogue.is_some());
    let dialogue = dialogue.unwrap();
    assert_eq!(dialogue.speaker, Some("村人A".to_string()));
    assert!(dialogue.original.contains("こんにちは"));
}

#[test]
fn test_dialogue_merge_scenario() {
    // the dialogue-merge scenario: a header, two body lines and an end
    // command yield one merged unit carrying the speaker; re-injection
    // with a two-line translation rewrites both body commands
    let parser = EventPageParser::new();
    let list = JsonValue::Array(vec![
        cmd_json(101, 0, vec![s(""), JsonValue::Int(0), JsonValue::Int(0), JsonValue::Int(2), s("村人A")]),
        cmd_json(401, 0, vec![s("A")]),
        cmd_json(401, 0, vec![s("B")]),
        cmd_json(0, 0, vec![]),
    ]);
    let path = TranslationPath::new();
    let mut context = ExtractionContext::new("test.json");
    let units = parser.extract_from_list(&list, &path, &mut context, &ExtractionOptions::default());

    assert_eq!(units.len(), 1);
    assert!(units[0].id.ends_with("_dialogue"));
    assert_eq!(units[0].original, "A\nB");
    assert_eq!(units[0].speaker, Some("村人A".to_string()));

    let mut translations = TranslationMap::new();
    translations.insert(&units[0].id, "X\nY");
    let mut list2 = list;
    let result = parser.inject_to_list(&mut list2, &translations, &path, &InjectionOptions::default());
    assert_eq!(result.applied, 1);

    let commands = parse_commands(&list2);
    assert_eq!(commands.len(), 4);
    assert_eq!(commands[0].code, 101);
    assert_eq!(commands[1].get_dialogue_text().unwrap(), "X");
    assert_eq!(commands[2].get_dialogue_text().unwrap(), "Y");
    assert_eq!(commands[3].code, 0);
}

#[test]
fn test_choices_round_trip_scenario() {
    // choices and both branch headers are extracted and rewritten together
    let parser = EventPageParser::new();
    let list = JsonValue::Array(vec![
        cmd_json(102, 0, vec![
            JsonValue::Array(vec![s("はい"), s("いいえ")]),
            JsonValue::Int(0),
            JsonValue::Int(1),
            JsonValue::Int(2),
            JsonValue::Int(0),
        ]),
        cmd_json(402, 0, vec![JsonValue::Int(0), s("はい")]),
        cmd_json(0, 0, vec![]),
        cmd_json(402, 0, vec![JsonValue::Int(1), s("いいえ")]),
        cmd_json(0, 0, vec![]),
    ]);
    let path = TranslationPath::new();
    let mut context = ExtractionContext::new("test.json");
    let units = parser.extract_from_list(&list, &path, &mut context, &ExtractionOptions::default());

    let ids: Vec<&str> = units.iter().map(|u| u.id.as_str()).collect();
    assert!(ids.contains(&"list.0_choice_0"));
    assert!(ids.contains(&"list.0_choice_1"));
    assert!(ids.contains(&"list.1_choice_branch"));
    assert!(ids.contains(&"list.3_choice_branch"));
    assert_eq!(units.len(), 4);

    let mut translations = TranslationMap::new();
    translations.insert("list.0_choice_0", "Yes");
    translations.insert("list.0_choice_1", "No");
    translations.insert("list.1_choice_branch", "Yes");
    translations.insert("list.3_choice_branch", "No");

    let mut list2 = list;
    let result = parser.inject_to_list(&mut list2, &translations, &path, &InjectionOptions::default());
    assert_eq!(result.applied, 4);

    let commands = parse_commands(&list2);
    let choices = commands[0].get_array_param(0).unwrap();
    assert!(matches!(&choices[0], JsonValue::Str(v) if v == "Yes"));
    assert!(matches!(&choices[1], JsonValue::Str(v) if v == "No"));
    assert_eq!(commands[1].get_choice_text().unwrap(), "Yes");
    assert_eq!(commands[3].get_choice_text().unwrap(), "No");
}

#[test]
fn test_extract_twice_same_ids() {
    // running the same extraction twice yields identical id lists
    let parser = EventPageParser::new();
    let list = make_test_list();
    let path = TranslationPath::new();
    let options = ExtractionOptions::default();

    let mut ctx1 = ExtractionContext::new("test.json");
    let units1 = parser.extract_from_list(&list, &path, &mut ctx1, &options);
    let mut ctx2 = ExtractionContext::new("test.json");
    let units2 = parser.extract_from_list(&list, &path, &mut ctx2, &options);

    let ids1: Vec<&str> = units1.iter().map(|u| u.id.as_str()).collect();
    let ids2: Vec<&str> = units2.iter().map(|u| u.id.as_str()).collect();
    assert_eq!(ids1, ids2);
}

#[test]
fn test_identity_reinjection_preserves_commands() {
    // injecting every unit's own original text back leaves the parsed
    // command values equivalent
    let parser = EventPageParser::new();
    let list = make_test_list();
    let path = TranslationPath::new();
    let mut context = ExtractionContext::new("test.json");
    let units = parser.extract_from_list(&list, &path, &mut context, &ExtractionOptions::default());

    let mut translations = TranslationMap::new();
    for unit in &units {
        translations.insert(&unit.id, &unit.original);
    }

    let mut list2 = parse_commands(&list);
    let before = commands_to_json(&list2);
    let mut as_json = before;
    let _ = parser.inject_to_list(&mut as_json, &translations, &path, &InjectionOptions::default());

    let after_cmds = parse_commands(&as_json);
    assert_eq!(list2.len(), after_cmds.len());
    for (a, b) in list2.iter_mut().zip(after_cmds.iter()) {
        assert_eq!(a.code, b.code);
        assert_eq!(a.indent, b.indent);
        if a.code == 401 {
            assert_eq!(a.get_dialogue_text(), b.get_dialogue_text());
        }
    }
}

#[test]
fn test_empty_map_injection_is_noop() {
    let parser = EventPageParser::new();
    let list = make_test_list();
    let mut list2 = make_test_list();
    let path = TranslationPath::new();
    let translations = TranslationMap::new();
    let result = parser.inject_to_list(&mut list2, &translations, &path, &InjectionOptions::default());
    assert_eq!(result.applied, 0);
    assert_eq!(result.commands_modified, 0);
    // the command values are untouched
    let a = parse_commands(&list);
    let b = parse_commands(&list2);
    assert_eq!(a.len(), b.len());
    for (x, y) in a.iter().zip(b.iter()) {
        assert_eq!(x.code, y.code);
        assert_eq!(x.parameters.len(), y.parameters.len());
    }
}

#[test]
fn test_extract_from_pages() {
    let parser = EventPageParser::new();
    let pages = JsonValue::Array(vec![
        obj(vec![(
            "list",
            JsonValue::Array(vec![
                cmd_json(101, 0, vec![s(""), JsonValue::Int(0), JsonValue::Int(0), JsonValue::Int(2), s("NPC1")]),
                cmd_json(401, 0, vec![s("Page 1 dialogue")]),
                cmd_json(0, 0, vec![]),
            ]),
        )]),
        JsonValue::Null,
        obj(vec![(
            "list",
            JsonValue::Array(vec![
                cmd_json(101, 0, vec![s(""), JsonValue::Int(0), JsonValue::Int(0), JsonValue::Int(2), s("NPC2")]),
                cmd_json(401, 0, vec![s("Page 3 dialogue")]),
                cmd_json(0, 0, vec![]),
            ]),
        )]),
    ]);

    let path = TranslationPath::new();
    let context = ExtractionContext::new("test.json");
    let options = ExtractionOptions::default();

    let units = parser.extract_from_pages(&pages, &path, &context, &options);

    assert_eq!(units.len(), 2);

    let speakers: Vec<_> = units.iter().filter_map(|u| u.speaker.as_ref()).collect();
    assert!(speakers.contains(&&"NPC1".to_string()));
    assert!(speakers.contains(&&"NPC2".to_string()));
}

#[test]
fn test_file_extraction_result() {
    let mut result = FileExtractionResult::new("test.json");

    let unit1 = TranslationUnit::new(
        "1".to_string(),
        TranslationPath::new(),
        EventCode::ShowTextBody,
        "Test".to_string(),
    )
    .with_speaker(Some("NPC1".to_string()));

    let unit2 = TranslationUnit::new(
        "2".to_string(),
        TranslationPath::new(),
        EventCode::ShowTextBody,
        "Test 2".to_string(),
    )
    .with_speaker(Some("NPC2".to_string()));

    let unit3 = TranslationUnit::new(
        "3".to_string(),
        TranslationPath::new(),
        EventCode::ShowTextBody,
        "Test 3".to_string(),
    )
    .with_speaker(Some("NPC1".to_string()));

    result.add_units(vec![unit1, unit2, unit3]);

    assert_eq!(result.unit_count(), 3);
    assert_eq!(result.speakers.len(), 2);
    assert!(result.speakers.contains(&"NPC1".to_string()));
    assert!(result.speakers.contains(&"NPC2".to_string()));
}

fn make_common_events() -> JsonValue {
    JsonValue::Array(vec![
        JsonValue::Null,
        obj(vec![
            ("id", JsonValue::Int(1)),
            ("name", s("Welcome Event")),
            (
                "list",
                JsonValue::Array(vec![
                    cmd_json(101, 0, vec![s("Actor1"), JsonValue::Int(0), JsonValue::Int(0), JsonValue::Int(2), s("村長")]),
                    cmd_json(401, 0, vec![s("ようこそ、勇者よ！")]),
                    cmd_json(401, 0, vec![s("この村へ来てくれて嬉しいぞ。")]),
                    cmd_json(0, 0, vec![]),
                ]),
            ),
        ]),
        obj(vec![
            ("id", JsonValue::Int(2)),
            ("name", s("Shop Event")),
            (
                "list",
                JsonValue::Array(vec![
                    cmd_json(101, 0, vec![s("Actor2"), JsonValue::Int(0), JsonValue::Int(0), JsonValue::Int(2), s("商人")]),
                    cmd_json(401, 0, vec![s("いらっしゃい！")]),
                    cmd_json(102, 0, vec![
                        JsonValue::Array(vec![s("買う"), s("売る"), s("やめる")]),
                        JsonValue::Int(0),
                        JsonValue::Int(2),
                        JsonValue::Int(2),
                        JsonValue::Int(0),
                    ]),
                    cmd_json(402, 1, vec![JsonValue::Int(0), s("買う")]),
                    cmd_json(0, 1, vec![]),
                    cmd_json(402, 1, vec![JsonValue::Int(1), s("売る")]),
                    cmd_json(0, 1, vec![]),
                    cmd_json(402, 1, vec![JsonValue::Int(2), s("やめる")]),
                    cmd_json(0, 1, vec![]),
                    cmd_json(0, 0, vec![]),
                ]),
            ),
        ]),
    ])
}

#[test]
fn test_extract_common_events() {
    let parser = CommonEventsParser::new();
    let json = make_common_events();
    let options = ExtractionOptions::default();

    let result = parser.extract(&json, "CommonEvents.json", &options);

    assert!(result.unit_count() > 0);
    assert!(result.speakers.contains(&"村長".to_string()));
    assert!(result.speakers.contains(&"商人".to_string()));
}

#[test]
fn test_extract_with_context() {
    let parser = CommonEventsParser::new();
    let json = make_common_events();
    let options = ExtractionOptions::default();

    let result = parser.extract(&json, "CommonEvents.json", &options);

    let dialogue_unit = result.units.iter().find(|u| u.original.contains("ようこそ"));

    assert!(dialogue_unit.is_some());
    let unit = dialogue_unit.unwrap();
    assert_eq!(unit.speaker, Some("村長".to_string()));
    assert_eq!(unit.context.file_name, Some("CommonEvents.json".to_string()));
}

#[test]
fn test_inject_common_events() {
    let parser = CommonEventsParser::new();
    let mut json = make_common_events();
    let options = InjectionOptions::default();

    let extract_result =
        parser.extract(&json, "CommonEvents.json", &ExtractionOptions::default());

    let mut translations = TranslationMap::new();
    for unit in &extract_result.units {
        if unit.original.contains("ようこそ") {
            translations.insert(&unit.id, "Welcome, hero!");
        }
    }

    let result = parser.inject(&mut json, &translations, &options);

    assert!(result.applied > 0);
}

#[test]
fn test_null_handling() {
    let parser = CommonEventsParser::new();
    let json = JsonValue::Array(vec![JsonValue::Null, JsonValue::Null, JsonValue::Null]);
    let options = ExtractionOptions::default();

    let result = parser.extract(&json, "CommonEvents.json", &options);

    assert_eq!(result.unit_count(), 0);
    assert!(result.warnings.is_empty());
}

#[test]
fn test_empty_list() {
    let parser = CommonEventsParser::new();
    let json = JsonValue::Array(vec![obj(vec![
        ("id", JsonValue::Int(1)),
        ("name", s("Empty Event")),
        ("list", JsonValue::Array(vec![])),
    ])]);
    let options = ExtractionOptions::default();

    let result = parser.extract(&json, "CommonEvents.json", &options);

    assert_eq!(result.unit_count(), 0);
}

#[test]
fn test_to_translation_file() {
    let parser = CommonEventsParser::new();
    let json = make_common_events();
    let options = ExtractionOptions::default();

    let result = parser.extract(&json, "CommonEvents.json", &options);
    let trans_file = parser.to_translation_file(result);

    assert_eq!(trans_file.source_file, "CommonEvents.json");
    assert!(trans_file.units.len() > 0);
    assert_eq!(trans_file.version, "1.0");
}

fn make_map_json() -> JsonValue {
    obj(vec![
        ("autoplayBgm", JsonValue::Bool(false)),
        ("displayName", s("村")),
        ("width", JsonValue::Int(17)),
        ("height", JsonValue::Int(13)),
        (
            "events",
            JsonValue::Array(vec![
                JsonValue::Null,
                obj(vec![
                    ("id", JsonValue::Int(1)),
                    ("name", s("村人A")),
                    ("x", JsonValue::Int(10)),
                    ("y", JsonValue::Int(8)),
                    (
                        "pages",
                        JsonValue::Array(vec![
                            obj(vec![(
                                "list",
                                JsonValue::Array(vec![
                                    cmd_json(101, 0, vec![s("Actor1"), JsonValue::Int(0), JsonValue::Int(0), JsonValue::Int(2), s("村人A")]),
                                    cmd_json(401, 0, vec![s("こんにちは！")]),
                                    cmd_json(401, 0, vec![s("良い天気ですね。")]),
                                    cmd_json(0, 0, vec![]),
                                ]),
                            )]),
                            obj(vec![(
                                "list",
                                JsonValue::Array(vec![
                                    cmd_json(101, 0, vec![s("Actor1"), JsonValue::Int(0), JsonValue::Int(0), JsonValue::Int(2), s("村人A")]),
                                    cmd_json(401, 0, vec![s("また会いましたね！")]),
                                    cmd_json(0, 0, vec![]),
                                ]),
                            )]),
                        ]),
                    ),
                ]),
                obj(vec![
                    ("id", JsonValue::Int(2)),
                    ("name", s("看板")),
                    ("x", JsonValue::Int(5)),
                    ("y", JsonValue::Int(3)),
                    (
                        "pages",
                        JsonValue::Array(vec![obj(vec![(
                            "list",
                            JsonValue::Array(vec![
                                cmd_json(401, 0, vec![s("「村への入り口」")]),
                                cmd_json(0, 0, vec![]),
                            ]),
                        )])]),
                    ),
                ]),
            ]),
        ),
    ])
}

#[test]
fn test_extract_map() {
    let parser = MapParser::new();
    let json = make_map_json();
    let options = ExtractionOptions::default();

    let result = parser.extract(&json, "Map001.json", &options);

    assert!(result.unit_count() > 0);
    assert!(result.speakers.contains(&"村人A".to_string()));
}

#[test]
fn test_extract_map_with_context() {
    let parser = MapParser::new();
    let json = make_map_json();
    let options = ExtractionOptions::default();

    let result = parser.extract(&json, "Map001.json", &options);

    for unit in &result.units {
        assert_eq!(unit.context.map_name, Some("村".to_string()));
    }
}

#[test]
fn test_extract_multiple_pages() {
    let parser = MapParser::new();
    let json = make_map_json();
    let options = ExtractionOptions::default();

    let result = parser.extract(&json, "Map001.json", &options);

    let texts: Vec<&String> = result.units.iter().map(|u| &u.original).collect();
    assert!(texts.iter().any(|t| t.contains("こんにちは")));
    assert!(texts.iter().any(|t| t.contains("また会いました")));
    assert!(texts.iter().any(|t| t.contains("村への入り口")));
}

#[test]
fn test_inject_map() {
    let parser = MapParser::new();
    let mut json = make_map_json();
    let options = InjectionOptions::default();

    let extract_result = parser.extract(&json, "Map001.json", &ExtractionOptions::default());

    let mut translations = TranslationMap::new();
    for unit in &extract_result.units {
        if unit.original.contains("こんにちは") {
            translations.insert(&unit.id, "Hello!\nNice weather.");
        }
    }

    let result = parser.inject(&mut json, &translations, &options);

    assert!(result.applied > 0);
}

#[test]
fn test_null_events() {
    let parser = MapParser::new();
    let json = obj(vec![
        ("displayName", s("Empty Map")),
        ("events", JsonValue::Array(vec![JsonValue::Null, JsonValue::Null, JsonValue::Null])),
    ]);
    let options = ExtractionOptions::default();

    let result = parser.extract(&json, "Map001.json", &options);

    assert_eq!(result.unit_count(), 0);
    assert!(result.warnings.is_empty());
}

#[test]
fn test_map_with_null_event_scenario() {
    // a map with a null event and one real event yields one unit with the
    // speaker, and the map name comes from the display name
    let parser = MapParser::new();
    let json = obj(vec![
        ("displayName", s("テスト村")),
        (
            "events",
            JsonValue::Array(vec![
                JsonValue::Null,
                obj(vec![
                    ("id", JsonValue::Int(1)),
                    (
                        "pages",
                        JsonValue::Array(vec![obj(vec![(
                            "list",
                            JsonValue::Array(vec![
                                cmd_json(101, 0, vec![s(""), JsonValue::Int(0), JsonValue::Int(0), JsonValue::Int(2), s("NPC1")]),
                                cmd_json(401, 0, vec![s("hi")]),
                                cmd_json(0, 0, vec![]),
                            ]),
                        )])]),
                    ),
                ]),
            ]),
        ),
    ]);

    let result = parser.extract(&json, "Map001.json", &ExtractionOptions::default());
    assert_eq!(result.unit_count(), 1);
    assert_eq!(result.units[0].speaker, Some("NPC1".to_string()));
    assert_eq!(result.units[0].context.map_name, Some("テスト村".to_string()));
}

#[test]
fn test_is_map_file() {
    assert!(is_map_file("Map001.json"));
    assert!(is_map_file("Map123.json"));
    assert!(!is_map_file("MapInfos.json"));
    assert!(!is_map_file("CommonEvents.json"));
    assert!(!is_map_file("Actors.json"));
}

#[test]
fn test_plugin_command() {
    let cmd = EventCommand::new(
        357,
        0,
        vec![
            s("TorigoyaMZ_NotifyMessage"),
            s("notify"),
            s("通知の表示"),
            obj(vec![("message", s("テストメッセージ")), ("icon", s("")), ("note", s(""))]),
        ],
    );

    let plugin_data = cmd.get_plugin_data().unwrap();
    assert_eq!(plugin_data.plugin_name, "TorigoyaMZ_NotifyMessage");
    assert_eq!(plugin_data.command, "notify");
    assert_eq!(
        plugin_data.get_string_arg("message").unwrap(),
        "テストメッセージ"
    );
}

#[test]
fn test_plugin_data_get_by_path() {
    let cmd = EventCommand::new(
        357,
        0,
        vec![
            s("QuestPlugin"),
            s("update"),
            s("display"),
            obj(vec![(
                "quests",
                JsonValue::Array(vec![obj(vec![("title", s("first"))])]),
            )]),
        ],
    );
    let data = cmd.get_plugin_data().unwrap();
    match data.get_by_path("quests.0.title") {
        Some(JsonValue::Str(v)) => assert_eq!(v, "first"),
        other => panic!("unexpected value: {:?}", other),
    }
    assert!(data.get_by_path("quests.1.title").is_none());
}

#[test]
fn test_get_choices() {
    let cmd = EventCommand::new(
        102,
        0,
        vec![
            JsonValue::Array(vec![s("はい"), s("いいえ")]),
            JsonValue::Int(0),
            JsonValue::Int(1),
            JsonValue::Int(2),
            JsonValue::Int(0),
        ],
    );
    let choices = cmd.get_array_param(0).unwrap();
    assert_eq!(choices.len(), 2);
    assert!(matches!(&choices[0], JsonValue::Str(v) if v == "はい"));
    assert!(matches!(&choices[1], JsonValue::Str(v) if v == "いいえ"));
}

#[test]
fn test_choice_branch() {
    let cmd = EventCommand::new(402, 1, vec![JsonValue::Int(0), s("はい")]);
    assert_eq!(cmd.get_choice_text().unwrap(), "はい");
}

#[test]
fn test_map_name_falls_back_to_file_stem() {
    let json = obj(vec![
        ("displayName", s("")),
        (
            "events",
            JsonValue::Array(vec![obj(vec![
                ("id", JsonValue::Int(1)),
                (
                    "pages",
                    JsonValue::Array(vec![obj(vec![(
                        "list",
                        JsonValue::Array(vec![
                            cmd_json(401, 0, vec![s("hello")]),
                            cmd_json(0, 0, vec![]),
                        ]),
                    )])]),
                ),
            ])]),
        ),
    ]);
    let parser = MapParser::new();
    let result = parser.extract(&json, "Map003.json", &ExtractionOptions::default());
    assert_eq!(result.units.len(), 1);
    assert_eq!(result.units[0].context.map_name, Some("Map003".to_string()));
}

#[test]
fn test_speaker_resets_between_pages() {
    let json = obj(vec![(
        "events",
        JsonValue::Array(vec![obj(vec![
            ("id", JsonValue::Int(1)),
            (
                "pages",
                JsonValue::Array(vec![
                    obj(vec![(
                        "list",
                        JsonValue::Array(vec![
                            cmd_json(
                                101,
                                0,
                                vec![
                                    s(""),
                                    JsonValue::Int(0),
                                    JsonValue::Int(0),
                                    JsonValue::Int(2),
                                    s("NPC1"),
                                ],
                            ),
                            cmd_json(401, 0, vec![s("first page")]),
                            cmd_json(0, 0, vec![]),
                        ]),
                    )]),
                    obj(vec![(
                        "list",
                        JsonValue::Array(vec![
                            cmd_json(401, 0, vec![s("second page")]),
                            cmd_json(0, 0, vec![]),
                        ]),
                    )]),
                ]),
            ),
        ])]),
    )]);
    let parser = MapParser::new();
    let result = parser.extract(&json, "Map001.json", &ExtractionOptions::default());
    assert_eq!(result.units.len(), 2);
    assert_eq!(result.units[0].speaker, Some("NPC1".to_string()));
    assert_eq!(result.units[1].speaker, None);
}

#[test]
fn test_choices_paths_number_string_options() {
    let parser = EventPageParser::new();
    let list = JsonValue::Array(vec![
        cmd_json(
            102,
            0,
            vec![
                JsonValue::Array(vec![JsonValue::Int(7), s("yes"), s("no")]),
                JsonValue::Int(0),
            ],
        ),
        cmd_json(0, 0, vec![]),
    ]);
    let mut context = ExtractionContext::new("Map001.json");
    let units = parser.extract_from_list(
        &list,
        &TranslationPath::new(),
        &mut context,
        &ExtractionOptions::default(),
    );
    assert_eq!(units.len(), 2);
    assert_eq!(units[0].path.to_path_string(), "list.0.parameters.0.0");
    assert_eq!(units[1].path.to_path_string(), "list.0.parameters.0.1");
    assert_eq!(units[0].original, "yes");
    assert_eq!(units[1].original, "no");
}

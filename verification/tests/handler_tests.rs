//! Tests for the per-opcode handlers: dialogue, choices, comments, script
//! text and plugin commands.

use hayotrans::command::EventCommand;
use hayotrans::context::ExtractionContext;
use hayotrans::handlers::choices::{ChoiceBranchHandler, ChoicesHandler};
use hayotrans::handlers::comment::{CommentHandler, ScriptTextHandler};
use hayotrans::handlers::dialogue::{DialogueHandler, ShowTextHandler};
use hayotrans::handlers::plugin::{PluginCommandHandler, PluginExtractionConfig};
use hayotrans::json::JsonValue;
use hayotrans::options::{ExtractionOptions, InjectionOptions};
use hayotrans::tmap::TranslationMap;
use hayotrans::translation_path::TranslationPath;

fn s(text: &str) -> JsonValue {
    JsonValue::Str(text.to_string())
}

fn make_show_text(speaker: &str) -> EventCommand {
    EventCommand::new(
        101,
        0,
        vec![s("Actor1"), JsonValue::Int(0), JsonValue::Int(0), JsonValue::Int(2), s(speaker)],
    )
}

fn make_dialogue(text: &str, indent: i32) -> EventCommand {
    EventCommand::new(401, indent, vec![s(text)])
}

fn make_choices(choices: &[&str]) -> EventCommand {
    EventCommand::new(
        102,
        0,
        vec![
            JsonValue::Array(choices.iter().map(|c| s(c)).collect()),
            JsonValue::Int(0),
            JsonValue::Int(1),
            JsonValue::Int(2),
            JsonValue::Int(0),
        ],
    )
}

fn make_choice_branch(choice_index: i64, text: &str) -> EventCommand {
    EventCommand::new(402, 1, vec![JsonValue::Int(choice_index), s(text)])
}

fn make_comment(text: &str) -> EventCommand {
    EventCommand::new(408, 0, vec![s(text)])
}

fn make_script_text(text: &str) -> EventCommand {
    EventCommand::new(657, 0, vec![s(&format!("テキスト = {}", text))])
}

fn make_plugin_command(plugin_name: &str, args: JsonValue) -> EventCommand {
    EventCommand::new(357, 0, vec![s(plugin_name), s("command"), s("Display Name"), args])
}

fn obj(fields: Vec<(&str, JsonValue)>) -> JsonValue {
    JsonValue::Object(fields.into_iter().map(|(k, v)| (k.to_string(), v)).collect())
}

#[test]
fn test_show_text_extracts_speaker() {
    let commands = vec![make_show_text("村人A")];
    let path = TranslationPath::new();
    let context = ExtractionContext::new("test.json");
    let options = ExtractionOptions::default();

    let result = ShowTextHandler::extract(&commands, 0, &path, &context, &options);

    assert_eq!(result.consumed, 1);
    assert_eq!(result.speaker_update, Some(Some("村人A".to_string())));
}

#[test]
fn test_show_text_empty_speaker_gives_no_update() {
    let commands = vec![make_show_text("")];
    let path = TranslationPath::new();
    let context = ExtractionContext::new("test.json");
    let options = ExtractionOptions::default();

    let result = ShowTextHandler::extract(&commands, 0, &path, &context, &options);

    // an empty speaker string does not update the context speaker
    assert_eq!(result.speaker_update, None);
}

#[test]
fn test_dialogue_extracts_single_line() {
    let commands = vec![make_dialogue("Hello!", 0)];
    let path = TranslationPath::new();
    let context = ExtractionContext::new("test.json");
    let options = ExtractionOptions::default();

    let result = DialogueHandler::extract(&commands, 0, &path, &context, &options);

    assert_eq!(result.consumed, 1);
    assert_eq!(result.units.len(), 1);
    assert_eq!(result.units[0].original, "Hello!");
}

#[test]
fn test_dialogue_merges_consecutive_lines() {
    let commands = vec![
        make_dialogue("Line 1", 0),
        make_dialogue("Line 2", 0),
        make_dialogue("Line 3", 0),
    ];
    let path = TranslationPath::new();
    let context = ExtractionContext::new("test.json");
    let options = ExtractionOptions::default();

    let result = DialogueHandler::extract(&commands, 0, &path, &context, &options);

    assert_eq!(result.consumed, 3);
    assert_eq!(result.units.len(), 1);
    assert_eq!(result.units[0].original, "Line 1\nLine 2\nLine 3");
}

#[test]
fn test_dialogue_respects_indent() {
    let commands = vec![
        make_dialogue("Line 1", 0),
        make_dialogue("Line 2", 0),
        make_dialogue("Nested", 1),
    ];
    let path = TranslationPath::new();
    let context = ExtractionContext::new("test.json");
    let options = ExtractionOptions::default();

    let result = DialogueHandler::extract(&commands, 0, &path, &context, &options);

    assert_eq!(result.consumed, 2);
    assert_eq!(result.units[0].original, "Line 1\nLine 2");
}

#[test]
fn test_dialogue_single_then_other_opcode() {
    // one 401 followed by any other opcode: exactly one unit, one command
    // consumed
    let commands = vec![make_dialogue("Only line", 0), make_comment("note")];
    let path = TranslationPath::new();
    let context = ExtractionContext::new("test.json");
    let options = ExtractionOptions::default();

    let result = DialogueHandler::extract(&commands, 0, &path, &context, &options);

    assert_eq!(result.consumed, 1);
    assert_eq!(result.units.len(), 1);
}

#[test]
fn test_dialogue_run_cut_by_indent_change() {
    // three 401s at indent zero then one at indent one: one unit, three
    // commands consumed
    let commands = vec![
        make_dialogue("A", 0),
        make_dialogue("B", 0),
        make_dialogue("C", 0),
        make_dialogue("D", 1),
    ];
    let path = TranslationPath::new();
    let context = ExtractionContext::new("test.json");
    let options = ExtractionOptions::default();

    let result = DialogueHandler::extract(&commands, 0, &path, &context, &options);

    assert_eq!(result.consumed, 3);
    assert_eq!(result.units.len(), 1);
    assert_eq!(result.units[0].original, "A\nB\nC");
}

#[test]
fn test_dialogue_injection() {
    let mut commands = vec![make_dialogue("Line 1", 0), make_dialogue("Line 2", 0)];
    let path = TranslationPath::new();
    let options = InjectionOptions::default();

    let mut translations = TranslationMap::new();
    translations.insert("0_dialogue", "Translated Line 1\nTranslated Line 2");

    let (result, _stride) =
        DialogueHandler::inject(&mut commands, 0, &translations, &path, &options);

    assert_eq!(result.applied, 1);
    assert_eq!(commands.len(), 2);
    assert_eq!(commands[0].get_dialogue_text().unwrap(), "Translated Line 1");
    assert_eq!(commands[1].get_dialogue_text().unwrap(), "Translated Line 2");
}

#[test]
fn test_dialogue_injection_missing_is_noop() {
    let mut commands = vec![make_dialogue("Line 1", 0)];
    let path = TranslationPath::new();
    let options = InjectionOptions::default();
    let translations = TranslationMap::new();

    let (result, stride) =
        DialogueHandler::inject(&mut commands, 0, &translations, &path, &options);

    assert_eq!(result.applied, 0);
    assert_eq!(stride, 1);
    assert_eq!(commands[0].get_dialogue_text().unwrap(), "Line 1");
}

#[test]
fn test_dialogue_injection_with_max_length() {
    let mut commands = vec![make_dialogue("Short", 0)];
    let path = TranslationPath::new();
    let options = InjectionOptions::default().with_max_line_length(20);

    let mut translations = TranslationMap::new();
    translations.insert(
        "0_dialogue",
        "This is a very long translated text that should be split",
    );

    let (result, _stride) =
        DialogueHandler::inject(&mut commands, 0, &translations, &path, &options);

    assert_eq!(result.applied, 1);
    assert!(commands.len() > 1);
    for cmd in &commands {
        assert!(cmd.get_dialogue_text().unwrap().len() <= 20);
    }
}

#[test]
fn test_choices_extraction() {
    let commands = vec![make_choices(&["はい", "いいえ", "考え中"])];
    let path = TranslationPath::new();
    let context = ExtractionContext::new("test.json");
    let options = ExtractionOptions::default();

    let result = ChoicesHandler::extract(&commands, 0, &path, &context, &options);

    assert_eq!(result.consumed, 1);
    assert_eq!(result.units.len(), 3);
    assert_eq!(result.units[0].original, "はい");
    assert_eq!(result.units[1].original, "いいえ");
    assert_eq!(result.units[2].original, "考え中");
}

#[test]
fn test_choices_skip_empty() {
    let commands = vec![make_choices(&["はい", "", "いいえ"])];
    let path = TranslationPath::new();
    let context = ExtractionContext::new("test.json");
    let options = ExtractionOptions::default();

    let result = ChoicesHandler::extract(&commands, 0, &path, &context, &options);

    assert_eq!(result.units.len(), 2);
    assert_eq!(result.units[0].original, "はい");
    assert_eq!(result.units[1].original, "いいえ");
}

#[test]
fn test_choices_injection() {
    let mut commands = vec![make_choices(&["はい", "いいえ"])];
    let path = TranslationPath::new();
    let options = InjectionOptions::default();

    let mut translations = TranslationMap::new();
    translations.insert("0_choice_0", "Yes");
    translations.insert("0_choice_1", "No");

    let result = ChoicesHandler::inject(&mut commands, 0, &translations, &path, &options);

    assert_eq!(result.applied, 2);
    let choices = commands[0].get_array_param(0).unwrap();
    assert!(matches!(&choices[0], JsonValue::Str(v) if v == "Yes"));
    assert!(matches!(&choices[1], JsonValue::Str(v) if v == "No"));
}

#[test]
fn test_choice_branch_extraction() {
    let commands = vec![make_choice_branch(0, "はい")];
    let path = TranslationPath::new();
    let context = ExtractionContext::new("test.json");
    let options = ExtractionOptions::default();

    let result = ChoiceBranchHandler::extract(&commands, 0, &path, &context, &options);

    assert_eq!(result.consumed, 1);
    assert_eq!(result.units.len(), 1);
    assert_eq!(result.units[0].original, "はい");
}

#[test]
fn test_choice_branch_injection() {
    let mut commands = vec![make_choice_branch(0, "はい")];
    let path = TranslationPath::new();
    let options = InjectionOptions::default();

    let mut translations = TranslationMap::new();
    translations.insert("0_choice_branch", "Yes");

    let result = ChoiceBranchHandler::inject(&mut commands, 0, &translations, &path, &options);

    assert_eq!(result.applied, 1);
    assert_eq!(commands[0].get_choice_text().unwrap(), "Yes");
}

#[test]
fn test_comment_extraction() {
    let commands = vec![make_comment("これはコメントです")];
    let path = TranslationPath::new();
    let context = ExtractionContext::new("test.json");
    let options = ExtractionOptions::default();

    let result = CommentHandler::extract(&commands, 0, &path, &context, &options);

    assert_eq!(result.consumed, 1);
    assert_eq!(result.units.len(), 1);
    assert_eq!(result.units[0].original, "これはコメントです");
    assert!(result.units[0].context.tags.contains(&"comment".to_string()));
}

#[test]
fn test_comment_skip_semicolon() {
    let commands = vec![make_comment("; This is a code comment")];
    let path = TranslationPath::new();
    let context = ExtractionContext::new("test.json");
    let options = ExtractionOptions::default();

    let result = CommentHandler::extract(&commands, 0, &path, &context, &options);

    assert_eq!(result.units.len(), 0);
}

#[test]
fn test_comment_extraction_disabled() {
    let commands = vec![make_comment("これはコメントです")];
    let path = TranslationPath::new();
    let context = ExtractionContext::new("test.json");
    let mut options = ExtractionOptions::default();
    options.extract_comments = false;

    let result = CommentHandler::extract(&commands, 0, &path, &context, &options);

    assert_eq!(result.units.len(), 0);
}

#[test]
fn test_comment_injection() {
    let mut commands = vec![make_comment("これはコメントです")];
    let path = TranslationPath::new();
    let options = InjectionOptions::default();

    let mut translations = TranslationMap::new();
    translations.insert("0_comment", "This is a comment");

    let result = CommentHandler::inject(&mut commands, 0, &translations, &path, &options);

    assert_eq!(result.applied, 1);
    assert_eq!(commands[0].get_comment_text().unwrap(), "This is a comment");
}

#[test]
fn test_script_text_extraction() {
    let handler = ScriptTextHandler::default_prefix();
    let commands = vec![make_script_text("特別なテキスト")];
    let path = TranslationPath::new();
    let context = ExtractionContext::new("test.json");
    let options = ExtractionOptions::default();

    let result = handler.extract(&commands, 0, &path, &context, &options);

    assert_eq!(result.consumed, 1);
    assert_eq!(result.units.len(), 1);
    assert_eq!(result.units[0].original, "特別なテキスト");
    assert!(result.units[0].context.tags.contains(&"script_text".to_string()));
}

#[test]
fn test_script_text_no_match() {
    let handler = ScriptTextHandler::default_prefix();
    let commands = vec![EventCommand::new(657, 0, vec![s("some_variable = 100")])];
    let path = TranslationPath::new();
    let context = ExtractionContext::new("test.json");
    let options = ExtractionOptions::default();

    let result = handler.extract(&commands, 0, &path, &context, &options);

    assert_eq!(result.units.len(), 0);
}

#[test]
fn test_script_text_injection() {
    let handler = ScriptTextHandler::default_prefix();
    let mut commands = vec![make_script_text("特別なテキスト")];
    let path = TranslationPath::new();
    let options = InjectionOptions::default();

    let mut translations = TranslationMap::new();
    translations.insert("0_script_text", "Special Text");

    let result = handler.inject(&mut commands, 0, &translations, &path, &options);

    assert_eq!(result.applied, 1);
    let text = commands[0].get_string_param(0).unwrap();
    assert!(text.starts_with("テキスト = "));
    assert!(text.ends_with("Special Text"));
}

#[test]
fn test_torigoya_notify_message() {
    let handler = PluginCommandHandler::new();
    let commands = vec![make_plugin_command(
        "TorigoyaMZ_NotifyMessage",
        obj(vec![("message", s("テストメッセージ")), ("icon", s("")), ("note", s(""))]),
    )];

    let path = TranslationPath::new();
    let context = ExtractionContext::new("test.json");
    let options = ExtractionOptions::default();

    let result = handler.extract(&commands, 0, &path, &context, &options);

    assert_eq!(result.units.len(), 1);
    assert_eq!(result.units[0].original, "テストメッセージ");
    assert!(result.units[0]
        .context
        .tags
        .contains(&"plugin:TorigoyaMZ_NotifyMessage".to_string()));
}

#[test]
fn test_unknown_plugin() {
    let handler = PluginCommandHandler::new();
    let commands = vec![make_plugin_command(
        "UnknownPlugin",
        obj(vec![("someField", s("Some Value"))]),
    )];

    let path = TranslationPath::new();
    let context = ExtractionContext::new("test.json");
    let options = ExtractionOptions::default();

    let result = handler.extract(&commands, 0, &path, &context, &options);

    assert_eq!(result.units.len(), 0);
}

#[test]
fn test_user_defined_config() {
    let mut handler = PluginCommandHandler::new();

    handler.add_user_config(
        PluginExtractionConfig::new("CustomPlugin")
            .add_path("customField", Some("Custom field".to_string())),
    );

    let commands = vec![make_plugin_command(
        "CustomPlugin",
        obj(vec![("customField", s("カスタムテキスト"))]),
    )];

    let path = TranslationPath::new();
    let context = ExtractionContext::new("test.json");
    let options = ExtractionOptions::default();

    let result = handler.extract(&commands, 0, &path, &context, &options);

    assert_eq!(result.units.len(), 1);
    assert_eq!(result.units[0].original, "カスタムテキスト");
}

#[test]
fn test_plugin_extraction_disabled() {
    let handler = PluginCommandHandler::new();
    let commands = vec![make_plugin_command(
        "TorigoyaMZ_NotifyMessage",
        obj(vec![("message", s("テストメッセージ"))]),
    )];

    let path = TranslationPath::new();
    let context = ExtractionContext::new("test.json");
    let mut options = ExtractionOptions::default();
    options.extract_plugins = false;

    let result = handler.extract(&commands, 0, &path, &context, &options);

    assert_eq!(result.units.len(), 0);
}

#[test]
fn test_plugin_injection() {
    let handler = PluginCommandHandler::new();
    let mut commands = vec![make_plugin_command(
        "TorigoyaMZ_NotifyMessage",
        obj(vec![("message", s("テストメッセージ")), ("icon", s("")), ("note", s(""))]),
    )];

    let path = TranslationPath::new();
    let options = InjectionOptions::default();

    let mut translations = TranslationMap::new();
    translations.insert("0_plugin_TorigoyaMZ_NotifyMessage_message", "Test Message");

    let result = handler.inject(&mut commands, 0, &translations, &path, &options);

    assert_eq!(result.applied, 1);
    let args = commands[0].get_object_param(3).unwrap();
    assert!(matches!(&args[0].1, JsonValue::Str(v) if v == "Test Message"));
}

#[test]
fn test_nested_field_extraction() {
    let mut handler = PluginCommandHandler::new();

    handler.add_user_config(
        PluginExtractionConfig::new("QuestPlugin")
            .add_path("quests.|ARY|.title", Some("Quest title".to_string())),
    );

    let commands = vec![make_plugin_command(
        "QuestPlugin",
        obj(vec![(
            "quests",
            JsonValue::Array(vec![
                obj(vec![("title", s("クエスト1")), ("completed", JsonValue::Bool(false))]),
                obj(vec![("title", s("クエスト2")), ("completed", JsonValue::Bool(true))]),
            ]),
        )]),
    )];

    let path = TranslationPath::new();
    let context = ExtractionContext::new("test.json");
    let options = ExtractionOptions::default();

    let result = handler.extract(&commands, 0, &path, &context, &options);

    assert_eq!(result.units.len(), 2);
    assert!(result.units.iter().any(|u| u.original == "クエスト1"));
    assert!(result.units.iter().any(|u| u.original == "クエスト2"));
}

#[test]
fn test_plugin_field_targeting_round_trip() {
    // a user-configured pattern extracts both titles and injection
    // rewrites them, leaving the other fields untouched
    let mut handler = PluginCommandHandler::new();
    handler.add_user_config(
        PluginExtractionConfig::new("CustomPlugin").add_path("quests.|ARY|.title", None),
    );

    let args = obj(vec![(
        "quests",
        JsonValue::Array(vec![
            obj(vec![("title", s("A")), ("done", JsonValue::Bool(false))]),
            obj(vec![("title", s("B")), ("done", JsonValue::Bool(true))]),
        ]),
    )]);
    let mut commands = vec![make_plugin_command("CustomPlugin", args)];
    let path = TranslationPath::new();
    let context = ExtractionContext::new("test.json");
    let options = ExtractionOptions::default();

    let result = handler.extract(&commands, 0, &path, &context, &options);
    assert_eq!(result.units.len(), 2);
    assert_eq!(result.units[0].original, "A");
    assert_eq!(result.units[1].original, "B");

    let mut translations = TranslationMap::new();
    translations.insert(&result.units[0].id, "a");
    translations.insert(&result.units[1].id, "b");
    let inject_result = handler.inject(
        &mut commands,
        0,
        &translations,
        &path,
        &InjectionOptions::default(),
    );
    assert_eq!(inject_result.applied, 2);

    let quests_path = TranslationPath::parse("quests.0.title").unwrap();
    let args_after = &commands[0].parameters[3];
    assert!(matches!(quests_path.get(args_after), Some(JsonValue::Str(v)) if v == "a"));
    let quests_path2 = TranslationPath::parse("quests.1.title").unwrap();
    assert!(matches!(quests_path2.get(args_after), Some(JsonValue::Str(v)) if v == "b"));
    let done_path = TranslationPath::parse("quests.0.done").unwrap();
    assert!(matches!(done_path.get(args_after), Some(JsonValue::Bool(false))));
}

//! Tests for event codes, options, contexts and translation units.

use hayotrans::context::{ExtractionContext, InjectionResult};
use hayotrans::event_code::EventCode;
use hayotrans::options::{ExtractionOptions, InjectionOptions};
use hayotrans::translation_path::TranslationPath;
use hayotrans::translation_unit::{TranslationFile, TranslationStatus, TranslationUnit};

#[test]
fn test_event_code_from_i32() {
    assert_eq!(EventCode::from(101), EventCode::ShowText);
    assert_eq!(EventCode::from(401), EventCode::ShowTextBody);
    assert_eq!(EventCode::from(102), EventCode::ShowChoices);
    assert_eq!(EventCode::from(357), EventCode::PluginCommand);
    assert_eq!(EventCode::from(999), EventCode::Unknown(999));
}

#[test]
fn test_event_code_to_i32() {
    assert_eq!(EventCode::ShowText.code(), 101);
    assert_eq!(EventCode::ShowTextBody.code(), 401);
    assert_eq!(EventCode::Unknown(999).code(), 999);
}

#[test]
fn test_is_translatable() {
    assert!(EventCode::ShowTextBody.is_translatable());
    assert!(EventCode::ShowChoices.is_translatable());
    assert!(!EventCode::ChoicesEnd.is_translatable());
}

#[test]
fn test_is_continuation() {
    assert!(EventCode::ShowTextBody.is_continuation());
    assert!(EventCode::CommentBody.is_continuation());
    assert!(!EventCode::ShowText.is_continuation());
}

#[test]
fn test_extraction_options_default() {
    let opts = ExtractionOptions::default();
    assert!(opts.merge_dialogue_lines);
    assert!(opts.extract_comments);
    assert!(!opts.include_empty);
}

#[test]
fn test_should_skip_comment() {
    let opts = ExtractionOptions::default();
    assert!(opts.should_skip_comment("; This is a comment"));
    assert!(!opts.should_skip_comment("This is not a comment"));
}

#[test]
fn test_injection_split_no_limit() {
    let opts = InjectionOptions::default();
    let result = opts.split_text("Line 1\nLine 2\nLine 3");
    assert_eq!(result, vec!["Line 1", "Line 2", "Line 3"]);
}

#[test]
fn test_injection_split_with_limit() {
    let opts = InjectionOptions::default().with_max_line_length(20);
    let result = opts.split_text("This is a very long line that needs splitting");
    assert!(result.iter().all(|line| line.len() <= 20));
    assert!(result.len() > 1);
}

#[test]
fn test_injection_split_cjk() {
    let opts = InjectionOptions {
        max_line_length: Some(10),
        word_aware_split: false,
        ..InjectionOptions::default()
    };
    let result = opts.split_text("これは日本語のテキストです");
    assert!(result.len() > 1);
}

#[test]
fn test_injection_split_preserve_breaks() {
    let opts = InjectionOptions {
        max_line_length: Some(50),
        preserve_line_breaks: true,
        ..InjectionOptions::default()
    };
    let result = opts.split_text("Line 1\nLine 2");
    assert_eq!(result.len(), 2);
}

#[test]
fn test_injection_split_no_preserve_breaks() {
    let opts = InjectionOptions {
        max_line_length: Some(50),
        preserve_line_breaks: false,
        ..InjectionOptions::default()
    };
    let result = opts.split_text("Line 1\nLine 2");
    assert_eq!(result.len(), 1);
    assert!(result[0].contains("Line 1"));
    assert!(result[0].contains("Line 2"));
}

#[test]
fn test_extraction_context_creation() {
    let ctx = ExtractionContext::new("CommonEvents.json")
        .with_event_id(5)
        .with_event_name("Test Event")
        .with_page_index(0);

    assert_eq!(ctx.file_name, "CommonEvents.json");
    assert_eq!(ctx.event_id, Some(5));
    assert_eq!(ctx.event_name, Some("Test Event".to_string()));
    assert_eq!(ctx.page_index, 0);
}

#[test]
fn test_preceding_lines() {
    let mut ctx = ExtractionContext::new("test.json").with_max_preceding_lines(3);

    ctx.add_preceding_line("Line 1");
    ctx.add_preceding_line("Line 2");
    ctx.add_preceding_line("Line 3");
    ctx.add_preceding_line("Line 4");

    let lines = ctx.get_preceding_lines();
    assert_eq!(lines.len(), 3);
    assert_eq!(lines[0], "Line 2");
    assert_eq!(lines[2], "Line 4");
}

#[test]
fn test_generate_unit_id() {
    let mut ctx = ExtractionContext::new("test.json")
        .with_event_id(3)
        .with_page_index(1);

    assert_eq!(ctx.generate_unit_id("dialogue"), "e3.p1.0_dialogue");
    assert_eq!(ctx.generate_unit_id("choice"), "e3.p1.1_choice");
}

#[test]
fn test_for_event() {
    let ctx = ExtractionContext::new("Map001.json").with_map_name("Forest");

    let event_ctx = ctx.for_event(5, Some("NPC Dialogue".to_string()));

    assert_eq!(event_ctx.file_name, "Map001.json");
    assert_eq!(event_ctx.map_name, Some("Forest".to_string()));
    assert_eq!(event_ctx.event_id, Some(5));
    assert_eq!(event_ctx.event_name, Some("NPC Dialogue".to_string()));
    assert_eq!(event_ctx.page_index, 0);
}

#[test]
fn test_to_translation_context() {
    let mut ctx = ExtractionContext::new("test.json")
        .with_map_name("Town")
        .with_event_name("Shopkeeper");

    ctx.add_preceding_line("Hello!");
    ctx.set_speaker(Some("NPC".to_string()));

    let trans_ctx = ctx.to_translation_context();

    assert_eq!(trans_ctx.file_name, Some("test.json".to_string()));
    assert_eq!(trans_ctx.map_name, Some("Town".to_string()));
    assert_eq!(trans_ctx.event_name, Some("Shopkeeper".to_string()));
    assert_eq!(trans_ctx.preceding_lines, vec!["Hello!".to_string()]);
}

#[test]
fn test_injection_result_merge() {
    let mut result1 = InjectionResult {
        applied: 5,
        not_found: 1,
        commands_modified: 10,
        warnings: vec!["Warning 1".to_string()],
    };

    let result2 = InjectionResult {
        applied: 3,
        not_found: 2,
        commands_modified: 5,
        warnings: vec!["Warning 2".to_string()],
    };

    result1.merge(result2);

    assert_eq!(result1.applied, 8);
    assert_eq!(result1.not_found, 3);
    assert_eq!(result1.commands_modified, 15);
    assert_eq!(result1.warnings.len(), 2);
}

#[test]
fn test_translation_unit_creation() {
    let unit = TranslationUnit::new(
        "test_1".to_string(),
        TranslationPath::new(),
        EventCode::ShowTextBody,
        "Hello World".to_string(),
    );

    assert_eq!(unit.id, "test_1");
    assert_eq!(unit.original, "Hello World");
    assert!(!unit.is_translated());
    assert_eq!(unit.status, TranslationStatus::Pending);
}

#[test]
fn test_translation_unit_with_translation() {
    let unit = TranslationUnit::new(
        "test_1".to_string(),
        TranslationPath::new(),
        EventCode::ShowTextBody,
        "こんにちは".to_string(),
    )
    .with_translation("Hello".to_string());

    assert!(unit.is_translated());
    assert_eq!(unit.effective_text(), "Hello");
    assert_eq!(unit.status, TranslationStatus::Translated);
}

#[test]
fn test_needs_translation() {
    let japanese = TranslationUnit::new(
        "1".to_string(),
        TranslationPath::new(),
        EventCode::ShowTextBody,
        "こんにちは".to_string(),
    );
    assert!(japanese.needs_translation());

    let english = TranslationUnit::new(
        "2".to_string(),
        TranslationPath::new(),
        EventCode::ShowTextBody,
        "Hello".to_string(),
    );
    assert!(!english.needs_translation());
}

#[test]
fn test_translation_status() {
    assert!(TranslationStatus::Reviewed.is_complete());
    assert!(TranslationStatus::Skipped.is_complete());
    assert!(!TranslationStatus::Pending.is_complete());

    assert!(TranslationStatus::Pending.needs_attention());
    assert!(TranslationStatus::NeedsRevision.needs_attention());
    assert!(!TranslationStatus::Reviewed.needs_attention());
}

#[test]
fn test_translation_file_counts() {
    let mut file = TranslationFile::new("CommonEvents.json");

    file.add_unit(TranslationUnit::new(
        "1".to_string(),
        TranslationPath::new(),
        EventCode::ShowTextBody,
        "Text 1".to_string(),
    ));

    file.add_unit(
        TranslationUnit::new(
            "2".to_string(),
            TranslationPath::new(),
            EventCode::ShowTextBody,
            "Text 2".to_string(),
        )
        .with_speaker(Some("NPC".to_string()))
        .with_translation("Translated 2".to_string()),
    );

    assert_eq!(file.metadata.total_units, 2);
    assert_eq!(file.metadata.translated, 1);
    assert_eq!(file.metadata.speakers, vec!["NPC".to_string()]);
    assert!(!file.extracted_at.is_empty());
}

//! Tests for the engine, project, progress, dialogue, translation, error
//! and configuration types, and the detection helpers.

use hayotrans::config::{AppConfig, ConfigResponse};
use hayotrans::detect::{extract_title_from_config, make_display_name};
use hayotrans::dialogue::{DialogueContext, DialogueLine, GameFile};
use hayotrans::engine::{GameEngine, KiriKiriVersion, RpgMakerVersion};
use hayotrans::errors::ErrorResponse;
use hayotrans::progress::ProgressState;
use hayotrans::project::{DetectionResult, GameProject, ProjectMetadata};
use hayotrans::translation::{ReviewStatus, TranslationEntry, TranslatorType};

#[test]
fn test_rpg_maker_version_from_extension() {
    assert_eq!(
        RpgMakerVersion::from_extension(".rgssad"),
        Some(RpgMakerVersion::XP)
    );
    assert_eq!(
        RpgMakerVersion::from_extension(".rgss2a"),
        Some(RpgMakerVersion::VX)
    );
    assert_eq!(
        RpgMakerVersion::from_extension(".rgss3a"),
        Some(RpgMakerVersion::VXAce)
    );
    assert_eq!(RpgMakerVersion::from_extension(".unknown"), None);
}

#[test]
fn test_rpg_maker_version_project_filename() {
    assert_eq!(RpgMakerVersion::XP.project_filename(), "Game.rxproj");
    assert_eq!(RpgMakerVersion::VX.project_filename(), "Game.rvproj");
    assert_eq!(RpgMakerVersion::VXAce.project_filename(), "Game.rvproj2");
    assert_eq!(RpgMakerVersion::MV.project_filename(), "package.json");
    assert_eq!(RpgMakerVersion::MZ.project_filename(), "package.json");
}

#[test]
fn test_rpg_maker_version_uses_marshal() {
    assert!(RpgMakerVersion::XP.uses_marshal());
    assert!(RpgMakerVersion::VX.uses_marshal());
    assert!(RpgMakerVersion::VXAce.uses_marshal());
    assert!(!RpgMakerVersion::MV.uses_marshal());
    assert!(!RpgMakerVersion::MZ.uses_marshal());
}

#[test]
fn test_game_engine_is_supported() {
    assert!(GameEngine::RpgMaker(RpgMakerVersion::MV).is_supported());
    assert!(GameEngine::KiriKiri(KiriKiriVersion::Z).is_supported());
    assert!(!GameEngine::Unknown.is_supported());
}

#[test]
fn test_progress_state_order() {
    assert!(ProgressState::DialoguesExtracted.is_past(&ProgressState::Initial));
    assert!(ProgressState::Finalized.is_at_or_past(&ProgressState::Finalized));
    assert!(!ProgressState::Initial.is_past(&ProgressState::AssetsUnpacked));
}

#[test]
fn test_progress_state_next() {
    assert_eq!(
        ProgressState::Initial.next(),
        Some(ProgressState::AssetsUnpacked)
    );
    assert_eq!(ProgressState::Finalized.next(), None);
}

#[test]
fn test_db_str_roundtrip() {
    for state in ProgressState::all_states() {
        let s = state.as_db_str();
        let parsed = ProgressState::from_db_str(s);
        assert_eq!(state, parsed);
    }
}

#[test]
fn test_dialogue_line_needs_translation() {
    let japanese = DialogueLine::new(
        "1".to_string(),
        "test.json".to_string(),
        1,
        "こんにちは".to_string(),
    );
    assert!(japanese.needs_translation());

    let english = DialogueLine::new(
        "2".to_string(),
        "test.json".to_string(),
        2,
        "Hello".to_string(),
    );
    assert!(!english.needs_translation());

    let korean = DialogueLine::new(
        "3".to_string(),
        "test.json".to_string(),
        3,
        "안녕하세요".to_string(),
    );
    assert!(korean.needs_translation());
}

#[test]
fn test_dialogue_context_builder() {
    let context = DialogueContext::new()
        .with_map_name("Town")
        .with_event_name("NPC Dialogue")
        .add_preceding_line("Hello")
        .add_tag("greeting");

    assert_eq!(context.map_name, Some("Town".to_string()));
    assert_eq!(context.event_name, Some("NPC Dialogue".to_string()));
    assert_eq!(context.preceding_lines.len(), 1);
    assert_eq!(context.tags.len(), 1);
}

#[test]
fn test_game_file() {
    let content = b"test content".to_vec();
    let file = GameFile::new("test.txt".to_string(), content.clone());

    assert_eq!(file.size, content.len());
    assert_eq!(file.extension(), Some("txt".to_string()));
    assert_eq!(file.as_text().unwrap(), "test content");
}

#[test]
fn test_error_response() {
    let response = ErrorResponse::new("Test error");
    assert_eq!(response.error, "Test error");
    assert!(response.details.is_none());

    let response = ErrorResponse::with_details("Test error", "More details");
    assert_eq!(response.error, "Test error");
    assert_eq!(response.details, Some("More details".to_string()));
}

#[test]
fn test_project_metadata_builder() {
    let metadata = ProjectMetadata::new()
        .with_title("Test Game")
        .with_author("Test Author")
        .with_language("Japanese");

    assert_eq!(metadata.title, Some("Test Game".to_string()));
    assert_eq!(metadata.author, Some("Test Author".to_string()));
    assert_eq!(metadata.language, Some("Japanese".to_string()));
}

#[test]
fn test_game_project_name() {
    let metadata = ProjectMetadata::new().with_title("My Game");
    let project = GameProject::new(
        "/test/path",
        GameEngine::RpgMaker(RpgMakerVersion::MV),
        "1.0.0".to_string(),
        metadata,
    );

    assert_eq!(project.name(), "My Game");
}

#[test]
fn test_game_project_id_stable() {
    let a = GameProject::new(
        "/games/example",
        GameEngine::RpgMaker(RpgMakerVersion::MZ),
        "MZ".to_string(),
        ProjectMetadata::new(),
    );
    let b = GameProject::new(
        "/games/example",
        GameEngine::RpgMaker(RpgMakerVersion::MZ),
        "MZ".to_string(),
        ProjectMetadata::new(),
    );
    assert_eq!(a.id, b.id);
    assert!(a.id.starts_with("project_"));
    let c = GameProject::new(
        "/games/other",
        GameEngine::RpgMaker(RpgMakerVersion::MZ),
        "MZ".to_string(),
        ProjectMetadata::new(),
    );
    assert_ne!(a.id, c.id);
}

#[test]
fn test_detection_result() {
    let success = DetectionResult::success(GameProject::new(
        "/test",
        GameEngine::RpgMaker(RpgMakerVersion::MV),
        "1.0.0".to_string(),
        ProjectMetadata::new(),
    ));

    assert!(success.success);
    assert!(success.project.is_some());
    assert!(success.error.is_none());

    let failure = DetectionResult::failure("Test error");
    assert!(!failure.success);
    assert!(failure.project.is_none());
    assert_eq!(failure.error, Some("Test error".to_string()));
}

#[test]
fn test_translator_type_display() {
    assert_eq!(TranslatorType::Gcp.display_name(), "Google Cloud Translation");
    assert_eq!(TranslatorType::EzTrans.display_name(), "ezTrans");
    assert_eq!(TranslatorType::OpenAi.display_name(), "OpenAI");
    assert_eq!(TranslatorType::Human.display_name(), "Human");
}

#[test]
fn test_default_config() {
    let config = AppConfig::default();
    assert_eq!(config.language, "en");
    assert_eq!(config.theme, "system");
    assert_eq!(config.window_width, 1280);
}

#[test]
fn test_config_response_from() {
    let config = AppConfig::default();
    let response = ConfigResponse::from(config);
    assert_eq!(response.language, "en");
    assert_eq!(response.theme, "system");
}

#[test]
fn test_extract_title_from_config() {
    let config = r#"
            title = "My Game";
            version = "1.0";
        "#;

    let title = extract_title_from_config(config);
    assert_eq!(title, Some("My Game".to_string()));
}

#[test]
fn test_make_display_name() {
    assert_eq!(
        make_display_name("RpgMaker", Some("RPG Maker MV")),
        "RPG Maker MV"
    );
    assert_eq!(make_display_name("KiriKiri", None), "KiriKiri");
    assert_eq!(make_display_name("SomethingElse", Some("x")), "Unknown");
}

#[test]
fn test_translation_entry_review_flow() {
    let mut entry = TranslationEntry::new(
        "dialogue_1".to_string(),
        "こんにちは".to_string(),
        "Hello".to_string(),
        TranslatorType::Gcp,
    );
    assert_eq!(entry.dialogue_id, "dialogue_1");
    assert_eq!(entry.status, ReviewStatus::Pending);
    assert!(entry.reviewed_by.is_none());
    assert!(entry.id.starts_with("trans_dialogue_1_"));
    assert_eq!(entry.created_at, entry.updated_at);

    entry.approve("reviewer1");
    assert_eq!(entry.status, ReviewStatus::Approved);
    assert_eq!(entry.reviewed_by, Some("reviewer1".to_string()));

    entry.reject("reviewer2", "Incorrect translation");
    assert_eq!(entry.status, ReviewStatus::Rejected);
    assert_eq!(entry.notes, Some("Incorrect translation".to_string()));
}

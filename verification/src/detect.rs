//! The decision parts of game-engine detection: the text and JSON
//! inspection that classifies a project once a caller has gathered the
//! directory's evidence.  Probing the file system belongs to the caller.

use vstd::prelude::*;

use crate::engine::{GameEngine, KiriKiriVersion, RpgMakerVersion, V8Engine};
use crate::json::{Json, JsonValue};
use crate::project::ProjectMetadata;
use crate::strutil::append_str;

verus! {

/// Pull the quoted title out of a KiriKiri configuration script: the
/// first line holding `title` and `=` with a double-quoted value.
pub fn extract_title_from_config(content: &str) -> (r: Option<String>) {
    let lines = crate::strutil::split_on_char(content, '\n');
    let mut li: usize = 0;
    let n = lines.len();
    while li < n
        invariant
            li <= n,
            n == lines@.len(),
        decreases n - li,
    {
        let line = &lines[li];
        if contains_substr(line.as_str(), "title") && contains_char(line.as_str(), '=') {
            match find_char(line.as_str(), 0, '"') {
                Some(start) => {
                    match start.checked_add(1) {
                        Some(start1) => {
                            match find_char(line.as_str(), start1, '"') {
                                Some(end) => {
                                    return Some(
                                        String::from_str(
                                            line.as_str().substring_char(start1, end),
                                        ),
                                    );
                                },
                                None => {},
                            }
                        },
                        None => {},
                    }
                },
                None => {},
            }
        }
        li = li + 1;
    }
    None
}

/// Whether a string holds a character.
fn contains_char(s: &str, c: char) -> (r: bool)
    ensures
        r == exists|i: int| 0 <= i < s@.len() && s@[i] == c,
{
    match find_char(s, 0, c) {
        Some(_) => true,
        None => false,
    }
}

/// The first position of a character at or after `from`.
fn find_char(s: &str, from: usize, c: char) -> (r: Option<usize>)
    ensures
        match r {
            Some(i) => from <= i < s@.len() && s@[i as int] == c,
            None => forall|i: int| from <= i < s@.len() ==> s@[i] != c,
        },
{
    let n = s.unicode_len();
    if from >= n {
        return None;
    }
    let mut i: usize = from;
    while i < n
        invariant
            from <= i <= n,
            n == s@.len(),
            forall|j: int| from <= j < i ==> s@[j] != c,
        decreases n - i,
    {
        if s.get_char(i) == c {
            return Some(i);
        }
        i = i + 1;
    }
    None
}

/// Whether a string holds a substring.
fn contains_substr(s: &str, sub: &str) -> (r: bool) {
    let n = s.unicode_len();
    let m = sub.unicode_len();
    if m > n {
        return false;
    }
    if m == 0 {
        return true;
    }
    let mut i: usize = 0;
    while i <= n - m
        invariant
            i <= n - m + 1,
            1 <= m <= n,
            n == s@.len(),
            m == sub@.len(),
        decreases n - m + 1 - i,
    {
        let piece = s.substring_char(i, i + m);
        if crate::strutil::str_eq(piece, sub) {
            return true;
        }
        i = i + 1;
    }
    false
}

/// Metadata for an engine detected only through its project file: the
/// title names the engine.
pub fn metadata_from_project_file(version: RpgMakerVersion) -> (r: ProjectMetadata)
    ensures
        r.title is Some,
{
    let mut title = String::from_str("RPG Maker ");
    let name = match version {
        RpgMakerVersion::XP => "XP",
        RpgMakerVersion::VX => "VX",
        RpgMakerVersion::VXAce => "VX Ace",
        RpgMakerVersion::MV => "MV",
        RpgMakerVersion::MZ => "MZ",
    };
    append_str(&mut title, name);
    append_str(&mut title, " Project");
    ProjectMetadata::new().with_title(title.as_str())
}

/// Metadata from a parsed `package.json`: name, author and description,
/// each falling back to a placeholder.
pub fn metadata_from_package_json(json: &JsonValue) -> (r: ProjectMetadata) {
    let title: String = match json.get_key("name") {
        Some(v) => match v.as_str() {
            Some(s) => s.clone(),
            None => String::from_str("Unknown"),
        },
        None => String::from_str("Unknown"),
    };
    let author: String = match json.get_key("author") {
        Some(v) => match v.as_str() {
            Some(s) => s.clone(),
            None => String::from_str("Unknown"),
        },
        None => String::from_str("Unknown"),
    };
    let description: String = match json.get_key("description") {
        Some(v) => match v.as_str() {
            Some(s) => s.clone(),
            None => String::from_str(""),
        },
        None => String::from_str(""),
    };
    ProjectMetadata::new().with_title(title.as_str()).with_author(author.as_str()).with_description(
        description.as_str(),
    )
}

/// Metadata from a parsed `System.json`: the game title and locale, with
/// Japanese as the fallback locale.
pub fn metadata_from_system_json(json: &JsonValue) -> (r: ProjectMetadata) {
    let title: String = match json.get_key("gameTitle") {
        Some(v) => match v.as_str() {
            Some(s) => s.clone(),
            None => String::from_str("Unknown"),
        },
        None => String::from_str("Unknown"),
    };
    let locale: String = match json.get_key("locale") {
        Some(v) => match v.as_str() {
            Some(s) => s.clone(),
            None => String::from_str("ja_JP"),
        },
        None => String::from_str("ja_JP"),
    };
    ProjectMetadata::new().with_title(title.as_str()).with_language(locale.as_str())
}

/// Classify the KiriKiri generation from which launcher files exist.
pub fn classify_kirikiri(has_krkrz: bool, has_krkr: bool, has_startup_tjs: bool) -> (r: Option<
    KiriKiriVersion,
>)
    ensures
        has_krkrz ==> r == Some(KiriKiriVersion::Z),
        !has_krkrz && (has_krkr || has_startup_tjs) ==> r == Some(KiriKiriVersion::KAG3),
        !has_krkrz && !has_krkr && !has_startup_tjs ==> r is None,
{
    if has_krkrz {
        Some(KiriKiriVersion::Z)
    } else if has_krkr || has_startup_tjs {
        Some(KiriKiriVersion::KAG3)
    } else {
        None
    }
}

/// Classify the RPG Maker generation of a JSON-data project from which
/// core script is present; MV is assumed when neither is.
pub fn classify_json_rpg_maker(has_rmmz_core: bool, has_rpg_core: bool) -> (r: RpgMakerVersion)
    ensures
        has_rmmz_core ==> r is MZ,
        !has_rmmz_core ==> r is MV,
{
    if has_rmmz_core {
        RpgMakerVersion::MZ
    } else if has_rpg_core {
        RpgMakerVersion::MV
    } else {
        RpgMakerVersion::MV
    }
}

/// Classify a V8 runtime from the dependencies named in `package.json`.
pub fn classify_v8_engine(mentions_nw: bool, mentions_electron: bool) -> (r: V8Engine)
    ensures
        mentions_nw ==> r is NwJs,
        !mentions_nw && mentions_electron ==> r is Electron,
        !mentions_nw && !mentions_electron ==> r is Generic,
{
    if mentions_nw {
        V8Engine::NwJs
    } else if mentions_electron {
        V8Engine::Electron
    } else {
        V8Engine::Generic
    }
}

/// The engine-information record the shell displays.
#[derive(Debug)]
pub struct EngineInfo {
    /// The engine family name.
    pub engine_type: String,
    /// The version label, when known.
    pub version: Option<String>,
    /// The full display name.
    pub display_name: String,
}

impl From<&GameEngine> for EngineInfo {
    /// Describe an engine for display.
    fn from(engine: &GameEngine) -> (r: EngineInfo) {
        match engine {
            GameEngine::RpgMaker(version) => EngineInfo {
                engine_type: String::from_str("RpgMaker"),
                version: Some(String::from_str(version.display_name())),
                display_name: String::from_str(version.display_name()),
            },
            GameEngine::KiriKiri(version) => EngineInfo {
                engine_type: String::from_str("KiriKiri"),
                version: Some(String::from_str(version.display_name())),
                display_name: String::from_str(version.display_name()),
            },
            GameEngine::V8Engine(v8type) => EngineInfo {
                engine_type: String::from_str("V8Engine"),
                version: Some(String::from_str(v8type.display_name())),
                display_name: String::from_str(v8type.display_name()),
            },
            GameEngine::Unknown => EngineInfo {
                engine_type: String::from_str("Unknown"),
                version: None,
                display_name: String::from_str("Unknown"),
            },
        }
    }
}

impl vstd::std_specs::convert::FromSpecImpl<&GameEngine> for EngineInfo {
    open spec fn obeys_from_spec() -> bool {
        false
    }

    open spec fn from_spec(v: &GameEngine) -> EngineInfo {
        arbitrary()
    }
}

/// The project record the shell lists.
#[derive(Debug)]
pub struct ProjectInfo {
    /// Project id.
    pub id: String,
    /// Display name.
    pub name: String,
    /// Project directory.
    pub path: String,
    /// Engine description.
    pub engine: EngineInfo,
    /// Creation time, as stored.
    pub created_at: String,
    /// Last-opened time, as stored.
    pub last_opened_at: String,
    /// Total dialogue lines.
    pub total_lines: i64,
    /// Translated dialogue lines.
    pub translated_lines: i64,
    /// A thumbnail, base64-encoded, when one exists.
    pub thumbnail_base64: Option<String>,
    /// Workflow progress.
    pub progress_state: crate::progress::ProgressState,
}

/// The display name for a stored engine type and version pair: the
/// version text for a known engine family, the family name without one,
/// and a fixed fallback for anything unrecognised.
pub fn make_display_name(engine_type: &str, engine_version: Option<&str>) -> (r: String)
    ensures
        ({
            let known = engine_type@ == "RpgMaker"@ || engine_type@ == "KiriKiri"@
                || engine_type@ == "V8Engine"@;
            &&& match engine_version {
                Some(v) => known ==> r@ == v@,
                None => known ==> r@ == engine_type@,
            }
            &&& !known ==> r@ == "Unknown"@
        }),
{
    proof {
        reveal_strlit("RpgMaker");
        reveal_strlit("KiriKiri");
        reveal_strlit("V8Engine");
    }
    if crate::strutil::str_eq(engine_type, "RpgMaker") || crate::strutil::str_eq(
        engine_type,
        "KiriKiri",
    ) || crate::strutil::str_eq(engine_type, "V8Engine") {
        match engine_version {
            Some(v) => String::from_str(v),
            None => String::from_str(engine_type),
        }
    } else {
        String::from_str("Unknown")
    }
}

} // verus!

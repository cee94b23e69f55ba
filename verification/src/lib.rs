//! Translation tooling for legacy RPG Maker games: a bit-exact codec for the
//! RGSS archive formats (V1 and V3) and a structural extractor / injector for
//! the JSON event-command data used by the MV and MZ engines.

pub mod archiver;
pub mod config;
pub mod detect;
pub mod dialogue;
pub mod engine;
pub mod errors;
pub mod progress;
pub mod project;
pub mod translation;
pub mod clock;
pub mod command;
pub mod common_events;
pub mod context;
pub mod event_code;
pub mod event_page;
pub mod handlers;
pub mod json;
pub mod map_file;
pub mod options;
pub mod tmap;
pub mod translation_unit;
pub mod rgss;
pub mod strutil;
pub mod translation_path;

use vstd::prelude::*;

verus! {

} // verus!

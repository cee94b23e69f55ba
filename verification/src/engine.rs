//! Game engine identification types.

use vstd::prelude::*;

verus! {

/// RPG Maker release families.
#[derive(Debug, Clone, Copy, PartialEq, Eq, Structural)]
pub enum RpgMakerVersion {
    /// RPG Maker XP (.rgssad archives).
    XP,
    /// RPG Maker VX (.rgss2a archives).
    VX,
    /// RPG Maker VX Ace (.rgss3a archives).
    VXAce,
    /// RPG Maker MV (JSON data under www/data).
    MV,
    /// RPG Maker MZ (JSON data under www/data).
    MZ,
}

impl RpgMakerVersion {
    /// The version an archive file extension (with its dot) stands for.
    pub open spec fn spec_from_extension(ext: Seq<char>) -> Option<RpgMakerVersion> {
        if ext == ".rgssad"@ {
            Some(RpgMakerVersion::XP)
        } else if ext == ".rgss2a"@ {
            Some(RpgMakerVersion::VX)
        } else if ext == ".rgss3a"@ {
            Some(RpgMakerVersion::VXAce)
        } else {
            None
        }
    }

    /// Detect the version from an archive extension written with its dot,
    /// lower case.
    pub fn from_extension(ext: &str) -> (r: Option<Self>)
        ensures
            r == Self::spec_from_extension(crate::archiver::spec_ascii_lower(ext@)),
    {
        proof {
            reveal_strlit(".rgssad");
            reveal_strlit(".rgss2a");
            reveal_strlit(".rgss3a");
        }
        if crate::archiver::eq_ignore_ascii_case(ext, ".rgssad") {
            Some(RpgMakerVersion::XP)
        } else if crate::archiver::eq_ignore_ascii_case(ext, ".rgss2a") {
            Some(RpgMakerVersion::VX)
        } else if crate::archiver::eq_ignore_ascii_case(ext, ".rgss3a") {
            Some(RpgMakerVersion::VXAce)
        } else {
            None
        }
    }

    /// The project file name for this version.
    pub fn project_filename(&self) -> (r: &'static str)
        ensures
            *self is XP ==> r@ == "Game.rxproj"@,
            *self is VX ==> r@ == "Game.rvproj"@,
            *self is VXAce ==> r@ == "Game.rvproj2"@,
            (*self is MV || *self is MZ) ==> r@ == "package.json"@,
    {
        match self {
            RpgMakerVersion::XP => "Game.rxproj",
            RpgMakerVersion::VX => "Game.rvproj",
            RpgMakerVersion::VXAce => "Game.rvproj2",
            RpgMakerVersion::MV => "package.json",
            RpgMakerVersion::MZ => "package.json",
        }
    }

    /// The text a fresh project file carries, for the versions that have
    /// one.
    pub fn project_content(&self) -> (r: Option<&'static str>)
        ensures
            *self is XP ==> (r matches Some(c) && c@ == "RPGXP 1.02"@),
            *self is VX ==> (r matches Some(c) && c@ == "RPGVX 1.02"@),
            *self is VXAce ==> (r matches Some(c) && c@ == "RPGVXAce 1.00"@),
            (*self is MV || *self is MZ) ==> r is None,
    {
        match self {
            RpgMakerVersion::XP => Some("RPGXP 1.02"),
            RpgMakerVersion::VX => Some("RPGVX 1.02"),
            RpgMakerVersion::VXAce => Some("RPGVXAce 1.00"),
            RpgMakerVersion::MV => None,
            RpgMakerVersion::MZ => None,
        }
    }

    /// The directory the engine keeps its data files in.
    pub fn data_directory(&self) -> (r: &'static str)
        ensures
            (*self is XP || *self is VX || *self is VXAce) ==> r@ == "Data"@,
            (*self is MV || *self is MZ) ==> r@ == "www/data"@,
    {
        match self {
            RpgMakerVersion::XP | RpgMakerVersion::VX | RpgMakerVersion::VXAce => "Data",
            RpgMakerVersion::MV | RpgMakerVersion::MZ => "www/data",
        }
    }

    /// Whether the engine stores data in the Marshal format.
    pub fn uses_marshal(&self) -> (r: bool)
        ensures
            r == matches!(
                *self,
                RpgMakerVersion::XP | RpgMakerVersion::VX | RpgMakerVersion::VXAce
            ),
    {
        matches!(self, RpgMakerVersion::XP | RpgMakerVersion::VX | RpgMakerVersion::VXAce)
    }

    /// Whether the engine stores data as JSON.
    pub fn uses_json(&self) -> (r: bool)
        ensures
            r == matches!(*self, RpgMakerVersion::MV | RpgMakerVersion::MZ),
    {
        matches!(self, RpgMakerVersion::MV | RpgMakerVersion::MZ)
    }

    /// A human-readable name.
    pub fn display_name(&self) -> (r: &'static str)
        ensures
            *self is XP ==> r@ == "RPG Maker XP"@,
            *self is VX ==> r@ == "RPG Maker VX"@,
            *self is VXAce ==> r@ == "RPG Maker VX Ace"@,
            *self is MV ==> r@ == "RPG Maker MV"@,
            *self is MZ ==> r@ == "RPG Maker MZ"@,
    {
        match self {
            RpgMakerVersion::XP => "RPG Maker XP",
            RpgMakerVersion::VX => "RPG Maker VX",
            RpgMakerVersion::VXAce => "RPG Maker VX Ace",
            RpgMakerVersion::MV => "RPG Maker MV",
            RpgMakerVersion::MZ => "RPG Maker MZ",
        }
    }
}

/// KiriKiri engine generations.
#[derive(Debug, Clone, Copy, PartialEq, Eq, Structural)]
pub enum KiriKiriVersion {
    /// KiriKiri KAG3.
    KAG3,
    /// KiriKiri Z.
    Z,
}

impl KiriKiriVersion {
    /// A human-readable name.
    pub fn display_name(&self) -> (r: &'static str)
        ensures
            *self is KAG3 ==> r@ == "KiriKiri KAG3"@,
            *self is Z ==> r@ == "KiriKiri Z"@,
    {
        match self {
            KiriKiriVersion::KAG3 => "KiriKiri KAG3",
            KiriKiriVersion::Z => "KiriKiri Z",
        }
    }
}

/// V8-based runtimes.
#[derive(Debug, Clone, Copy, PartialEq, Eq, Structural)]
pub enum V8Engine {
    /// NW.js.
    NwJs,
    /// Electron.
    Electron,
    /// Some other V8 runtime.
    Generic,
}

impl V8Engine {
    /// A human-readable name.
    pub fn display_name(&self) -> (r: &'static str)
        ensures
            *self is NwJs ==> r@ == "NW.js"@,
            *self is Electron ==> r@ == "Electron"@,
            *self is Generic ==> r@ == "Generic V8 Engine"@,
    {
        match self {
            V8Engine::NwJs => "NW.js",
            V8Engine::Electron => "Electron",
            V8Engine::Generic => "Generic V8 Engine",
        }
    }
}

/// A game engine.
#[derive(Debug, Clone, Copy, PartialEq, Eq, Structural)]
pub enum GameEngine {
    /// An RPG Maker release.
    RpgMaker(RpgMakerVersion),
    /// A KiriKiri release.
    KiriKiri(KiriKiriVersion),
    /// A V8-based runtime.
    V8Engine(V8Engine),
    /// Nothing recognisable.
    Unknown,
}

impl GameEngine {
    /// The engine's name.
    pub fn name(&self) -> (r: String)
        ensures
            *self is Unknown ==> r@ == "Unknown Engine"@,
            *self matches GameEngine::RpgMaker(v) && v is MV ==> r@ == "RPG Maker MV"@,
            *self matches GameEngine::KiriKiri(v) && v is Z ==> r@ == "KiriKiri Z"@,
    {
        match self {
            GameEngine::RpgMaker(v) => String::from_str(v.display_name()),
            GameEngine::KiriKiri(v) => String::from_str(v.display_name()),
            GameEngine::V8Engine(v) => String::from_str(v.display_name()),
            GameEngine::Unknown => String::from_str("Unknown Engine"),
        }
    }

    /// Whether the engine is one this tool can work with.
    pub fn is_supported(&self) -> (r: bool)
        ensures
            r == !(*self is Unknown),
    {
        !matches!(self, GameEngine::Unknown)
    }
}

} // verus!

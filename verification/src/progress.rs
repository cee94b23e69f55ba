//! Workflow progress states for a translation project.

use vstd::prelude::*;

use crate::strutil::str_eq;

verus! {

broadcast use vstd::string::group_string_axioms;

/// The stage a project has reached in the translation workflow.
#[derive(Debug, Clone, Copy, PartialEq, Eq, Structural)]
pub enum ProgressState {
    /// Just added.
    Initial,
    /// Assets unpacked, for archived games.
    AssetsUnpacked,
    /// Dialogues and text extracted.
    DialoguesExtracted,
    /// Metadata translated.
    MetadataTranslated,
    /// Main dialogues translated.
    DialoguesTranslated,
    /// Assets repacked.
    AssetsRepacked,
    /// Final version merged.
    Finalized,
}

impl ProgressState {
    /// The position of a state in the workflow order.
    pub open spec fn spec_index(self) -> int {
        match self {
            ProgressState::Initial => 0,
            ProgressState::AssetsUnpacked => 1,
            ProgressState::DialoguesExtracted => 2,
            ProgressState::MetadataTranslated => 3,
            ProgressState::DialoguesTranslated => 4,
            ProgressState::AssetsRepacked => 5,
            ProgressState::Finalized => 6,
        }
    }

    /// Every state, in workflow order.
    pub fn all_states() -> (r: Vec<ProgressState>)
        ensures
            r@.len() == 7,
            forall|i: int| 0 <= i < 7 ==> (#[trigger] r@[i]).spec_index() == i,
    {
        let mut v: Vec<ProgressState> = Vec::new();
        v.push(ProgressState::Initial);
        v.push(ProgressState::AssetsUnpacked);
        v.push(ProgressState::DialoguesExtracted);
        v.push(ProgressState::MetadataTranslated);
        v.push(ProgressState::DialoguesTranslated);
        v.push(ProgressState::AssetsRepacked);
        v.push(ProgressState::Finalized);
        v
    }

    /// The position of this state in the workflow.
    pub fn index(&self) -> (r: usize)
        ensures
            r == self.spec_index(),
    {
        match self {
            ProgressState::Initial => 0,
            ProgressState::AssetsUnpacked => 1,
            ProgressState::DialoguesExtracted => 2,
            ProgressState::MetadataTranslated => 3,
            ProgressState::DialoguesTranslated => 4,
            ProgressState::AssetsRepacked => 5,
            ProgressState::Finalized => 6,
        }
    }

    /// How many states the workflow has.
    pub fn total_states() -> (r: usize)
        ensures
            r == 7,
    {
        7
    }

    /// Whether this state lies strictly after another.
    pub fn is_past(&self, other: &ProgressState) -> (r: bool)
        ensures
            r == (self.spec_index() > other.spec_index()),
    {
        self.index() > other.index()
    }

    /// Whether this state lies at or after another.
    pub fn is_at_or_past(&self, other: &ProgressState) -> (r: bool)
        ensures
            r == (self.spec_index() >= other.spec_index()),
    {
        self.index() >= other.index()
    }

    /// The next state of the workflow, if any.
    pub fn next(&self) -> (r: Option<ProgressState>)
        ensures
            *self is Finalized ==> r is None,
            !(*self is Finalized) ==> (r matches Some(s) && s.spec_index() == self.spec_index()
                + 1),
    {
        match self {
            ProgressState::Initial => Some(ProgressState::AssetsUnpacked),
            ProgressState::AssetsUnpacked => Some(ProgressState::DialoguesExtracted),
            ProgressState::DialoguesExtracted => Some(ProgressState::MetadataTranslated),
            ProgressState::MetadataTranslated => Some(ProgressState::DialoguesTranslated),
            ProgressState::DialoguesTranslated => Some(ProgressState::AssetsRepacked),
            ProgressState::AssetsRepacked => Some(ProgressState::Finalized),
            ProgressState::Finalized => None,
        }
    }

    /// The stable string a state is stored under.
    pub open spec fn spec_db_str(self) -> Seq<char> {
        match self {
            ProgressState::Initial => "initial"@,
            ProgressState::AssetsUnpacked => "assets_unpacked"@,
            ProgressState::DialoguesExtracted => "dialogues_extracted"@,
            ProgressState::MetadataTranslated => "metadata_translated"@,
            ProgressState::DialoguesTranslated => "dialogues_translated"@,
            ProgressState::AssetsRepacked => "assets_repacked"@,
            ProgressState::Finalized => "finalized"@,
        }
    }

    /// The stable storage string of this state.
    pub fn as_db_str(&self) -> (r: &'static str)
        ensures
            r@ == self.spec_db_str(),
    {
        match self {
            ProgressState::Initial => "initial",
            ProgressState::AssetsUnpacked => "assets_unpacked",
            ProgressState::DialoguesExtracted => "dialogues_extracted",
            ProgressState::MetadataTranslated => "metadata_translated",
            ProgressState::DialoguesTranslated => "dialogues_translated",
            ProgressState::AssetsRepacked => "assets_repacked",
            ProgressState::Finalized => "finalized",
        }
    }

    /// The state a storage string parses to; anything unrecognised is
    /// the initial state.
    pub open spec fn spec_from_db(s: Seq<char>) -> ProgressState {
        if s == "assets_unpacked"@ {
            ProgressState::AssetsUnpacked
        } else if s == "dialogues_extracted"@ {
            ProgressState::DialoguesExtracted
        } else if s == "metadata_translated"@ {
            ProgressState::MetadataTranslated
        } else if s == "dialogues_translated"@ {
            ProgressState::DialoguesTranslated
        } else if s == "assets_repacked"@ {
            ProgressState::AssetsRepacked
        } else if s == "finalized"@ {
            ProgressState::Finalized
        } else {
            ProgressState::Initial
        }
    }

    /// Parse a storage string; anything unrecognised is the initial
    /// state.
    pub fn from_db_str(s: &str) -> (r: ProgressState)
        ensures
            r == Self::spec_from_db(s@),
    {
        proof {
            reveal_strlit("initial");
            reveal_strlit("assets_unpacked");
            reveal_strlit("dialogues_extracted");
            reveal_strlit("metadata_translated");
            reveal_strlit("dialogues_translated");
            reveal_strlit("assets_repacked");
            reveal_strlit("finalized");
        }
        if str_eq(s, "assets_unpacked") {
            ProgressState::AssetsUnpacked
        } else if str_eq(s, "dialogues_extracted") {
            ProgressState::DialoguesExtracted
        } else if str_eq(s, "metadata_translated") {
            ProgressState::MetadataTranslated
        } else if str_eq(s, "dialogues_translated") {
            ProgressState::DialoguesTranslated
        } else if str_eq(s, "assets_repacked") {
            ProgressState::AssetsRepacked
        } else if str_eq(s, "finalized") {
            ProgressState::Finalized
        } else {
            ProgressState::Initial
        }
    }
}

impl Default for ProgressState {
    /// New projects start at the initial state.
    fn default() -> (r: Self)
        ensures
            r is Initial,
    {
        ProgressState::Initial
    }
}

/// Severity of a project log entry.
#[derive(Debug, Clone, Copy, PartialEq, Eq, Structural)]
pub enum LogLevel {
    /// Diagnostic detail.
    Debug,
    /// Routine information.
    Info,
    /// Something suspicious.
    Warning,
    /// Something failed.
    Error,
}

impl LogLevel {
    /// The stable storage string of this level.
    pub fn as_str(&self) -> (r: &'static str)
        ensures
            *self is Debug ==> r@ == "debug"@,
            *self is Info ==> r@ == "info"@,
            *self is Warning ==> r@ == "warning"@,
            *self is Error ==> r@ == "error"@,
    {
        match self {
            LogLevel::Debug => "debug",
            LogLevel::Info => "info",
            LogLevel::Warning => "warning",
            LogLevel::Error => "error",
        }
    }
}

/// Category of a project log entry.
#[derive(Debug, Clone, Copy, PartialEq, Eq, Structural)]
pub enum LogType {
    /// General system log.
    System,
    /// A file read, write or extraction.
    FileOperation,
    /// A translation operation.
    Translation,
    /// An archive pack or unpack.
    Archive,
    /// A parsing operation.
    Parsing,
    /// A user action.
    UserAction,
}

impl LogType {
    /// The stable storage string of this category.
    pub fn as_str(&self) -> (r: &'static str)
        ensures
            *self is System ==> r@ == "system"@,
            *self is FileOperation ==> r@ == "file_operation"@,
            *self is Translation ==> r@ == "translation"@,
            *self is Archive ==> r@ == "archive"@,
            *self is Parsing ==> r@ == "parsing"@,
            *self is UserAction ==> r@ == "user_action"@,
    {
        match self {
            LogType::System => "system",
            LogType::FileOperation => "file_operation",
            LogType::Translation => "translation",
            LogType::Archive => "archive",
            LogType::Parsing => "parsing",
            LogType::UserAction => "user_action",
        }
    }
}

} // verus!

//! Translation units: one extracted translatable string with its id,
//! location, context and workflow status, plus the per-file collection.

use vstd::prelude::*;

use crate::clock::now_rfc3339;
use crate::event_code::EventCode;
use crate::strutil::{spec_is_blank, str_eq, str_is_blank};
use crate::translation_path::TranslationPath;

verus! {

/// Context information carried by one translation unit.
#[derive(Debug)]
pub struct TranslationContext {
    /// Source file name.
    pub file_name: Option<String>,
    /// Map name, for map files.
    pub map_name: Option<String>,
    /// Event name.
    pub event_name: Option<String>,
    /// Page index within the event.
    pub page_index: Option<usize>,
    /// Preceding dialogue lines, oldest first.
    pub preceding_lines: Vec<String>,
    /// Free-form tags for categorisation.
    pub tags: Vec<String>,
}

impl TranslationContext {
    /// An empty context.
    pub fn new() -> (r: Self)
        ensures
            r.file_name is None,
            r.map_name is None,
            r.event_name is None,
            r.page_index is None,
            r.preceding_lines@.len() == 0,
            r.tags@.len() == 0,
    {
        TranslationContext {
            file_name: None,
            map_name: None,
            event_name: None,
            page_index: None,
            preceding_lines: Vec::new(),
            tags: Vec::new(),
        }
    }

    /// This context with a file name.
    pub fn with_file_name(self, file_name: &str) -> (r: Self)
        ensures
            r.file_name matches Some(f) && f@ == file_name@,
            r.map_name == self.map_name,
            r.event_name == self.event_name,
            r.page_index == self.page_index,
            r.preceding_lines == self.preceding_lines,
            r.tags == self.tags,
    {
        TranslationContext { file_name: Some(String::from_str(file_name)), ..self }
    }

    /// This context with a map name.
    pub fn with_map_name(self, map_name: &str) -> (r: Self)
        ensures
            r.map_name matches Some(f) && f@ == map_name@,
            r.file_name == self.file_name,
            r.event_name == self.event_name,
            r.page_index == self.page_index,
            r.preceding_lines == self.preceding_lines,
            r.tags == self.tags,
    {
        TranslationContext { map_name: Some(String::from_str(map_name)), ..self }
    }

    /// This context with an event name.
    pub fn with_event_name(self, event_name: &str) -> (r: Self)
        ensures
            r.event_name matches Some(f) && f@ == event_name@,
            r.file_name == self.file_name,
            r.map_name == self.map_name,
            r.page_index == self.page_index,
            r.preceding_lines == self.preceding_lines,
            r.tags == self.tags,
    {
        TranslationContext { event_name: Some(String::from_str(event_name)), ..self }
    }

    /// This context with a page index.
    pub fn with_page_index(self, page_index: usize) -> (r: Self)
        ensures
            r.page_index == Some(page_index),
            r.file_name == self.file_name,
            r.map_name == self.map_name,
            r.event_name == self.event_name,
            r.preceding_lines == self.preceding_lines,
            r.tags == self.tags,
    {
        TranslationContext { page_index: Some(page_index), ..self }
    }

    /// Append a preceding line.
    pub fn add_preceding_line(&mut self, line: &str)
        ensures
            final(self).preceding_lines@ == old(self).preceding_lines@.push(
                final(self).preceding_lines@.last(),
            ),
            final(self).preceding_lines@.last()@ == line@,
            final(self).file_name == old(self).file_name,
            final(self).map_name == old(self).map_name,
            final(self).event_name == old(self).event_name,
            final(self).page_index == old(self).page_index,
            final(self).tags == old(self).tags,
    {
        self.preceding_lines.push(String::from_str(line));
    }

    /// Append a tag.
    pub fn add_tag(&mut self, tag: &str)
        ensures
            final(self).tags@ == old(self).tags@.push(final(self).tags@.last()),
            final(self).tags@.last()@ == tag@,
            final(self).file_name == old(self).file_name,
            final(self).map_name == old(self).map_name,
            final(self).event_name == old(self).event_name,
            final(self).page_index == old(self).page_index,
            final(self).preceding_lines == old(self).preceding_lines,
    {
        self.tags.push(String::from_str(tag));
    }
}

/// Workflow status of a translation unit.
#[derive(Debug, Clone, Copy, PartialEq, Eq, Structural)]
pub enum TranslationStatus {
    /// Not yet translated.
    Pending,
    /// Machine translated, needs review.
    Translated,
    /// Reviewed and approved.
    Reviewed,
    /// Needs revision.
    NeedsRevision,
    /// Skipped: not translatable or intentionally left out.
    Skipped,
}

impl TranslationStatus {
    /// Whether this status means the unit is complete.
    pub fn is_complete(&self) -> (r: bool)
        ensures
            r == matches!(*self, TranslationStatus::Reviewed | TranslationStatus::Skipped),
    {
        matches!(self, TranslationStatus::Reviewed | TranslationStatus::Skipped)
    }

    /// Whether this status needs attention.
    pub fn needs_attention(&self) -> (r: bool)
        ensures
            r == matches!(*self, TranslationStatus::Pending | TranslationStatus::NeedsRevision),
    {
        matches!(self, TranslationStatus::Pending | TranslationStatus::NeedsRevision)
    }
}

impl Default for TranslationStatus {
    /// A fresh unit is pending.
    fn default() -> (r: Self)
        ensures
            r is Pending,
    {
        TranslationStatus::Pending
    }
}

/// Whether a character belongs to the CJK ranges this crate treats as
/// needing translation: Hiragana, Katakana, Hangul syllables, or the CJK
/// unified ideographs.
pub open spec fn spec_is_cjk(c: char) -> bool {
    (0x3040 <= c as u32 <= 0x309F) || (0x30A0 <= c as u32 <= 0x30FF) || (0xAC00 <= c as u32
        <= 0xD7AF) || (0x4E00 <= c as u32 <= 0x9FFF)
}

/// A single translatable text unit with its location and metadata.
#[derive(Debug)]
pub struct TranslationUnit {
    /// Stable unique identifier.
    pub id: String,
    /// Location path in the JSON structure.
    pub path: TranslationPath,
    /// The event command code that produced this text.
    pub code: EventCode,
    /// Original text to translate.
    pub original: String,
    /// Translated text, when present.
    pub translated: Option<String>,
    /// Speaker name, carried over from the show-text header.
    pub speaker: Option<String>,
    /// Context for the translator.
    pub context: TranslationContext,
    /// Workflow status.
    pub status: TranslationStatus,
}

impl TranslationUnit {
    /// A new pending unit with no translation, speaker or context.
    pub fn new(id: String, path: TranslationPath, code: EventCode, original: String) -> (r: Self)
        ensures
            r.id == id,
            r.path == path,
            r.code == code,
            r.original == original,
            r.translated is None,
            r.speaker is None,
            r.status is Pending,
            r.context.tags@.len() == 0,
            r.context.preceding_lines@.len() == 0,
    {
        TranslationUnit {
            id,
            path,
            code,
            original,
            translated: None,
            speaker: None,
            context: TranslationContext::new(),
            status: TranslationStatus::Pending,
        }
    }

    /// This unit with a speaker.
    pub fn with_speaker(self, speaker: Option<String>) -> (r: Self)
        ensures
            r.speaker == speaker,
            r.id == self.id,
            r.path == self.path,
            r.code == self.code,
            r.original == self.original,
            r.translated == self.translated,
            r.context == self.context,
            r.status == self.status,
    {
        TranslationUnit { speaker, ..self }
    }

    /// This unit with a context.
    pub fn with_context(self, context: TranslationContext) -> (r: Self)
        ensures
            r.context == context,
            r.id == self.id,
            r.path == self.path,
            r.code == self.code,
            r.original == self.original,
            r.translated == self.translated,
            r.speaker == self.speaker,
            r.status == self.status,
    {
        TranslationUnit { context, ..self }
    }

    /// This unit with a translation, marked translated.
    pub fn with_translation(self, translation: String) -> (r: Self)
        ensures
            r.translated == Some(translation),
            r.status is Translated,
            r.id == self.id,
            r.path == self.path,
            r.code == self.code,
            r.original == self.original,
            r.speaker == self.speaker,
            r.context == self.context,
    {
        TranslationUnit {
            translated: Some(translation),
            status: TranslationStatus::Translated,
            ..self
        }
    }

    /// Whether this unit has a translation.
    pub fn is_translated(&self) -> (r: bool)
        ensures
            r == (self.translated is Some),
    {
        self.translated.is_some()
    }

    /// Whether the original text is empty or whitespace.
    pub fn is_empty(&self) -> (r: bool)
        ensures
            r == spec_is_blank(self.original@),
    {
        str_is_blank(self.original.as_str())
    }

    /// The translated text when present, the original otherwise.
    pub fn effective_text(&self) -> (r: &String)
        ensures
            match self.translated {
                Some(_) => Some(*r) == self.translated,
                None => *r == self.original,
            },
    {
        match &self.translated {
            Some(t) => t,
            None => &self.original,
        }
    }

    /// Whether the original holds any character of the CJK ranges.
    pub fn needs_translation(&self) -> (r: bool)
        ensures
            r == exists|i: int| 0 <= i < self.original@.len() && spec_is_cjk(
                #[trigger] self.original@[i],
            ),
    {
        let s = self.original.as_str();
        let n = s.unicode_len();
        let mut i: usize = 0;
        while i < n
            invariant
                i <= n,
                n == self.original@.len(),
                s@ == self.original@,
                forall|j: int| 0 <= j < i ==> !spec_is_cjk(#[trigger] self.original@[j]),
            decreases n - i,
        {
            let cv = s.get_char(i) as u32;
            if (0x3040 <= cv && cv <= 0x309F) || (0x30A0 <= cv && cv <= 0x30FF) || (0xAC00 <= cv
                && cv <= 0xD7AF) || (0x4E00 <= cv && cv <= 0x9FFF) {
                return true;
            }
            i = i + 1;
        }
        false
    }
}

/// The number of units carrying a translation.
pub open spec fn spec_count_translated(units: Seq<TranslationUnit>) -> int
    decreases units.len(),
{
    if units.len() == 0 {
        0
    } else {
        spec_count_translated(units.drop_last()) + if units.last().translated is Some {
            1int
        } else {
            0int
        }
    }
}

/// The number of units reviewed and approved.
pub open spec fn spec_count_reviewed(units: Seq<TranslationUnit>) -> int
    decreases units.len(),
{
    if units.len() == 0 {
        0
    } else {
        spec_count_reviewed(units.drop_last()) + if units.last().status is Reviewed {
            1int
        } else {
            0int
        }
    }
}

/// The distinct speaker names over a unit collection, in order of first
/// appearance; units without a speaker contribute nothing.
pub open spec fn spec_speakers(units: Seq<TranslationUnit>) -> Seq<Seq<char>>
    decreases units.len(),
{
    if units.len() == 0 {
        Seq::empty()
    } else {
        let prev = spec_speakers(units.drop_last());
        match units.last().speaker {
            Some(sp) => if prev.contains(sp@) {
                prev
            } else {
                prev.push(sp@)
            },
            None => prev,
        }
    }
}

/// Counts and distinct speakers over a unit collection.
#[derive(Debug)]
pub struct TranslationFileMetadata {
    /// Total number of units.
    pub total_units: usize,
    /// Number of translated units.
    pub translated: usize,
    /// Number of reviewed units.
    pub reviewed: usize,
    /// The distinct speakers seen, in order of first appearance.
    pub speakers: Vec<String>,
}

impl TranslationFileMetadata {
    /// Empty metadata.
    pub fn new() -> (r: Self)
        ensures
            r.total_units == 0,
            r.translated == 0,
            r.reviewed == 0,
            r.speakers@.len() == 0,
    {
        TranslationFileMetadata { total_units: 0, translated: 0, reviewed: 0, speakers: Vec::new() }
    }
}

/// A collection of translation units extracted from one file.
#[derive(Debug)]
pub struct TranslationFile {
    /// Version of the collection format.
    pub version: String,
    /// Source file path.
    pub source_file: String,
    /// When the extraction was performed (RFC 3339).
    pub extracted_at: String,
    /// All translation units.
    pub units: Vec<TranslationUnit>,
    /// Counts over the units.
    pub metadata: TranslationFileMetadata,
}

impl TranslationFile {
    /// A fresh collection for one source file, stamped with the current
    /// time.
    pub fn new(source_file: &str) -> (r: Self)
        ensures
            r.version@ == "1.0"@,
            r.source_file@ == source_file@,
            r.units@.len() == 0,
            r.metadata.total_units == 0,
    {
        TranslationFile {
            version: String::from_str("1.0"),
            source_file: String::from_str(source_file),
            extracted_at: now_rfc3339(),
            units: Vec::new(),
            metadata: TranslationFileMetadata::new(),
        }
    }

    /// Append one unit and refresh the metadata counts.
    pub fn add_unit(&mut self, unit: TranslationUnit)
        ensures
            final(self).units@ == old(self).units@.push(unit),
            final(self).metadata.total_units == final(self).units@.len(),
            final(self).metadata.translated == spec_count_translated(final(self).units@),
            final(self).metadata.reviewed == spec_count_reviewed(final(self).units@),
            final(self).metadata.speakers@.map_values(|s: String| s@) == spec_speakers(
                final(self).units@,
            ),
            final(self).source_file == old(self).source_file,
            final(self).version == old(self).version,
    {
        self.units.push(unit);
        self.update_metadata();
    }

    /// Append several units and refresh the metadata counts.
    pub fn add_units(&mut self, units: Vec<TranslationUnit>)
        ensures
            final(self).units@ == old(self).units@ + units@,
            final(self).metadata.total_units == final(self).units@.len(),
            final(self).metadata.translated == spec_count_translated(final(self).units@),
            final(self).metadata.reviewed == spec_count_reviewed(final(self).units@),
            final(self).metadata.speakers@.map_values(|s: String| s@) == spec_speakers(
                final(self).units@,
            ),
            final(self).source_file == old(self).source_file,
            final(self).version == old(self).version,
    {
        let mut units = units;
        self.units.append(&mut units);
        self.update_metadata();
    }

    /// Recount totals, translated and reviewed units, and collect the
    /// distinct speakers in order of first appearance.
    fn update_metadata(&mut self)
        ensures
            final(self).units == old(self).units,
            final(self).version == old(self).version,
            final(self).source_file == old(self).source_file,
            final(self).extracted_at == old(self).extracted_at,
            final(self).metadata.total_units == final(self).units@.len(),
            final(self).metadata.translated == spec_count_translated(final(self).units@),
            final(self).metadata.reviewed == spec_count_reviewed(final(self).units@),
            final(self).metadata.speakers@.map_values(|s: String| s@) == spec_speakers(
                final(self).units@,
            ),
    {
        let mut translated: usize = 0;
        let mut reviewed: usize = 0;
        let mut speakers: Vec<String> = Vec::new();
        let mut i: usize = 0;
        let n = self.units.len();
        while i < n
            invariant
                i <= n,
                n == self.units@.len(),
                self.units == old(self).units,
                self.version == old(self).version,
                self.source_file == old(self).source_file,
                self.extracted_at == old(self).extracted_at,
                self.metadata == old(self).metadata,
                translated <= i,
                reviewed <= i,
                translated == spec_count_translated(self.units@.take(i as int)),
                reviewed == spec_count_reviewed(self.units@.take(i as int)),
                speakers@.map_values(|s: String| s@) == spec_speakers(
                    self.units@.take(i as int),
                ),
            decreases n - i,
        {
            proof {
                assert(self.units@.take(i as int + 1).drop_last() =~= self.units@.take(
                    i as int,
                ));
                assert(self.units@.take(i as int + 1).last() == self.units@[i as int]);
            }
            if self.units[i].translated.is_some() {
                translated = translated + 1;
            }
            if matches!(self.units[i].status, TranslationStatus::Reviewed) {
                reviewed = reviewed + 1;
            }
            let ghost prev_names = speakers@.map_values(|s: String| s@);
            match &self.units[i].speaker {
                Some(sp) => {
                    if !contains_string(&speakers, sp.as_str()) {
                        proof {
                            if prev_names.contains(sp@) {
                                let j = choose|j: int|
                                    0 <= j < prev_names.len() && prev_names[j] == sp@;
                                assert(speakers@[j]@ == sp@);
                            }
                        }
                        speakers.push(sp.clone());
                        proof {
                            assert(speakers@.map_values(|s: String| s@) =~= prev_names.push(
                                sp@,
                            ));
                        }
                    } else {
                        proof {
                            let j = choose|j: int|
                                0 <= j < speakers@.len() && (#[trigger] speakers@[j])@ == sp@;
                            assert(prev_names[j] == sp@);
                            assert(prev_names.contains(sp@));
                        }
                    }
                },
                None => {},
            }
            i = i + 1;
        }
        proof {
            assert(self.units@.take(n as int) =~= self.units@);
        }
        self.metadata = TranslationFileMetadata {
            total_units: self.units.len(),
            translated,
            reviewed,
            speakers,
        };
    }

    /// The units carrying a given status.
    pub fn units_by_status(&self, status: TranslationStatus) -> (r: Vec<&TranslationUnit>)
        ensures
            forall|i: int| 0 <= i < r@.len() ==> (#[trigger] r@[i]).status == status,
    {
        let mut out: Vec<&TranslationUnit> = Vec::new();
        let mut i: usize = 0;
        let n = self.units.len();
        while i < n
            invariant
                i <= n,
                n == self.units@.len(),
                forall|k: int| 0 <= k < out@.len() ==> (#[trigger] out@[k]).status == status,
            decreases n - i,
        {
            if status_eq(self.units[i].status, status) {
                out.push(&self.units[i]);
            }
            i = i + 1;
        }
        out
    }
}

/// Whether two statuses are the same.
fn status_eq(a: TranslationStatus, b: TranslationStatus) -> (r: bool)
    ensures
        r == (a == b),
{
    a == b
}

/// Whether a string list holds an equal string.
pub fn contains_string(list: &Vec<String>, s: &str) -> (r: bool)
    ensures
        r == exists|i: int| 0 <= i < list@.len() && (#[trigger] list@[i])@ == s@,
{
    let mut i: usize = 0;
    let n = list.len();
    while i < n
        invariant
            i <= n,
            n == list@.len(),
            forall|j: int| 0 <= j < i ==> (#[trigger] list@[j])@ != s@,
        decreases n - i,
    {
        if str_eq(list[i].as_str(), s) {
            return true;
        }
        i = i + 1;
    }
    false
}

} // verus!

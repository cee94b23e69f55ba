//! Extraction context: mutable state threaded through one page walk, and
//! the result records handlers and injection report back.

use vstd::prelude::*;

use crate::strutil::{append_decimal, append_str, spec_decimal, spec_is_blank, str_is_blank,
    string_push_char};
use crate::translation_unit::{TranslationContext, TranslationUnit};

verus! {

/// Context maintained while extracting a single event page.
#[derive(Debug)]
pub struct ExtractionContext {
    /// Source file name being processed.
    pub file_name: String,
    /// Map name, for map files.
    pub map_name: Option<String>,
    /// Current event name.
    pub event_name: Option<String>,
    /// Current event id.
    pub event_id: Option<usize>,
    /// Current page index.
    pub page_index: usize,
    /// Current speaker from the most recent show-text header.
    pub current_speaker: Option<String>,
    /// Recent dialogue lines, oldest first.
    pub preceding_lines: Vec<String>,
    /// Bound on the window of recent lines.
    pub max_preceding_lines: usize,
    /// Running counter for context-local unit ids.
    pub unit_counter: usize,
}

impl ExtractionContext {
    /// The recent-dialogue window, as seen by specifications.
    pub open spec fn preceding_spec(&self) -> Seq<Seq<char>> {
        Seq::new(self.preceding_lines@.len(), |i: int| self.preceding_lines@[i]@)
    }

    /// The window bound, as seen by specifications.
    pub open spec fn max_preceding_spec(&self) -> nat {
        self.max_preceding_lines as nat
    }

    /// The local unit counter, as seen by specifications.
    pub open spec fn counter_spec(&self) -> nat {
        self.unit_counter as nat
    }

    /// A fresh context for one file, with a window of five lines.
    pub fn new(file_name: &str) -> (r: Self)
        ensures
            r.file_name@ == file_name@,
            r.map_name is None,
            r.event_name is None,
            r.event_id is None,
            r.page_index == 0,
            r.current_speaker is None,
            r.preceding_spec().len() == 0,
            r.max_preceding_spec() == 5,
            r.counter_spec() == 0,
    {
        let r = ExtractionContext {
            file_name: String::from_str(file_name),
            map_name: None,
            event_name: None,
            event_id: None,
            page_index: 0,
            current_speaker: None,
            preceding_lines: Vec::new(),
            max_preceding_lines: 5,
            unit_counter: 0,
        };
        proof {
            assert(r.preceding_spec() =~= Seq::<Seq<char>>::empty());
        }
        r
    }

    /// This context with a map name.
    pub fn with_map_name(self, map_name: &str) -> (r: Self)
        ensures
            r.map_name matches Some(m) && m@ == map_name@,
            r.file_name == self.file_name,
            r.event_name == self.event_name,
            r.event_id == self.event_id,
            r.page_index == self.page_index,
            r.current_speaker == self.current_speaker,
            r.preceding_spec() == self.preceding_spec(),
            r.max_preceding_spec() == self.max_preceding_spec(),
            r.counter_spec() == self.counter_spec(),
    {
        ExtractionContext { map_name: Some(String::from_str(map_name)), ..self }
    }

    /// This context with an event name.
    pub fn with_event_name(self, event_name: &str) -> (r: Self)
        ensures
            r.event_name matches Some(m) && m@ == event_name@,
            r.file_name == self.file_name,
            r.map_name == self.map_name,
            r.event_id == self.event_id,
            r.page_index == self.page_index,
            r.current_speaker == self.current_speaker,
            r.preceding_spec() == self.preceding_spec(),
            r.max_preceding_spec() == self.max_preceding_spec(),
            r.counter_spec() == self.counter_spec(),
    {
        ExtractionContext { event_name: Some(String::from_str(event_name)), ..self }
    }

    /// This context with an event id.
    pub fn with_event_id(self, event_id: usize) -> (r: Self)
        ensures
            r.event_id == Some(event_id),
            r.file_name == self.file_name,
            r.map_name == self.map_name,
            r.event_name == self.event_name,
            r.page_index == self.page_index,
            r.current_speaker == self.current_speaker,
            r.preceding_spec() == self.preceding_spec(),
            r.max_preceding_spec() == self.max_preceding_spec(),
            r.counter_spec() == self.counter_spec(),
    {
        ExtractionContext { event_id: Some(event_id), ..self }
    }

    /// This context with a page index.
    pub fn with_page_index(self, page_index: usize) -> (r: Self)
        ensures
            r.page_index == page_index,
            r.file_name == self.file_name,
            r.map_name == self.map_name,
            r.event_name == self.event_name,
            r.event_id == self.event_id,
            r.current_speaker == self.current_speaker,
            r.preceding_spec() == self.preceding_spec(),
            r.max_preceding_spec() == self.max_preceding_spec(),
            r.counter_spec() == self.counter_spec(),
    {
        ExtractionContext { page_index, ..self }
    }

    /// This context with a different window bound.
    pub fn with_max_preceding_lines(self, max: usize) -> (r: Self)
        ensures
            r.max_preceding_spec() == max,
            r.file_name == self.file_name,
            r.map_name == self.map_name,
            r.event_name == self.event_name,
            r.event_id == self.event_id,
            r.page_index == self.page_index,
            r.current_speaker == self.current_speaker,
            r.preceding_spec() == self.preceding_spec(),
            r.counter_spec() == self.counter_spec(),
    {
        ExtractionContext { max_preceding_lines: max, ..self }
    }

    /// Replace the current speaker.
    pub fn set_speaker(&mut self, speaker: Option<String>)
        ensures
            final(self).current_speaker == speaker,
            final(self).file_name == old(self).file_name,
            final(self).map_name == old(self).map_name,
            final(self).event_name == old(self).event_name,
            final(self).event_id == old(self).event_id,
            final(self).page_index == old(self).page_index,
            final(self).preceding_spec() == old(self).preceding_spec(),
            final(self).max_preceding_spec() == old(self).max_preceding_spec(),
            final(self).counter_spec() == old(self).counter_spec(),
    {
        self.current_speaker = speaker;
    }

    /// Push a dialogue line into the window: blank lines are ignored, and
    /// when the window is full the oldest line leaves at the front.
    pub fn add_preceding_line(&mut self, line: &str)
        ensures
            spec_is_blank(line@) ==> final(self).preceding_spec() == old(self).preceding_spec(),
            !spec_is_blank(line@) ==> final(self).preceding_spec() == (
            if old(self).preceding_spec().len() >= old(self).max_preceding_spec() && old(self).preceding_spec().len() > 0 {
                old(self).preceding_spec().drop_first().push(line@)
            } else {
                old(self).preceding_spec().push(line@)
            }),
            final(self).current_speaker == old(self).current_speaker,
            final(self).file_name == old(self).file_name,
            final(self).map_name == old(self).map_name,
            final(self).event_name == old(self).event_name,
            final(self).event_id == old(self).event_id,
            final(self).page_index == old(self).page_index,
            final(self).max_preceding_spec() == old(self).max_preceding_spec(),
            final(self).counter_spec() == old(self).counter_spec(),
    {
        if str_is_blank(line) {
            return ;
        }
        if self.preceding_lines.len() >= self.max_preceding_lines {
            if self.preceding_lines.len() > 0 {
                self.preceding_lines.remove(0);
            }
        }
        self.preceding_lines.push(String::from_str(line));
        proof {
            let ov = old(self).preceding_lines@;
            let nv = self.preceding_lines@;
            if old(self).preceding_spec().len() >= old(self).max_preceding_spec() && ov.len()
                > 0 {
                assert(nv.len() == ov.len());
                assert(forall|i: int| 0 <= i < nv.len() - 1 ==> nv[i] == ov.remove(0)[i]);
                assert(forall|i: int| 0 <= i < nv.len() - 1 ==> ov.remove(0)[i] == ov[i + 1]);
                assert(final(self).preceding_spec() =~= old(self).preceding_spec().drop_first().push(line@));
            } else {
                assert(final(self).preceding_spec() =~= old(self).preceding_spec().push(line@));
            }
        }
    }

    /// The window as a vector, oldest line first.
    pub fn get_preceding_lines(&self) -> (r: Vec<String>)
        ensures
            r@.len() == self.preceding_spec().len(),
            forall|i: int| 0 <= i < r@.len() ==> (#[trigger] r@[i])@ == self.preceding_spec()[i],
    {
        let mut out: Vec<String> = Vec::new();
        let mut i: usize = 0;
        let n = self.preceding_lines.len();
        while i < n
            invariant
                i <= n,
                n == self.preceding_lines@.len(),
                out@.len() == i,
                forall|k: int| 0 <= k < i ==> (#[trigger] out@[k])@ == self.preceding_lines@[k]@,
            decreases n - i,
        {
            out.push(self.preceding_lines[i].clone());
            i = i + 1;
        }
        out
    }

    /// Empty the window.
    pub fn clear_preceding_lines(&mut self)
        ensures
            final(self).preceding_spec().len() == 0,
            final(self).current_speaker == old(self).current_speaker,
            final(self).counter_spec() == old(self).counter_spec(),
    {
        self.preceding_lines.clear();
        proof {
            assert(final(self).preceding_spec() =~= Seq::<Seq<char>>::empty());
        }
    }

    /// Take the next unit number, advancing the counter.
    pub fn next_unit_id(&mut self) -> (r: usize)
        requires
            old(self).counter_spec() < usize::MAX,
        ensures
            r == old(self).counter_spec(),
            final(self).counter_spec() == old(self).counter_spec() + 1,
            final(self).preceding_spec() == old(self).preceding_spec(),
            final(self).current_speaker == old(self).current_speaker,
            final(self).event_id == old(self).event_id,
            final(self).page_index == old(self).page_index,
            final(self).max_preceding_spec() == old(self).max_preceding_spec(),
    {
        let id = self.unit_counter;
        self.unit_counter = self.unit_counter + 1;
        id
    }

    /// The id string for a context-local unit: event id, page index and
    /// the running counter, joined with the role suffix.
    pub open spec fn spec_local_unit_id(
        event_id: Option<usize>,
        page_index: usize,
        counter: nat,
        suffix: Seq<char>,
    ) -> Seq<char> {
        let tail = seq!['p'] + spec_decimal(page_index as nat) + seq!['.'] + spec_decimal(counter)
            + seq!['_'] + suffix;
        match event_id {
            Some(e) => seq!['e'] + spec_decimal(e as nat) + seq!['.'] + tail,
            None => tail,
        }
    }

    /// Generate a unique unit id string, advancing the counter.
    pub fn generate_unit_id(&mut self, suffix: &str) -> (r: String)
        requires
            old(self).counter_spec() < usize::MAX,
        ensures
            r@ == ExtractionContext::spec_local_unit_id(
                old(self).event_id,
                old(self).page_index,
                old(self).counter_spec(),
                suffix@,
            ),
            final(self).counter_spec() == old(self).counter_spec() + 1,
            final(self).preceding_spec() == old(self).preceding_spec(),
            final(self).current_speaker == old(self).current_speaker,
            final(self).event_id == old(self).event_id,
            final(self).page_index == old(self).page_index,
            final(self).max_preceding_spec() == old(self).max_preceding_spec(),
    {
        let id = self.next_unit_id();
        let mut out = String::new();
        match self.event_id {
            Some(e) => {
                string_push_char(&mut out, 'e');
                append_decimal(&mut out, e);
                string_push_char(&mut out, '.');
            },
            None => {},
        }
        string_push_char(&mut out, 'p');
        append_decimal(&mut out, self.page_index);
        string_push_char(&mut out, '.');
        append_decimal(&mut out, id);
        string_push_char(&mut out, '_');
        append_str(&mut out, suffix);
        proof {
            assert(out@ =~= ExtractionContext::spec_local_unit_id(
                old(self).event_id,
                old(self).page_index,
                old(self).counter_spec(),
                suffix@,
            ));
        }
        out
    }

    /// Snapshot this context as a unit's translation context.
    pub fn to_translation_context(&self) -> (r: TranslationContext)
        ensures
            r.file_name matches Some(f) && f@ == self.file_name@,
            r.map_name == self.map_name,
            r.event_name == self.event_name,
            r.page_index == Some(self.page_index),
            r.preceding_lines@.len() == self.preceding_spec().len(),
            forall|i: int|
                0 <= i < r.preceding_lines@.len() ==> (#[trigger] r.preceding_lines@[i])@
                    == self.preceding_spec()[i],
            r.tags@.len() == 0,
    {
        let map_name = match &self.map_name {
            Some(m) => Some(m.clone()),
            None => None,
        };
        let event_name = match &self.event_name {
            Some(m) => Some(m.clone()),
            None => None,
        };
        TranslationContext {
            file_name: Some(self.file_name.clone()),
            map_name,
            event_name,
            page_index: Some(self.page_index),
            preceding_lines: self.get_preceding_lines(),
            tags: Vec::new(),
        }
    }

    /// A fresh context for another event in the same file.
    pub fn for_event(&self, event_id: usize, event_name: Option<String>) -> (r: Self)
        ensures
            r.file_name == self.file_name,
            r.map_name == self.map_name,
            r.event_name == event_name,
            r.event_id == Some(event_id),
            r.page_index == 0,
            r.current_speaker is None,
            r.preceding_spec().len() == 0,
            r.max_preceding_spec() == self.max_preceding_spec(),
            r.counter_spec() == 0,
    {
        let map_name = match &self.map_name {
            Some(m) => Some(m.clone()),
            None => None,
        };
        let r = ExtractionContext {
            file_name: self.file_name.clone(),
            map_name,
            event_name,
            event_id: Some(event_id),
            page_index: 0,
            current_speaker: None,
            preceding_lines: Vec::new(),
            max_preceding_lines: self.max_preceding_lines,
            unit_counter: 0,
        };
        proof {
            assert(r.preceding_spec() =~= Seq::<Seq<char>>::empty());
        }
        r
    }

    /// A fresh context for another page of the same event.
    pub fn for_page(&self, page_index: usize) -> (r: Self)
        ensures
            r.file_name == self.file_name,
            r.map_name == self.map_name,
            r.event_name == self.event_name,
            r.event_id == self.event_id,
            r.page_index == page_index,
            r.current_speaker is None,
            r.preceding_spec().len() == 0,
            r.max_preceding_spec() == self.max_preceding_spec(),
            r.counter_spec() == 0,
    {
        let map_name = match &self.map_name {
            Some(m) => Some(m.clone()),
            None => None,
        };
        let event_name = match &self.event_name {
            Some(m) => Some(m.clone()),
            None => None,
        };
        let r = ExtractionContext {
            file_name: self.file_name.clone(),
            map_name,
            event_name,
            event_id: self.event_id,
            page_index,
            current_speaker: None,
            preceding_lines: Vec::new(),
            max_preceding_lines: self.max_preceding_lines,
            unit_counter: 0,
        };
        proof {
            assert(r.preceding_spec() =~= Seq::<Seq<char>>::empty());
        }
        r
    }
}

/// Result of extracting at one position of a command list.
#[derive(Debug)]
pub struct ExtractionResult {
    /// Translation units produced.
    pub units: Vec<TranslationUnit>,
    /// Commands consumed; the walker advances by this much, never zero.
    pub consumed: usize,
    /// Speaker update: `Some(s)` replaces the context speaker by `s`.
    pub speaker_update: Option<Option<String>>,
    /// Text to push into the preceding-lines window.
    pub add_to_preceding: Option<String>,
}

impl ExtractionResult {
    /// No units, one command consumed.
    pub fn empty() -> (r: Self)
        ensures
            r.units@.len() == 0,
            r.consumed == 1,
            r.speaker_update is None,
            r.add_to_preceding is None,
    {
        ExtractionResult {
            units: Vec::new(),
            consumed: 1,
            speaker_update: None,
            add_to_preceding: None,
        }
    }

    /// No units, several commands consumed.
    pub fn skip(consumed: usize) -> (r: Self)
        ensures
            r.units@.len() == 0,
            r.consumed == consumed,
            r.speaker_update is None,
            r.add_to_preceding is None,
    {
        ExtractionResult { units: Vec::new(), consumed, speaker_update: None, add_to_preceding: None }
    }

    /// A single unit.
    pub fn single(unit: TranslationUnit, consumed: usize) -> (r: Self)
        ensures
            r.units@.len() == 1,
            r.units@[0] == unit,
            r.consumed == consumed,
            r.speaker_update is None,
            r.add_to_preceding is None,
    {
        let mut units: Vec<TranslationUnit> = Vec::new();
        units.push(unit);
        ExtractionResult { units, consumed, speaker_update: None, add_to_preceding: None }
    }

    /// Several units.
    pub fn multiple(units: Vec<TranslationUnit>, consumed: usize) -> (r: Self)
        ensures
            r.units == units,
            r.consumed == consumed,
            r.speaker_update is None,
            r.add_to_preceding is None,
    {
        ExtractionResult { units, consumed, speaker_update: None, add_to_preceding: None }
    }

    /// This result with a speaker update.
    pub fn with_speaker_update(self, speaker: Option<String>) -> (r: Self)
        ensures
            r.speaker_update == Some(speaker),
            r.units == self.units,
            r.consumed == self.consumed,
            r.add_to_preceding == self.add_to_preceding,
    {
        ExtractionResult { speaker_update: Some(speaker), ..self }
    }

    /// This result with text for the preceding-lines window.
    pub fn with_preceding(self, text: &str) -> (r: Self)
        ensures
            r.add_to_preceding matches Some(t) && t@ == text@,
            r.units == self.units,
            r.consumed == self.consumed,
            r.speaker_update == self.speaker_update,
    {
        ExtractionResult { add_to_preceding: Some(String::from_str(text)), ..self }
    }
}

/// Saturating addition on usize.
fn sat_add(a: usize, b: usize) -> (r: usize)
    ensures
        r == if a + b <= usize::MAX {
            (a + b) as usize
        } else {
            usize::MAX
        },
{
    match a.checked_add(b) {
        Some(v) => v,
        None => usize::MAX,
    }
}

/// Result of injecting translations back into a command list.
#[derive(Debug)]
pub struct InjectionResult {
    /// Translations successfully applied.
    pub applied: usize,
    /// Translation ids missing from the map (when reported).
    pub not_found: usize,
    /// Commands modified.
    pub commands_modified: usize,
    /// Warnings encountered.
    pub warnings: Vec<String>,
}

impl InjectionResult {
    /// An empty result.
    pub fn new() -> (r: Self)
        ensures
            r.applied == 0,
            r.not_found == 0,
            r.commands_modified == 0,
            r.warnings@.len() == 0,
    {
        InjectionResult { applied: 0, not_found: 0, commands_modified: 0, warnings: Vec::new() }
    }

    /// Merge another result into this one; counts saturate at the type
    /// bound.
    pub fn merge(&mut self, other: InjectionResult)
        ensures
            final(self).applied == if old(self).applied + other.applied <= usize::MAX {
                (old(self).applied + other.applied) as usize
            } else {
                usize::MAX
            },
            final(self).not_found == if old(self).not_found + other.not_found <= usize::MAX {
                (old(self).not_found + other.not_found) as usize
            } else {
                usize::MAX
            },
            final(self).commands_modified == if old(self).commands_modified
                + other.commands_modified <= usize::MAX {
                (old(self).commands_modified + other.commands_modified) as usize
            } else {
                usize::MAX
            },
            final(self).warnings@ == old(self).warnings@ + other.warnings@,
    {
        self.applied = sat_add(self.applied, other.applied);
        self.not_found = sat_add(self.not_found, other.not_found);
        self.commands_modified = sat_add(self.commands_modified, other.commands_modified);
        let mut warnings = other.warnings;
        self.warnings.append(&mut warnings);
    }

    /// Record a warning.
    pub fn add_warning(&mut self, warning: &str)
        ensures
            final(self).warnings@.len() == old(self).warnings@.len() + 1,
            final(self).warnings@.last()@ == warning@,
            final(self).warnings@.drop_last() == old(self).warnings@,
            final(self).applied == old(self).applied,
            final(self).not_found == old(self).not_found,
            final(self).commands_modified == old(self).commands_modified,
    {
        self.warnings.push(String::from_str(warning));
        proof {
            assert(final(self).warnings@.drop_last() =~= old(self).warnings@);
        }
    }
}

impl Default for InjectionResult {
    /// An empty result.
    fn default() -> (r: Self)
        ensures
            r.applied == 0,
            r.not_found == 0,
            r.commands_modified == 0,
            r.warnings@.len() == 0,
    {
        InjectionResult::new()
    }
}

} // verus!

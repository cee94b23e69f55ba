//! Dialogue records and unpacked game files, as the shell exchanges them.

use vstd::prelude::*;

use crate::json::JsonValue;
use crate::strutil::{spec_is_blank, str_is_blank, utf8_to_string};
use crate::translation_unit::spec_is_cjk;

verus! {

/// Context carried by one dialogue line.
#[derive(Debug)]
pub struct DialogueContext {
    /// Map name.
    pub map_name: Option<String>,
    /// Event name.
    pub event_name: Option<String>,
    /// Preceding dialogue lines.
    pub preceding_lines: Vec<String>,
    /// Tags.
    pub tags: Vec<String>,
}

impl DialogueContext {
    /// An empty context.
    pub fn new() -> (r: Self)
        ensures
            r.map_name is None,
            r.event_name is None,
            r.preceding_lines@.len() == 0,
            r.tags@.len() == 0,
    {
        DialogueContext {
            map_name: None,
            event_name: None,
            preceding_lines: Vec::new(),
            tags: Vec::new(),
        }
    }

    /// This context with a map name.
    pub fn with_map_name(self, map_name: &str) -> (r: Self)
        ensures
            r.map_name matches Some(m) && m@ == map_name@,
            r.event_name == self.event_name,
            r.preceding_lines == self.preceding_lines,
            r.tags == self.tags,
    {
        DialogueContext { map_name: Some(String::from_str(map_name)), ..self }
    }

    /// This context with an event name.
    pub fn with_event_name(self, event_name: &str) -> (r: Self)
        ensures
            r.event_name matches Some(m) && m@ == event_name@,
            r.map_name == self.map_name,
            r.preceding_lines == self.preceding_lines,
            r.tags == self.tags,
    {
        DialogueContext { event_name: Some(String::from_str(event_name)), ..self }
    }

    /// This context with one more preceding line.
    pub fn add_preceding_line(self, line: &str) -> (r: Self)
        ensures
            r.preceding_lines@.len() == self.preceding_lines@.len() + 1,
            r.preceding_lines@.last()@ == line@,
            r.map_name == self.map_name,
            r.event_name == self.event_name,
            r.tags == self.tags,
    {
        let mut preceding_lines = self.preceding_lines;
        preceding_lines.push(String::from_str(line));
        DialogueContext {
            preceding_lines,
            map_name: self.map_name,
            event_name: self.event_name,
            tags: self.tags,
        }
    }

    /// This context with one more tag.
    pub fn add_tag(self, tag: &str) -> (r: Self)
        ensures
            r.tags@.len() == self.tags@.len() + 1,
            r.tags@.last()@ == tag@,
            r.map_name == self.map_name,
            r.event_name == self.event_name,
            r.preceding_lines == self.preceding_lines,
    {
        let mut tags = self.tags;
        tags.push(String::from_str(tag));
        DialogueContext {
            tags,
            map_name: self.map_name,
            event_name: self.event_name,
            preceding_lines: self.preceding_lines,
        }
    }
}

impl Default for DialogueContext {
    /// An empty context.
    fn default() -> (r: Self)
        ensures
            r.map_name is None,
            r.preceding_lines@.len() == 0,
    {
        DialogueContext::new()
    }
}

/// One line of dialogue lifted out of a game file.
#[derive(Debug)]
pub struct DialogueLine {
    /// Unique id of the line.
    pub id: String,
    /// The file it came from.
    pub file: String,
    /// The line number in that file.
    pub line_number: usize,
    /// The speaker, when one is known.
    pub speaker: Option<String>,
    /// The original text.
    pub original_text: String,
    /// Context for translation.
    pub context: DialogueContext,
}

impl DialogueLine {
    /// A new line without speaker or context.
    pub fn new(id: String, file: String, line_number: usize, original_text: String) -> (r: Self)
        ensures
            r.id == id,
            r.file == file,
            r.line_number == line_number,
            r.speaker is None,
            r.original_text == original_text,
            r.context.tags@.len() == 0,
    {
        DialogueLine {
            id,
            file,
            line_number,
            speaker: None,
            original_text,
            context: DialogueContext::new(),
        }
    }

    /// This line with a speaker.
    pub fn with_speaker(self, speaker: &str) -> (r: Self)
        ensures
            r.speaker matches Some(s) && s@ == speaker@,
            r.id == self.id,
            r.original_text == self.original_text,
    {
        DialogueLine { speaker: Some(String::from_str(speaker)), ..self }
    }

    /// This line with a context.
    pub fn with_context(self, context: DialogueContext) -> (r: Self)
        ensures
            r.context == context,
            r.id == self.id,
            r.original_text == self.original_text,
            r.speaker == self.speaker,
    {
        DialogueLine { context, ..self }
    }

    /// Whether the text is empty or whitespace.
    pub fn is_empty(&self) -> (r: bool)
        ensures
            r == spec_is_blank(self.original_text@),
    {
        str_is_blank(self.original_text.as_str())
    }

    /// Whether the text holds any character of the CJK ranges.
    pub fn needs_translation(&self) -> (r: bool)
        ensures
            r == exists|i: int| 0 <= i < self.original_text@.len() && spec_is_cjk(
                #[trigger] self.original_text@[i],
            ),
    {
        let s = self.original_text.as_str();
        let n = s.unicode_len();
        let mut i: usize = 0;
        while i < n
            invariant
                i <= n,
                n == self.original_text@.len(),
                s@ == self.original_text@,
                forall|j: int| 0 <= j < i ==> !spec_is_cjk(#[trigger] self.original_text@[j]),
            decreases n - i,
        {
            let cv = s.get_char(i) as u32;
            if (0x3040 <= cv && cv <= 0x309F) || (0x30A0 <= cv && cv <= 0x30FF) || (0xAC00 <= cv
                && cv <= 0xD7AF) || (0x4E00 <= cv && cv <= 0x9FFF) {
                return true;
            }
            i = i + 1;
        }
        false
    }
}

/// One event lifted out of a game file.
#[derive(Debug)]
pub struct EventData {
    /// Event id.
    pub id: String,
    /// Event name.
    pub name: String,
    /// The event's commands.
    pub commands: Vec<crate::command::EventCommand>,
}

/// One plugin declaration lifted out of a game file.
#[derive(Debug)]
pub struct PluginData {
    /// Plugin name.
    pub name: String,
    /// Plugin version.
    pub version: String,
    /// The plugin's parameter object.
    pub parameters: JsonValue,
}

/// One unpacked game file: a path and its raw bytes.
#[derive(Debug)]
pub struct GameFile {
    /// Relative path of the file.
    pub path: String,
    /// Raw contents.
    pub content: Vec<u8>,
    /// Size in bytes.
    pub size: usize,
}

impl GameFile {
    /// A file record; the size is the content length.
    pub fn new(path: String, content: Vec<u8>) -> (r: Self)
        ensures
            r.path == path,
            r.content == content,
            r.size == content@.len(),
    {
        let size = content.len();
        GameFile { path, content, size }
    }

    /// The contents decoded as UTF-8, when they are valid UTF-8.
    pub fn as_text(&self) -> (r: Option<String>)
        ensures
            match r {
                Some(s) => vstd::utf8::valid_utf8(self.content@) && s@ == vstd::utf8::decode_utf8(
                    self.content@,
                ),
                None => !vstd::utf8::valid_utf8(self.content@),
            },
    {
        utf8_to_string(&self.content)
    }

    /// The file extension: the text after the last dot of the last path
    /// component, when there is one.
    pub fn extension(&self) -> (r: Option<String>)
        ensures
            r matches Some(e) ==> e@.len() < self.path@.len(),
    {
        let s = self.path.as_str();
        let n = s.unicode_len();
        let mut dot: usize = n;
        let mut comp_start: usize = 0;
        let mut i: usize = 0;
        while i < n
            invariant
                i <= n,
                n == self.path@.len(),
                s@ == self.path@,
                dot <= n,
                comp_start <= n,
            decreases n - i,
        {
            let c = s.get_char(i);
            if c == '/' || c == '\\' {
                comp_start = i + 1;
                dot = n;
            } else if c == '.' {
                dot = i;
            }
            i = i + 1;
        }
        if dot >= n || dot < comp_start || dot == comp_start {
            None
        } else {
            Some(String::from_str(s.substring_char(dot + 1, n)))
        }
    }
}

} // verus!

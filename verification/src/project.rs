//! Game project records and detection results.

use vstd::prelude::*;

use crate::engine::GameEngine;
use crate::strutil::{append_str, string_push_char};

verus! {

/// One hexadecimal digit character.
pub open spec fn spec_hex_digit(d: nat) -> char {
    if d < 10 {
        crate::strutil::spec_digit_char(d)
    } else if d == 10 {
        'a'
    } else if d == 11 {
        'b'
    } else if d == 12 {
        'c'
    } else if d == 13 {
        'd'
    } else if d == 14 {
        'e'
    } else {
        'f'
    }
}

/// The hexadecimal representation of a value, without padding.
pub open spec fn spec_hex(n: nat) -> Seq<char>
    decreases n,
{
    if n < 16 {
        seq![spec_hex_digit(n)]
    } else {
        spec_hex(n / 16).push(spec_hex_digit(n % 16))
    }
}

/// Append the hexadecimal representation of `n`.
fn append_hex(out: &mut String, n: u64)
    ensures
        final(out)@ == old(out)@ + spec_hex(n as nat),
    decreases n,
{
    if n < 16 {
        let c = hex_digit_char((n % 16) as u8);
        string_push_char(out, c);
        assert(final(out)@ =~= old(out)@ + spec_hex(n as nat));
    } else {
        append_hex(out, n / 16);
        let c = hex_digit_char((n % 16) as u8);
        string_push_char(out, c);
        assert(final(out)@ =~= old(out)@ + spec_hex(n as nat));
    }
}

/// The character for one hex digit value.
fn hex_digit_char(d: u8) -> (r: char)
    requires
        d < 16,
    ensures
        r == spec_hex_digit(d as nat),
{
    match d {
        0 => '0',
        1 => '1',
        2 => '2',
        3 => '3',
        4 => '4',
        5 => '5',
        6 => '6',
        7 => '7',
        8 => '8',
        9 => '9',
        10 => 'a',
        11 => 'b',
        12 => 'c',
        13 => 'd',
        14 => 'e',
        _ => 'f',
    }
}

/// The FNV-1a style digest of a character sequence, folding each
/// character's code point in with xor and a 64-bit multiply.
pub open spec fn spec_path_digest(s: Seq<char>) -> u64
    decreases s.len(),
{
    if s.len() == 0 {
        0xcbf29ce484222325u64
    } else {
        vstd::wrapping::u64_specs::wrapping_mul(
            spec_path_digest(s.drop_last()) ^ (s.last() as u64),
            0x100000001b3u64,
        )
    }
}

/// Metadata describing a game project.
#[derive(Debug)]
pub struct ProjectMetadata {
    /// Game title.
    pub title: Option<String>,
    /// Author.
    pub author: Option<String>,
    /// Original language.
    pub language: Option<String>,
    /// Text encoding.
    pub encoding: Option<String>,
    /// Description.
    pub description: Option<String>,
}

impl ProjectMetadata {
    /// Fresh metadata, with UTF-8 as the assumed encoding.
    pub fn new() -> (r: Self)
        ensures
            r.title is None,
            r.author is None,
            r.language is None,
            r.encoding matches Some(e) && e@ == "UTF-8"@,
            r.description is None,
    {
        ProjectMetadata {
            title: None,
            author: None,
            language: None,
            encoding: Some(String::from_str("UTF-8")),
            description: None,
        }
    }

    /// This metadata with a title.
    pub fn with_title(self, title: &str) -> (r: Self)
        ensures
            r.title matches Some(t) && t@ == title@,
            r.author == self.author,
            r.language == self.language,
            r.encoding == self.encoding,
            r.description == self.description,
    {
        ProjectMetadata { title: Some(String::from_str(title)), ..self }
    }

    /// This metadata with an author.
    pub fn with_author(self, author: &str) -> (r: Self)
        ensures
            r.author matches Some(t) && t@ == author@,
            r.title == self.title,
            r.language == self.language,
            r.encoding == self.encoding,
            r.description == self.description,
    {
        ProjectMetadata { author: Some(String::from_str(author)), ..self }
    }

    /// This metadata with a language.
    pub fn with_language(self, language: &str) -> (r: Self)
        ensures
            r.language matches Some(t) && t@ == language@,
            r.title == self.title,
            r.author == self.author,
            r.encoding == self.encoding,
            r.description == self.description,
    {
        ProjectMetadata { language: Some(String::from_str(language)), ..self }
    }

    /// This metadata with an encoding.
    pub fn with_encoding(self, encoding: &str) -> (r: Self)
        ensures
            r.encoding matches Some(t) && t@ == encoding@,
            r.title == self.title,
            r.author == self.author,
            r.language == self.language,
            r.description == self.description,
    {
        ProjectMetadata { encoding: Some(String::from_str(encoding)), ..self }
    }

    /// This metadata with a description.
    pub fn with_description(self, description: &str) -> (r: Self)
        ensures
            r.description matches Some(t) && t@ == description@,
            r.title == self.title,
            r.author == self.author,
            r.language == self.language,
            r.encoding == self.encoding,
    {
        ProjectMetadata { description: Some(String::from_str(description)), ..self }
    }
}

impl Default for ProjectMetadata {
    /// Fresh metadata.
    fn default() -> (r: Self)
        ensures
            r.title is None,
            r.encoding matches Some(e) && e@ == "UTF-8"@,
    {
        ProjectMetadata::new()
    }
}

/// A detected game project: its location, engine and metadata.
#[derive(Debug)]
pub struct GameProject {
    /// A stable id derived from the path.
    pub id: String,
    /// The project directory.
    pub path: String,
    /// The detected engine.
    pub engine: GameEngine,
    /// The engine version text.
    pub version: String,
    /// Project metadata.
    pub metadata: ProjectMetadata,
}

impl GameProject {
    /// A project record; the id is derived deterministically from the
    /// path, so the same directory always maps to the same id.
    pub fn new(path: &str, engine: GameEngine, version: String, metadata: ProjectMetadata) -> (r:
        Self)
        ensures
            r.id@ == "project_"@ + spec_hex(spec_path_digest(path@) as nat),
            r.path@ == path@,
            r.engine == engine,
            r.version == version,
            r.metadata == metadata,
    {
        let id = Self::generate_id(path);
        GameProject { id, path: String::from_str(path), engine, version, metadata }
    }

    /// Derive the stable project id from a path.
    fn generate_id(path: &str) -> (r: String)
        ensures
            r@ == "project_"@ + spec_hex(spec_path_digest(path@) as nat),
    {
        let digest = path_digest(path);
        let mut out = String::from_str("project_");
        append_hex(&mut out, digest);
        out
    }

    /// The project's display name: the metadata title, or the last path
    /// component.
    pub fn name(&self) -> (r: String)
        ensures
            self.metadata.title matches Some(t) ==> r@ == t@,
    {
        match &self.metadata.title {
            Some(t) => t.clone(),
            None => {
                let n = self.path.as_str().unicode_len();
                let mut start: usize = 0;
                let mut i: usize = 0;
                while i < n
                    invariant
                        start <= i <= n,
                        n == self.path@.len(),
                    decreases n - i,
                {
                    proof {
                        assert(self.path@.len() == n);
                    }
                    let c = self.path.as_str().get_char(i);
                    if c == '/' || c == '\\' {
                        start = i + 1;
                    }
                    i = i + 1;
                }
                if start >= n {
                    String::from_str("Unknown")
                } else {
                    String::from_str(self.path.as_str().substring_char(start, n))
                }
            },
        }
    }
}

/// The digest of a path string.
fn path_digest(path: &str) -> (r: u64)
    ensures
        r == spec_path_digest(path@),
{
    let n = path.unicode_len();
    let mut hash: u64 = 0xcbf29ce484222325;
    let mut i: usize = 0;
    while i < n
        invariant
            i <= n,
            n == path@.len(),
            hash == spec_path_digest(path@.subrange(0, i as int)),
        decreases n - i,
    {
        let c = path.get_char(i);
        hash = (hash ^ (c as u64)).wrapping_mul(0x100000001b3);
        i = i + 1;
        proof {
            assert(path@.subrange(0, i as int).drop_last() =~= path@.subrange(0, i as int - 1));
        }
    }
    proof {
        assert(path@.subrange(0, n as int) =~= path@);
    }
    hash
}

/// The outcome of trying to detect a game project in a directory.
#[derive(Debug)]
pub struct DetectionResult {
    /// Whether detection succeeded.
    pub success: bool,
    /// The detected project, on success.
    pub project: Option<GameProject>,
    /// The error message, on failure.
    pub error: Option<String>,
    /// Notes gathered while detecting.
    pub details: Vec<String>,
}

impl DetectionResult {
    /// A successful detection.
    pub fn success(project: GameProject) -> (r: Self)
        ensures
            r.success,
            r.project is Some,
            r.error is None,
            r.details@.len() == 0,
    {
        DetectionResult { success: true, project: Some(project), error: None, details: Vec::new() }
    }

    /// A failed detection.
    pub fn failure(error: &str) -> (r: Self)
        ensures
            !r.success,
            r.project is None,
            r.error matches Some(e) && e@ == error@,
            r.details@.len() == 0,
    {
        DetectionResult {
            success: false,
            project: None,
            error: Some(String::from_str(error)),
            details: Vec::new(),
        }
    }

    /// This result with a full list of notes.
    pub fn with_details(self, details: Vec<String>) -> (r: Self)
        ensures
            r.details == details,
            r.success == self.success,
            r.project == self.project,
            r.error == self.error,
    {
        DetectionResult { details, ..self }
    }

    /// This result with one more note.
    pub fn add_detail(self, detail: &str) -> (r: Self)
        ensures
            r.details@.len() == self.details@.len() + 1,
            r.details@.last()@ == detail@,
            r.success == self.success,
            r.project == self.project,
            r.error == self.error,
    {
        let mut details = self.details;
        details.push(String::from_str(detail));
        DetectionResult { details, success: self.success, project: self.project, error: self.error }
    }
}

} // verus!

//! Options for extraction and injection.

use vstd::prelude::*;

use vstd::string::StringSliceAdditionalSpecFns;

use crate::strutil::{
    spec_split_char, spec_starts_with, split_on_char, str_starts_with, string_push_char,
};

verus! {

/// Options for text extraction.
#[derive(Debug)]
pub struct ExtractionOptions {
    /// Trim whitespace from extracted text.
    pub trim_whitespace: bool,
    /// Merge consecutive dialogue body commands into one unit.
    pub merge_dialogue_lines: bool,
    /// Separator used when merging dialogue lines.
    pub dialogue_line_separator: String,
    /// Extract comment bodies.
    pub extract_comments: bool,
    /// Comment prefixes that mark non-narrative comments to skip.
    pub skip_comment_prefixes: Vec<String>,
    /// Keep text blocks that are empty after trimming.
    pub include_empty: bool,
    /// How many preceding dialogue lines to keep for context.
    pub max_preceding_lines: usize,
    /// Extract plugin command fields.
    pub extract_plugins: bool,
    /// Extract script special text.
    pub extract_script_text: bool,
    /// The prefix that marks script special text.
    pub script_text_prefix: Option<String>,
}

impl ExtractionOptions {
    /// Whether any configured skip prefix starts the given comment text.
    pub open spec fn spec_should_skip(&self, text: Seq<char>) -> bool {
        exists|i: int|
            0 <= i < self.skip_comment_prefixes@.len() && spec_starts_with(
                text,
                (#[trigger] self.skip_comment_prefixes@[i])@,
            )
    }

    /// Options with default settings.
    pub fn new() -> (r: Self)
        ensures
            !r.trim_whitespace,
            r.merge_dialogue_lines,
            r.dialogue_line_separator@ == "\n"@,
            r.extract_comments,
            r.skip_comment_prefixes@.len() == 1 && r.skip_comment_prefixes@[0]@ == ";"@,
            !r.include_empty,
            r.max_preceding_lines == 5,
            r.extract_plugins,
            r.extract_script_text,
            r.script_text_prefix matches Some(p) && p@ == "テキスト = "@,
    {
        let mut prefixes: Vec<String> = Vec::new();
        prefixes.push(String::from_str(";"));
        ExtractionOptions {
            trim_whitespace: false,
            merge_dialogue_lines: true,
            dialogue_line_separator: String::from_str("\n"),
            extract_comments: true,
            skip_comment_prefixes: prefixes,
            include_empty: false,
            max_preceding_lines: 5,
            extract_plugins: true,
            extract_script_text: true,
            script_text_prefix: Some(String::from_str("テキスト = ")),
        }
    }

    /// Options tuned for machine translation: trimmed, merged with spaces,
    /// comments left out, a shorter context window.
    pub fn for_machine_translation() -> (r: Self)
        ensures
            r.trim_whitespace,
            r.merge_dialogue_lines,
            r.dialogue_line_separator@ == " "@,
            !r.extract_comments,
            r.skip_comment_prefixes@.len() == 1 && r.skip_comment_prefixes@[0]@ == ";"@,
            !r.include_empty,
            r.max_preceding_lines == 3,
            r.extract_plugins,
            r.extract_script_text,
            r.script_text_prefix matches Some(p) && p@ == "テキスト = "@,
    {
        let mut prefixes: Vec<String> = Vec::new();
        prefixes.push(String::from_str(";"));
        ExtractionOptions {
            trim_whitespace: true,
            merge_dialogue_lines: true,
            dialogue_line_separator: String::from_str(" "),
            extract_comments: false,
            skip_comment_prefixes: prefixes,
            include_empty: false,
            max_preceding_lines: 3,
            extract_plugins: true,
            extract_script_text: true,
            script_text_prefix: Some(String::from_str("テキスト = ")),
        }
    }

    /// Whether a comment should be skipped under these options.
    pub fn should_skip_comment(&self, text: &str) -> (r: bool)
        ensures
            r == self.spec_should_skip(text@),
    {
        let mut i: usize = 0;
        let n = self.skip_comment_prefixes.len();
        while i < n
            invariant
                i <= n,
                n == self.skip_comment_prefixes@.len(),
                forall|j: int|
                    0 <= j < i ==> !spec_starts_with(
                        text@,
                        (#[trigger] self.skip_comment_prefixes@[j])@,
                    ),
            decreases n - i,
        {
            if str_starts_with(text, self.skip_comment_prefixes[i].as_str()) {
                return true;
            }
            i = i + 1;
        }
        false
    }
}

impl Default for ExtractionOptions {
    /// The default extraction options.
    fn default() -> (r: Self)
        ensures
            !r.trim_whitespace,
            r.merge_dialogue_lines,
            r.dialogue_line_separator@ == "\n"@,
            r.extract_comments,
            r.skip_comment_prefixes@.len() == 1 && r.skip_comment_prefixes@[0]@ == ";"@,
            !r.include_empty,
            r.max_preceding_lines == 5,
            r.extract_plugins,
            r.extract_script_text,
            r.script_text_prefix matches Some(p) && p@ == "テキスト = "@,
    {
        ExtractionOptions::new()
    }
}

/// The text split into lines as the line iterator of std would do it: the
/// final line ending is optional.
pub open spec fn spec_lines(s: Seq<char>) -> Seq<Seq<char>> {
    if s.len() == 0 {
        Seq::empty()
    } else if s.last() == '\n' {
        spec_split_char(s.drop_last(), '\n')
    } else {
        spec_split_char(s, '\n')
    }
}

/// The rendered width of a character: non-ASCII characters count double,
/// matching the CJK-aware line budget.
pub open spec fn spec_char_width(c: char) -> nat {
    if c as u32 <= 127 {
        1
    } else {
        2
    }
}

/// The UTF-8 byte length of a character sequence, the budget the
/// word-aware splitter spends.
pub open spec fn spec_byte_len(s: Seq<char>) -> int {
    vstd::utf8::encode_utf8(s).len() as int
}

/// Character-width splitting from position `i` with the current chunk and
/// its accumulated width: when the next character would pass the budget
/// and the chunk is non-empty, the chunk is emitted and a new one starts;
/// a trailing non-empty chunk is emitted at the end.
pub open spec fn spec_split_chars_from(
    s: Seq<char>,
    i: int,
    cur: Seq<char>,
    curw: int,
    max: int,
) -> Seq<Seq<char>>
    decreases s.len() - i,
{
    if i < 0 || i >= s.len() {
        if curw > 0 {
            seq![cur]
        } else {
            Seq::empty()
        }
    } else {
        let w = spec_char_width(s[i]) as int;
        if curw + w > max && curw > 0 {
            seq![cur] + spec_split_chars_from(s, i + 1, seq![s[i]], w, max)
        } else {
            spec_split_chars_from(s, i + 1, cur.push(s[i]), curw + w, max)
        }
    }
}

/// Character-width splitting of a whole text.
pub open spec fn spec_split_at_chars(s: Seq<char>, max: int) -> Seq<Seq<char>> {
    spec_split_chars_from(s, 0, Seq::empty(), 0, max)
}

/// Word-aware splitting from word `i` on, with the line built so far:
/// words are greedily joined by single spaces under the byte budget, a
/// word longer than the whole budget is split by character widths, and
/// empty words (from runs of spaces) are dropped.
pub open spec fn spec_split_words_from(
    words: Seq<Seq<char>>,
    i: int,
    cur: Seq<char>,
    max: int,
) -> Seq<Seq<char>>
    decreases words.len() - i,
{
    if i < 0 || i >= words.len() {
        if spec_byte_len(cur) > 0 {
            seq![cur]
        } else {
            Seq::empty()
        }
    } else {
        let w = words[i];
        let wl = spec_byte_len(w);
        if wl == 0 {
            spec_split_words_from(words, i + 1, cur, max)
        } else if spec_byte_len(cur) == 0 {
            if wl > max {
                spec_split_at_chars(w, max) + spec_split_words_from(words, i + 1, Seq::empty(), max)
            } else {
                spec_split_words_from(words, i + 1, w, max)
            }
        } else if spec_byte_len(cur) + 1 + wl <= max {
            spec_split_words_from(words, i + 1, cur + seq![' '] + w, max)
        } else {
            if wl > max {
                seq![cur] + spec_split_at_chars(w, max) + spec_split_words_from(
                    words,
                    i + 1,
                    Seq::empty(),
                    max,
                )
            } else {
                seq![cur] + spec_split_words_from(words, i + 1, w, max)
            }
        }
    }
}

/// Word-aware splitting of a whole text: the words are the space-separated
/// parts.
pub open spec fn spec_split_at_words(s: Seq<char>, max: int) -> Seq<Seq<char>> {
    spec_split_words_from(crate::strutil::spec_split_char(s, ' '), 0, Seq::empty(), max)
}

/// One line under a byte budget: a line that fits stays whole, otherwise
/// words or character widths decide.
pub open spec fn spec_split_line(line: Seq<char>, max: int, word_aware: bool) -> Seq<Seq<char>> {
    if spec_byte_len(line) <= max {
        seq![line]
    } else if word_aware {
        spec_split_at_words(line, max)
    } else {
        spec_split_at_chars(line, max)
    }
}

/// The lines from `i` on, each broken to the budget, concatenated.
pub open spec fn spec_split_lines_concat(
    lines: Seq<Seq<char>>,
    i: int,
    max: int,
    word_aware: bool,
) -> Seq<Seq<char>>
    decreases lines.len() - i,
{
    if i < 0 || i >= lines.len() {
        Seq::empty()
    } else {
        spec_split_line(lines[i], max, word_aware) + spec_split_lines_concat(
            lines,
            i + 1,
            max,
            word_aware,
        )
    }
}

/// Options for text injection.
#[derive(Debug)]
pub struct InjectionOptions {
    /// Maximum line length for dialogue; splits into several body
    /// commands.
    pub max_line_length: Option<usize>,
    /// Split at word boundaries where possible.
    pub word_aware_split: bool,
    /// Keep the translation's own line breaks.
    pub preserve_line_breaks: bool,
    /// Back the original file up before injecting (acted on by callers).
    pub create_backup: bool,
    /// Validate translations before injecting (acted on by callers).
    pub validate_before_inject: bool,
    /// Silently skip units that have no translation.
    pub skip_missing_translations: bool,
}

impl Default for InjectionOptions {
    /// The default injection options.
    fn default() -> (r: Self)
        ensures
            r.max_line_length is None,
            r.word_aware_split,
            r.preserve_line_breaks,
            r.create_backup,
            r.validate_before_inject,
            r.skip_missing_translations,
    {
        InjectionOptions {
            max_line_length: None,
            word_aware_split: true,
            preserve_line_breaks: true,
            create_backup: true,
            validate_before_inject: true,
            skip_missing_translations: true,
        }
    }
}

impl InjectionOptions {
    /// Options with default settings.
    pub fn new() -> (r: Self)
        ensures
            r.max_line_length is None,
            r.word_aware_split,
            r.preserve_line_breaks,
            r.create_backup,
            r.validate_before_inject,
            r.skip_missing_translations,
    {
        Self::default()
    }

    /// These options with a maximum line length.
    pub fn with_max_line_length(self, length: usize) -> (r: Self)
        ensures
            r.max_line_length == Some(length),
            r.word_aware_split == self.word_aware_split,
            r.preserve_line_breaks == self.preserve_line_breaks,
            r.create_backup == self.create_backup,
            r.validate_before_inject == self.validate_before_inject,
            r.skip_missing_translations == self.skip_missing_translations,
    {
        InjectionOptions { max_line_length: Some(length), ..self }
    }

    /// What `split_text` returns: without a positive maximum line length
    /// the text's own lines; with one, each line (or, when line breaks are
    /// not preserved, the text with breaks turned to spaces) broken to the
    /// budget.
    pub open spec fn spec_split_text(&self, t: Seq<char>) -> Seq<Seq<char>> {
        match self.max_line_length {
            Some(m) => if m == 0 {
                spec_lines(t)
            } else if self.preserve_line_breaks {
                spec_split_lines_concat(spec_lines(t), 0, m as int, self.word_aware_split)
            } else {
                spec_split_line(
                    crate::strutil::spec_replace_char(t, '\n', ' '),
                    m as int,
                    self.word_aware_split,
                )
            },
            None => spec_lines(t),
        }
    }

    /// Split translated text into dialogue lines.  Without a maximum line
    /// length the text is split exactly at its own line breaks; with one,
    /// each line is further broken up to fit, word-aware or by character
    /// widths.
    #[verifier::loop_isolation(false)]
    #[verifier::rlimit(100)]
    pub fn split_text(&self, text: &str) -> (r: Vec<String>)
        ensures
            r@.map_values(|x: String| x@) == self.spec_split_text(text@),
    {
        let max_len = match self.max_line_length {
            Some(m) => {
                if m == 0 {
                    return self.split_lines_exact(text);
                }
                m
            },
            None => {
                return self.split_lines_exact(text);
            },
        };
        if self.preserve_line_breaks {
            let lines = self.split_lines_exact(text);
            let ghost line_views = lines@.map_values(|x: String| x@);
            let mut out: Vec<String> = Vec::new();
            let mut i: usize = 0;
            let n = lines.len();
            proof {
                assert(out@.map_values(|x: String| x@) =~= Seq::<Seq<char>>::empty());
            }
            while i < n
                invariant
                    i <= n,
                    n == lines@.len(),
                    line_views == lines@.map_values(|x: String| x@),
                    max_len > 0,
                    out@.map_values(|x: String| x@) + spec_split_lines_concat(
                        line_views,
                        i as int,
                        max_len as int,
                        self.word_aware_split,
                    ) == spec_split_lines_concat(
                        line_views,
                        0,
                        max_len as int,
                        self.word_aware_split,
                    ),
                decreases n - i,
            {
                let ghost before = out@.map_values(|x: String| x@);
                let mut pieces = self.split_line(lines[i].as_str(), max_len);
                let ghost added = pieces@.map_values(|x: String| x@);
                out.append(&mut pieces);
                proof {
                    assert(out@.map_values(|x: String| x@) =~= before + added);
                    assert(added == spec_split_line(
                        line_views[i as int],
                        max_len as int,
                        self.word_aware_split,
                    ));
                }
                i = i + 1;
            }
            proof {
                assert(spec_split_lines_concat(
                    line_views,
                    n as int,
                    max_len as int,
                    self.word_aware_split,
                ) =~= Seq::<Seq<char>>::empty());
                let done = out@.map_values(|x: String| x@);
                assert(done + Seq::<Seq<char>>::empty() =~= done);
            }
            out
        } else {
            let joined = crate::strutil::replace_char(text, '\n', ' ');
            self.split_line(joined.as_str(), max_len)
        }
    }

    /// Split a text at its line breaks, the final line ending optional.
    fn split_lines_exact(&self, text: &str) -> (r: Vec<String>)
        ensures
            r@.map_values(|x: String| x@) == spec_lines(text@),
    {
        let n = text.unicode_len();
        if n == 0 {
            let r: Vec<String> = Vec::new();
            proof {
                assert(r@.map_values(|x: String| x@) =~= spec_lines(text@));
            }
            return r;
        }
        let last = text.get_char(n - 1);
        if last == '\n' {
            let body = text.substring_char(0, n - 1);
            let r = split_on_char(body, '\n');
            proof {
                assert(text@.drop_last() =~= text@.subrange(0, n as int - 1));
            }
            r
        } else {
            split_on_char(text, '\n')
        }
    }

    /// Break one line into chunks that respect the maximum byte length: a
    /// line that fits stays whole; otherwise words or character widths
    /// decide.
    fn split_line(&self, line: &str, max_len: usize) -> (r: Vec<String>)
        requires
            max_len > 0,
        ensures
            r@.map_values(|x: String| x@) == spec_split_line(
                line@,
                max_len as int,
                self.word_aware_split,
            ),
    {
        if line.as_bytes().len() <= max_len {
            let mut r: Vec<String> = Vec::new();
            r.push(String::from_str(line));
            proof {
                assert(r@.map_values(|x: String| x@) =~= seq![line@]);
            }
            return r;
        }
        if self.word_aware_split {
            self.split_at_words(line, max_len)
        } else {
            self.split_at_chars(line, max_len)
        }
    }

    /// Split text at word boundaries, falling back to character splitting
    /// for words longer than the budget.
    #[verifier::loop_isolation(false)]
    #[verifier::rlimit(100)]
    fn split_at_words(&self, text: &str, max_len: usize) -> (r: Vec<String>)
        requires
            max_len > 0,
        ensures
            r@.map_values(|x: String| x@) == spec_split_at_words(text@, max_len as int),
    {
        let words = split_on_char(text, ' ');
        let ghost word_views = words@.map_values(|x: String| x@);
        let ghost total = spec_split_words_from(word_views, 0, Seq::empty(), max_len as int);
        let mut result: Vec<String> = Vec::new();
        let mut current: String = String::new();
        let mut i: usize = 0;
        let n = words.len();
        proof {
            assert(result@.map_values(|x: String| x@) =~= Seq::<Seq<char>>::empty());
        }
        while i < n
            invariant
                i <= n,
                n == words@.len(),
                word_views == words@.map_values(|x: String| x@),
                max_len > 0,
                result@.map_values(|x: String| x@) + spec_split_words_from(
                    word_views,
                    i as int,
                    current@,
                    max_len as int,
                ) == total,
            decreases n - i,
        {
            let ghost before = result@.map_values(|x: String| x@);
            let word = &words[i];
            let wlen = word.as_str().as_bytes().len();
            proof {
                assert(word@ == word_views[i as int]);
            }
            if wlen == 0 {
                i = i + 1;
                continue ;
            }
            if current.as_str().as_bytes().len() == 0 {
                if wlen > max_len {
                    let mut pieces = self.split_at_chars(word.as_str(), max_len);
                    let ghost added = pieces@.map_values(|x: String| x@);
                    result.append(&mut pieces);
                    current = String::new();
                    proof {
                        assert(result@.map_values(|x: String| x@) =~= before + added);
                    }
                } else {
                    current = word.clone();
                }
            } else if current.as_str().as_bytes().len() as u128 + 1 + wlen as u128
                <= max_len as u128 {
                let ghost cur_before = current@;
                string_push_char(&mut current, ' ');
                crate::strutil::append_str(&mut current, word.as_str());
                proof {
                    assert(current@ =~= cur_before + seq![' '] + word_views[i as int]);
                }
            } else {
                result.push(current);
                current = String::new();
                proof {
                    assert(result@.map_values(|x: String| x@) =~= before.push(
                        result@.last()@,
                    ));
                }
                if wlen > max_len {
                    let ghost before2 = result@.map_values(|x: String| x@);
                    let mut pieces = self.split_at_chars(word.as_str(), max_len);
                    let ghost added = pieces@.map_values(|x: String| x@);
                    result.append(&mut pieces);
                    proof {
                        assert(result@.map_values(|x: String| x@) =~= before2 + added);
                    }
                } else {
                    current = word.clone();
                }
            }
            i = i + 1;
        }
        if current.as_str().as_bytes().len() > 0 {
            let ghost before = result@.map_values(|x: String| x@);
            result.push(current);
            proof {
                assert(result@.map_values(|x: String| x@) =~= before.push(result@.last()@));
                assert(before.push(result@.last()@) =~= before + seq![result@.last()@]);
            }
        }
        proof {
            let done = result@.map_values(|x: String| x@);
            assert(done =~= total);
        }
        result
    }

    /// Split text purely by character widths: non-ASCII characters count
    /// double.
    #[verifier::loop_isolation(false)]
    #[verifier::rlimit(100)]
    fn split_at_chars(&self, text: &str, max_len: usize) -> (r: Vec<String>)
        requires
            max_len > 0,
        ensures
            r@.map_values(|x: String| x@) == spec_split_at_chars(text@, max_len as int),
    {
        let n = text.unicode_len();
        let ghost total = spec_split_chars_from(text@, 0, Seq::empty(), 0, max_len as int);
        let mut result: Vec<String> = Vec::new();
        let mut current: String = String::new();
        let mut current_len: usize = 0;
        let mut i: usize = 0;
        proof {
            assert(result@.map_values(|x: String| x@) =~= Seq::<Seq<char>>::empty());
        }
        while i < n
            invariant
                i <= n,
                n == text@.len(),
                max_len > 0,
                current_len <= max_len + 2,
                result@.map_values(|x: String| x@) + spec_split_chars_from(
                    text@,
                    i as int,
                    current@,
                    current_len as int,
                    max_len as int,
                ) == total,
            decreases n - i,
        {
            let ghost before = result@.map_values(|x: String| x@);
            let c = text.get_char(i);
            let w: usize = if (c as u32) <= 127 {
                1
            } else {
                2
            };
            if current_len as u128 + w as u128 > max_len as u128 && current_len > 0 {
                result.push(current);
                current = String::new();
                current_len = 0;
                proof {
                    assert(result@.map_values(|x: String| x@) =~= before.push(
                        result@.last()@,
                    ));
                }
            }
            string_push_char(&mut current, c);
            current_len = current_len + w;
            i = i + 1;
        }
        if current_len > 0 {
            let ghost before = result@.map_values(|x: String| x@);
            result.push(current);
            proof {
                assert(result@.map_values(|x: String| x@) =~= before.push(result@.last()@));
                assert(before.push(result@.last()@) =~= before + seq![result@.last()@]);
            }
        }
        proof {
            let done = result@.map_values(|x: String| x@);
            assert(done =~= total);
        }
        result
    }
}

/// Combined options for parsing operations.
#[derive(Debug)]
pub struct ParserOptions {
    /// Extraction options.
    pub extraction: ExtractionOptions,
    /// Injection options.
    pub injection: InjectionOptions,
}

impl ParserOptions {
    /// Options with default settings.
    pub fn new() -> (r: Self)
        ensures
            !r.extraction.trim_whitespace,
            r.injection.max_line_length is None,
    {
        ParserOptions { extraction: ExtractionOptions::new(), injection: InjectionOptions::new() }
    }

    /// These options with different extraction settings.
    pub fn with_extraction(self, options: ExtractionOptions) -> (r: Self)
        ensures
            r.extraction == options,
    {
        ParserOptions { extraction: options, ..self }
    }

    /// These options with different injection settings.
    pub fn with_injection(self, options: InjectionOptions) -> (r: Self)
        ensures
            r.injection == options,
    {
        ParserOptions { injection: options, ..self }
    }
}

impl Default for ParserOptions {
    /// Default parser options.
    fn default() -> (r: Self)
        ensures
            !r.extraction.trim_whitespace,
            r.injection.max_line_length is None,
    {
        ParserOptions::new()
    }
}

} // verus!

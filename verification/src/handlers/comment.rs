//! Handlers for comment bodies (408) and script special text (657).

use vstd::prelude::*;

use crate::command::EventCommand;
use crate::context::{ExtractionContext, ExtractionResult, InjectionResult};
use crate::event_code::EventCode;
use crate::handlers::{generate_unit_id, spec_position_unit_id};
use crate::json::Json;
use crate::options::{ExtractionOptions, InjectionOptions};
use crate::strutil::{append_str, spec_is_blank, str_is_blank, trim_str};
use crate::tmap::TranslationMap;
use crate::translation_path::{Seg, TranslationPath};
use crate::translation_unit::TranslationUnit;

verus! {

/// The (id, original) pairs one comment body emits.
pub open spec fn spec_comment_pairs(
    c: crate::command::CmdModel,
    path: Seq<crate::translation_path::Seg>,
    index: int,
    options: &ExtractionOptions,
) -> Seq<(Seq<char>, Seq<char>)> {
    match EventCommand::spec_comment_text(c) {
        Some(t) => if !options.extract_comments || options.spec_should_skip(t) || (spec_is_blank(
            t,
        ) && !options.include_empty) {
            Seq::empty()
        } else {
            seq![
                (
                    spec_position_unit_id(path, index, "comment"@),
                    if options.trim_whitespace {
                        crate::strutil::spec_trim(t)
                    } else {
                        t
                    },
                ),
            ]
        },
        None => Seq::empty(),
    }
}

/// Handler for the comment body command (408).
#[derive(Debug)]
pub struct CommentHandler;

impl CommentHandler {
    /// Extract the comment text as one unit, tagged `comment`.  Nothing
    /// is produced when comment extraction is off, the text starts with a
    /// configured skip prefix, or it is blank and empties are not kept.
    pub fn extract(
        commands: &Vec<EventCommand>,
        index: usize,
        path_prefix: &TranslationPath,
        context: &ExtractionContext,
        options: &ExtractionOptions,
    ) -> (r: ExtractionResult)
        requires
            index < commands@.len(),
        ensures
            ({
                let c = commands@[index as int]@;
                let text = EventCommand::spec_comment_text(c);
                &&& r.consumed == 1
                &&& r.speaker_update is None
                &&& r.add_to_preceding is None
                &&& match text {
                    Some(t) => if !options.extract_comments || options.spec_should_skip(t) || (
                    spec_is_blank(t) && !options.include_empty) {
                        r.units@.len() == 0
                    } else {
                        &&& r.units@.len() == 1
                        &&& r.units@[0].id@ == spec_position_unit_id(
                            path_prefix@,
                            index as int,
                            "comment"@,
                        )
                        &&& r.units@[0].original@ == (if options.trim_whitespace {
                            crate::strutil::spec_trim(t)
                        } else {
                            t
                        })
                        &&& r.units@[0].code == EventCode::CommentBody
                        &&& r.units@[0].path@ == path_prefix@.push(Seg::Index(index as int))
                        &&& r.units@[0].speaker is None
                        &&& r.units@[0].context.map_name == context.map_name
                        &&& r.units@[0].context.page_index == Some(context.page_index)
                        &&& r.units@[0].context.file_name matches Some(f) && f@
                            == context.file_name@
                        &&& r.units@[0].context.tags@.len() == 1
                        &&& r.units@[0].context.tags@[0]@ == "comment"@
                    },
                    None => r.units@.len() == 0,
                }
            }),
    {
        if !options.extract_comments {
            return ExtractionResult::empty();
        }
        let cmd = &commands[index];
        let comment_text = match cmd.get_comment_text() {
            Some(t) => t,
            None => {
                return ExtractionResult::empty();
            },
        };
        if options.should_skip_comment(comment_text.as_str()) {
            return ExtractionResult::empty();
        }
        if str_is_blank(comment_text.as_str()) && !options.include_empty {
            return ExtractionResult::empty();
        }
        let text: String = if options.trim_whitespace {
            String::from_str(trim_str(comment_text.as_str()))
        } else {
            comment_text.clone()
        };
        let unit_id = generate_unit_id(path_prefix, index, "comment");
        let mut trans_context = context.to_translation_context();
        trans_context.add_tag("comment");
        let unit = TranslationUnit::new(
            unit_id,
            path_prefix.append_index(index),
            EventCode::CommentBody,
            text,
        ).with_context(trans_context);
        ExtractionResult::single(unit, 1)
    }

    /// Inject the translated comment over parameter zero of the body.
    pub fn inject(
        commands: &mut Vec<EventCommand>,
        index: usize,
        translations: &TranslationMap,
        path_prefix: &TranslationPath,
        _options: &InjectionOptions,
    ) -> (r: InjectionResult)
        requires
            index < old(commands)@.len(),
        ensures
            ({
                let id = spec_position_unit_id(path_prefix@, index as int, "comment"@);
                let c = old(commands)@[index as int]@;
                &&& final(commands)@.len() == old(commands)@.len()
                &&& forall|j: int|
                    0 <= j < old(commands)@.len() && j != index ==> (#[trigger] final(commands)@[j]) == old(commands)@[j]
                &&& r.warnings@.len() == 0
                &&& r.not_found == 0
                &&& match translations.spec_get(id) {
                    Some(t) => if c.params.len() >= 1 {
                        &&& final(commands)@[index as int]@.params == c.params.update(
                            0,
                            Json::Str(t),
                        )
                        &&& final(commands)@[index as int]@.code == c.code
                        &&& final(commands)@[index as int]@.indent == c.indent
                        &&& r.applied == 1
                        &&& r.commands_modified == 1
                    } else {
                        final(commands)@ == old(commands)@ && r.applied == 0
                            && r.commands_modified == 0
                    },
                    None => final(commands)@ == old(commands)@ && r.applied == 0
                        && r.commands_modified == 0,
                }
            }),
    {
        let mut result = InjectionResult::new();
        let unit_id = generate_unit_id(path_prefix, index, "comment");
        match translations.get(unit_id.as_str()) {
            Some(translated) => {
                let mut cmd = commands.remove(index);
                let changed = cmd.set_string_param(0, translated.as_str());
                commands.insert(index, cmd);
                proof {
                    assert(final(commands)@ =~= old(commands)@.update(
                        index as int,
                        final(commands)@[index as int],
                    ));
                    if !changed {
                        assert(final(commands)@ =~= old(commands)@);
                    }
                }
                if changed {
                    result.applied = 1;
                    result.commands_modified = 1;
                }
            },
            None => {},
        }
        result
    }
}

/// Handler for script special text (657) behind a configurable prefix.
#[derive(Debug)]
pub struct ScriptTextHandler {
    /// The prefix used when the options name none.
    pub prefix: String,
}

impl ScriptTextHandler {
    /// A handler with the given prefix.
    pub fn new(prefix: &str) -> (r: Self)
        ensures
            r.prefix@ == prefix@,
    {
        ScriptTextHandler { prefix: String::from_str(prefix) }
    }

    /// A handler with the engine's usual Japanese prefix.
    pub fn default_prefix() -> (r: Self)
        ensures
            r.prefix@ == "テキスト = "@,
    {
        Self::new("テキスト = ")
    }

    /// The prefix in force under the given options.
    pub open spec fn spec_effective_prefix(&self, options: &ExtractionOptions) -> Seq<char> {
        match options.script_text_prefix {
            Some(p) => p@,
            None => self.prefix@,
        }
    }

    /// Extract the remainder after the prefix as one unit, tagged
    /// `script_text`.  Nothing is produced when script extraction is off,
    /// the prefix does not match, or the remainder is blank and empties
    /// are not kept.
    pub fn extract(
        &self,
        commands: &Vec<EventCommand>,
        index: usize,
        path_prefix: &TranslationPath,
        context: &ExtractionContext,
        options: &ExtractionOptions,
    ) -> (r: ExtractionResult)
        requires
            index < commands@.len(),
        ensures
            ({
                let c = commands@[index as int]@;
                let text = EventCommand::spec_script_special_text(
                    c,
                    self.spec_effective_prefix(options),
                );
                &&& r.consumed == 1
                &&& r.speaker_update is None
                &&& r.add_to_preceding is None
                &&& match text {
                    Some(t) => if !options.extract_script_text || (spec_is_blank(t)
                        && !options.include_empty) {
                        r.units@.len() == 0
                    } else {
                        &&& r.units@.len() == 1
                        &&& r.units@[0].id@ == spec_position_unit_id(
                            path_prefix@,
                            index as int,
                            "script_text"@,
                        )
                        &&& r.units@[0].original@ == (if options.trim_whitespace {
                            crate::strutil::spec_trim(t)
                        } else {
                            t
                        })
                        &&& r.units@[0].code == EventCode::ScriptBodyAlt
                        &&& r.units@[0].path@ == path_prefix@.push(Seg::Index(index as int))
                        &&& r.units@[0].speaker is None
                        &&& r.units@[0].context.map_name == context.map_name
                        &&& r.units@[0].context.page_index == Some(context.page_index)
                        &&& r.units@[0].context.file_name matches Some(f) && f@
                            == context.file_name@
                        &&& r.units@[0].context.tags@.len() == 1
                        &&& r.units@[0].context.tags@[0]@ == "script_text"@
                    },
                    None => r.units@.len() == 0,
                }
            }),
    {
        if !options.extract_script_text {
            return ExtractionResult::empty();
        }
        let cmd = &commands[index];
        let text = match &options.script_text_prefix {
            Some(p) => cmd.get_script_special_text(p.as_str()),
            None => cmd.get_script_special_text(self.prefix.as_str()),
        };
        let text = match text {
            Some(t) => t,
            None => {
                return ExtractionResult::empty();
            },
        };
        if str_is_blank(text.as_str()) && !options.include_empty {
            return ExtractionResult::empty();
        }
        let processed: String = if options.trim_whitespace {
            String::from_str(trim_str(text.as_str()))
        } else {
            text
        };
        let unit_id = generate_unit_id(path_prefix, index, "script_text");
        let mut trans_context = context.to_translation_context();
        trans_context.add_tag("script_text");
        let unit = TranslationUnit::new(
            unit_id,
            path_prefix.append_index(index),
            EventCode::ScriptBodyAlt,
            processed,
        ).with_context(trans_context);
        ExtractionResult::single(unit, 1)
    }

    /// Inject `prefix` plus the translation over parameter zero of the
    /// command.
    pub fn inject(
        &self,
        commands: &mut Vec<EventCommand>,
        index: usize,
        translations: &TranslationMap,
        path_prefix: &TranslationPath,
        _options: &InjectionOptions,
    ) -> (r: InjectionResult)
        requires
            index < old(commands)@.len(),
        ensures
            ({
                let id = spec_position_unit_id(path_prefix@, index as int, "script_text"@);
                let c = old(commands)@[index as int]@;
                &&& final(commands)@.len() == old(commands)@.len()
                &&& forall|j: int|
                    0 <= j < old(commands)@.len() && j != index ==> (#[trigger] final(commands)@[j]) == old(commands)@[j]
                &&& r.warnings@.len() == 0
                &&& r.not_found == 0
                &&& match translations.spec_get(id) {
                    Some(t) => if c.params.len() >= 1 {
                        &&& final(commands)@[index as int]@.params == c.params.update(
                            0,
                            Json::Str(self.prefix@ + t),
                        )
                        &&& final(commands)@[index as int]@.code == c.code
                        &&& final(commands)@[index as int]@.indent == c.indent
                        &&& r.applied == 1
                        &&& r.commands_modified == 1
                    } else {
                        final(commands)@ == old(commands)@ && r.applied == 0
                            && r.commands_modified == 0
                    },
                    None => final(commands)@ == old(commands)@ && r.applied == 0
                        && r.commands_modified == 0,
                }
            }),
    {
        let mut result = InjectionResult::new();
        let unit_id = generate_unit_id(path_prefix, index, "script_text");
        match translations.get(unit_id.as_str()) {
            Some(translated) => {
                let mut new_text = self.prefix.clone();
                append_str(&mut new_text, translated.as_str());
                let mut cmd = commands.remove(index);
                let changed = cmd.set_string_param(0, new_text.as_str());
                commands.insert(index, cmd);
                proof {
                    assert(final(commands)@ =~= old(commands)@.update(
                        index as int,
                        final(commands)@[index as int],
                    ));
                    if !changed {
                        assert(final(commands)@ =~= old(commands)@);
                    }
                }
                if changed {
                    result.applied = 1;
                    result.commands_modified = 1;
                }
            },
            None => {},
        }
        result
    }
}

} // verus!

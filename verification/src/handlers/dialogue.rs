//! Handlers for the show-text header (101) and the dialogue body (401).
//!
//! The body handler walks the run of consecutive 401 commands at one
//! indent, merges their lines into a single unit, and on injection splices
//! the translated lines back over the same run.

use vstd::prelude::*;

use crate::command::{CmdModel, EventCommand};
use crate::context::{ExtractionContext, ExtractionResult, InjectionResult};
use crate::event_code::EventCode;
use crate::handlers::{generate_unit_id, spec_position_unit_id};
use crate::options::{spec_lines, ExtractionOptions, InjectionOptions};
use crate::strutil::{append_str, spec_is_blank, spec_trim, str_is_blank, trim_str};
use crate::tmap::TranslationMap;
use crate::translation_path::Seg;
use crate::translation_path::TranslationPath;
use crate::translation_unit::TranslationUnit;

verus! {

/// The length of the run of consecutive dialogue bodies at one indent,
/// starting at `i`.
pub open spec fn spec_run_len(cmds: Seq<CmdModel>, i: int, indent: i32) -> nat
    decreases cmds.len() - i when i <= cmds.len()
{
    if i < 0 || i >= cmds.len() || cmds[i].code != 401 || cmds[i].indent != indent {
        0
    } else {
        1 + spec_run_len(cmds, i + 1, indent)
    }
}

/// The text line one dialogue body contributes, trimmed when asked.
pub open spec fn spec_line_of(c: CmdModel, trim: bool) -> Seq<Seq<char>> {
    match EventCommand::spec_dialogue_text(c) {
        Some(t) => if trim {
            seq![spec_trim(t)]
        } else {
            seq![t]
        },
        None => Seq::empty(),
    }
}

/// The lines of `count` dialogue bodies starting at `i`.
pub open spec fn spec_dialogue_lines(cmds: Seq<CmdModel>, i: int, count: nat, trim: bool) -> Seq<
    Seq<char>,
>
    decreases count,
{
    if count == 0 {
        Seq::empty()
    } else {
        spec_line_of(cmds[i], trim) + spec_dialogue_lines(cmds, i + 1, (count - 1) as nat, trim)
    }
}

/// Collecting one more command appends its line at the end.
proof fn lemma_dialogue_lines_snoc(cmds: Seq<CmdModel>, i: int, count: nat, trim: bool)
    ensures
        spec_dialogue_lines(cmds, i, count + 1, trim) == spec_dialogue_lines(cmds, i, count, trim)
            + spec_line_of(cmds[i + count], trim),
    decreases count,
{
    if count == 0 {
        assert(spec_dialogue_lines(cmds, i, 1, trim) == spec_line_of(cmds[i], trim)
            + spec_dialogue_lines(cmds, i + 1, 0, trim));
        assert(spec_line_of(cmds[i], trim) + Seq::<Seq<char>>::empty() =~= spec_line_of(
            cmds[i],
            trim,
        ));
        assert(Seq::<Seq<char>>::empty() + spec_line_of(cmds[i + 0], trim) =~= spec_line_of(
            cmds[i],
            trim,
        ));
    } else {
        lemma_dialogue_lines_snoc(cmds, i + 1, (count - 1) as nat, trim);
        assert(spec_dialogue_lines(cmds, i, count + 1, trim) =~= spec_dialogue_lines(
            cmds,
            i,
            count,
            trim,
        ) + spec_line_of(cmds[i + count], trim));
    }
}

/// The run length never runs past the end of the list.
pub proof fn lemma_run_len_bound(cmds: Seq<CmdModel>, i: int, indent: i32)
    requires
        0 <= i <= cmds.len(),
    ensures
        spec_run_len(cmds, i, indent) <= cmds.len() - i,
    decreases cmds.len() - i,
{
    if i < cmds.len() && cmds[i].code == 401 && cmds[i].indent == indent {
        lemma_run_len_bound(cmds, i + 1, indent);
    }
}

/// Whether a command continues a dialogue run at this indent.
fn run_continues(c: &EventCommand, indent: i32) -> (r: bool)
    ensures
        r == (c@.code == 401 && c@.indent == indent),
{
    c.code == 401 && c.indent == indent
}

/// Whether every collected line is blank.
pub open spec fn spec_all_blank(lines: Seq<Seq<char>>) -> bool {
    forall|i: int| 0 <= i < lines.len() ==> spec_is_blank(#[trigger] lines[i])
}

/// Lines joined with a separator.
pub open spec fn spec_join(lines: Seq<Seq<char>>, sep: Seq<char>) -> Seq<char>
    decreases lines.len(),
{
    if lines.len() == 0 {
        Seq::empty()
    } else if lines.len() == 1 {
        lines[0]
    } else {
        spec_join(lines.drop_last(), sep) + sep + lines.last()
    }
}

/// Splitting at line breaks undoes joining with them: for lines that
/// carry no line break of their own, with the last one non-empty, the
/// injection split of the extraction merge restores exactly the original
/// lines.  This is the heart of the dialogue round trip: injecting a
/// unit's own merged text back yields one body command per original line.
pub proof fn lemma_lines_of_join(lines: Seq<Seq<char>>)
    requires
        lines.len() > 0,
        forall|i: int|
            0 <= i < lines.len() ==> forall|j: int|
                0 <= j < (#[trigger] lines[i]).len() ==> #[trigger] lines[i][j] != '\n',
        lines.last().len() > 0,
    ensures
        crate::options::spec_lines(spec_join(lines, seq!['\n'])) == lines,
    decreases lines.len(),
{
    let joined = spec_join(lines, seq!['\n']);
    lemma_join_front(lines, seq!['\n']);
    if lines.len() == 1 {
        assert(joined == lines[0]);
        assert(joined.len() > 0);
        assert(joined.last() != '\n');
        lemma_split_no_sep(joined, '\n', Seq::empty());
        assert(Seq::<char>::empty() + joined =~= joined);
        assert(crate::strutil::spec_split_char(joined, '\n') =~= lines);
    } else {
        let head = lines[0];
        let rest = lines.drop_first();
        assert(joined == head + seq!['\n'] + spec_join(rest, seq!['\n']));
        assert(joined.len() > 0);
        assert(rest.last() == lines.last());
        lemma_lines_of_join(rest);
        let tail_join = spec_join(rest, seq!['\n']);
        // the whole join ends with the last line's last character
        lemma_join_last(lines, seq!['\n']);
        assert(joined.last() == lines.last().last());
        assert(joined.last() != '\n');
        // split: the head (no separators) is absorbed, then the separator
        // emits it
        lemma_split_absorb(head, seq!['\n'] + tail_join, '\n', Seq::empty());
        assert((head + (seq!['\n'] + tail_join)) =~= joined);
        assert(Seq::<char>::empty() + head =~= head);
        let after = crate::strutil::spec_split_char_acc(seq!['\n'] + tail_join, '\n', head);
        assert((seq!['\n'] + tail_join)[0] == '\n');
        assert((seq!['\n'] + tail_join).drop_first() =~= tail_join);
        assert(after == seq![head] + crate::strutil::spec_split_char_acc(
            tail_join,
            '\n',
            Seq::empty(),
        ));
        // the tail's own split is its lines
        lemma_join_last(rest, seq!['\n']);
        assert(tail_join.len() > 0 && tail_join.last() != '\n');
        assert(crate::options::spec_lines(tail_join) == crate::strutil::spec_split_char(
            tail_join,
            '\n',
        ));
        assert(crate::strutil::spec_split_char(joined, '\n') =~= seq![head] + rest);
        assert(seq![head] + rest =~= lines);
        assert(crate::options::spec_lines(joined) == crate::strutil::spec_split_char(
            joined,
            '\n',
        ));
    }
}

/// A join of two or more lines starts with the first line and one
/// separator.
proof fn lemma_join_front(lines: Seq<Seq<char>>, sep: Seq<char>)
    requires
        lines.len() > 0,
    ensures
        lines.len() == 1 ==> spec_join(lines, sep) == lines[0],
        lines.len() > 1 ==> spec_join(lines, sep) == lines[0] + sep + spec_join(
            lines.drop_first(),
            sep,
        ),
    decreases lines.len(),
{
    if lines.len() > 1 {
        lemma_join_front(lines.drop_last(), sep);
        if lines.len() == 2 {
            assert(lines.drop_last() =~= seq![lines[0]]);
            assert(lines.drop_first() =~= seq![lines[1]]);
            assert(spec_join(lines, sep) == lines[0] + sep + lines[1]);
        } else {
            assert(lines.drop_last()[0] == lines[0]);
            assert(lines.drop_last().drop_first() =~= lines.drop_first().drop_last());
            assert(lines.drop_first().last() == lines.last());
            assert(spec_join(lines, sep) == spec_join(lines.drop_last(), sep) + sep
                + lines.last());
            assert(spec_join(lines.drop_last(), sep) == lines[0] + sep + spec_join(
                lines.drop_first().drop_last(),
                sep,
            ));
            assert(spec_join(lines.drop_first(), sep) == spec_join(
                lines.drop_first().drop_last(),
                sep,
            ) + sep + lines.drop_first().last());
            assert((lines[0] + sep + spec_join(lines.drop_first().drop_last(), sep)) + sep
                + lines.last() =~= lines[0] + sep + (spec_join(
                lines.drop_first().drop_last(),
                sep,
            ) + sep + lines.drop_first().last()));
        }
    }
}

/// A join of non-empty-ending lines ends with the last line's last
/// character.
proof fn lemma_join_last(lines: Seq<Seq<char>>, sep: Seq<char>)
    requires
        lines.len() > 0,
        lines.last().len() > 0,
    ensures
        spec_join(lines, sep).len() > 0,
        spec_join(lines, sep).last() == lines.last().last(),
    decreases lines.len(),
{
    if lines.len() > 1 {
        assert(spec_join(lines, sep) == spec_join(lines.drop_last(), sep) + sep + lines.last());
    }
}

/// Splitting a string without separators yields one segment: everything
/// accumulated plus the string.
proof fn lemma_split_no_sep(s: Seq<char>, sep: char, cur: Seq<char>)
    requires
        forall|j: int| 0 <= j < s.len() ==> s[j] != sep,
    ensures
        crate::strutil::spec_split_char_acc(s, sep, cur) == seq![cur + s],
    decreases s.len(),
{
    if s.len() == 0 {
        assert(cur + s =~= cur);
    } else {
        lemma_split_no_sep(s.drop_first(), sep, cur.push(s[0]));
        assert(cur.push(s[0]) + s.drop_first() =~= cur + s);
    }
}

/// A separator-free prefix is absorbed into the accumulator.
proof fn lemma_split_absorb(pre: Seq<char>, rest: Seq<char>, sep: char, cur: Seq<char>)
    requires
        forall|j: int| 0 <= j < pre.len() ==> pre[j] != sep,
    ensures
        crate::strutil::spec_split_char_acc(pre + rest, sep, cur)
            == crate::strutil::spec_split_char_acc(rest, sep, cur + pre),
    decreases pre.len(),
{
    if pre.len() == 0 {
        assert(pre + rest =~= rest);
        assert(cur + pre =~= cur);
    } else {
        let combined = pre + rest;
        assert(combined[0] == pre[0]);
        assert(combined.drop_first() =~= pre.drop_first() + rest);
        lemma_split_absorb(pre.drop_first(), rest, sep, cur.push(pre[0]));
        assert(cur.push(pre[0]) + pre.drop_first() =~= cur + pre);
    }
}

/// The separator merging uses under the given options.
pub open spec fn spec_merge_sep(options: &ExtractionOptions) -> Seq<char> {
    if options.merge_dialogue_lines {
        options.dialogue_line_separator@
    } else {
        "\n"@
    }
}

/// The merged text of the dialogue run starting at `index`.
pub open spec fn spec_merged_text(
    cmds: Seq<CmdModel>,
    index: int,
    options: &ExtractionOptions,
) -> Seq<char> {
    let indent = cmds[index].indent;
    let n = spec_run_len(cmds, index, indent);
    spec_join(spec_dialogue_lines(cmds, index, n, options.trim_whitespace), spec_merge_sep(options))
}

/// Whether the run starting at `index` produces a unit at all: it has
/// lines, and they are not all blank unless empties are kept.
pub open spec fn spec_dialogue_emits(
    cmds: Seq<CmdModel>,
    index: int,
    options: &ExtractionOptions,
) -> bool {
    let indent = cmds[index].indent;
    let n = spec_run_len(cmds, index, indent);
    let lines = spec_dialogue_lines(cmds, index, n, options.trim_whitespace);
    lines.len() > 0 && (options.include_empty || !spec_all_blank(lines))
}

/// The (id, original) pair the dialogue run starting at `index` emits:
/// one pair when the run emits, nothing otherwise.
pub open spec fn spec_dialogue_pairs(
    cmds: Seq<CmdModel>,
    index: int,
    path: Seq<Seg>,
    options: &ExtractionOptions,
) -> Seq<(Seq<char>, Seq<char>)> {
    if spec_dialogue_emits(cmds, index, options) {
        seq![
            (
                spec_position_unit_id(path, index, "dialogue"@),
                spec_merged_text(cmds, index, options),
            ),
        ]
    } else {
        Seq::empty()
    }
}

/// The dialogue round trip: when merging uses the line-break separator,
/// re-splitting the merged text of a run restores exactly the run's
/// collected lines, provided no line carries a line break of its own and
/// the last one is non-empty.  Injecting a unit's own merged text back
/// therefore rewrites the run to the same line sequence it was read from.
pub proof fn lemma_dialogue_merge_round_trip(
    cmds: Seq<CmdModel>,
    index: int,
    options: &ExtractionOptions,
)
    requires
        0 <= index < cmds.len(),
        spec_merge_sep(options) == seq!['\n'],
        ({
            let n = spec_run_len(cmds, index, cmds[index].indent);
            let lines = spec_dialogue_lines(cmds, index, n, options.trim_whitespace);
            &&& lines.len() > 0
            &&& forall|i: int|
                0 <= i < lines.len() ==> forall|j: int|
                    0 <= j < (#[trigger] lines[i]).len() ==> #[trigger] lines[i][j] != '\n'
            &&& lines.last().len() > 0
        }),
    ensures
        ({
            let n = spec_run_len(cmds, index, cmds[index].indent);
            crate::options::spec_lines(spec_merged_text(cmds, index, options))
                == spec_dialogue_lines(cmds, index, n, options.trim_whitespace)
        }),
{
    let n = spec_run_len(cmds, index, cmds[index].indent);
    let lines = spec_dialogue_lines(cmds, index, n, options.trim_whitespace);
    lemma_lines_of_join(lines);
}

/// Handler for the show-text header command (101).
#[derive(Debug)]
pub struct ShowTextHandler;

impl ShowTextHandler {
    /// Extract the speaker from a show-text header: no unit, one command
    /// consumed, and a speaker update only when the header carries a
    /// non-empty name, so an empty name leaves the context speaker alone.
    pub fn extract(
        commands: &Vec<EventCommand>,
        index: usize,
        _path_prefix: &TranslationPath,
        _context: &ExtractionContext,
        _options: &ExtractionOptions,
    ) -> (r: ExtractionResult)
        requires
            index < commands@.len(),
        ensures
            r.units@.len() == 0,
            r.consumed == 1,
            r.add_to_preceding is None,
            match EventCommand::spec_speaker_name(commands@[index as int]@) {
                Some(s) => r.speaker_update matches Some(u) && u matches Some(name) && name@ == s,
                None => r.speaker_update is None,
            },
    {
        let cmd = &commands[index];
        let speaker = cmd.get_speaker_name();
        match speaker {
            Some(s) => ExtractionResult::empty().with_speaker_update(Some(s)),
            None => ExtractionResult::empty(),
        }
    }

    /// The header itself carries nothing to inject.
    pub fn inject(
        _commands: &mut Vec<EventCommand>,
        _index: usize,
        _translations: &TranslationMap,
        _path_prefix: &TranslationPath,
        _options: &InjectionOptions,
    ) -> (r: InjectionResult)
        ensures
            final(_commands)@ == old(_commands)@,
            r.applied == 0,
            r.not_found == 0,
            r.commands_modified == 0,
            r.warnings@.len() == 0,
    {
        InjectionResult::new()
    }
}

/// Handler for the dialogue body command (401).
#[derive(Debug)]
pub struct DialogueHandler;

impl DialogueHandler {
    /// Extract the run of consecutive dialogue bodies at this indent as
    /// one unit: the lines merged with the configured separator, the id
    /// taken from the run's first position, the context speaker attached.
    /// Runs that are empty after trimming produce nothing unless empties
    /// are kept; the consumed count always equals the run length.
    #[verifier::loop_isolation(false)]
    #[verifier::rlimit(100)]
    pub fn extract(
        commands: &Vec<EventCommand>,
        index: usize,
        path_prefix: &TranslationPath,
        context: &ExtractionContext,
        options: &ExtractionOptions,
    ) -> (r: ExtractionResult)
        requires
            index < commands@.len(),
            commands@[index as int]@.code == 401,
        ensures
            ({
                let models = commands@.map_values(|c: EventCommand| c@);
                let n = spec_run_len(models, index as int, models[index as int].indent);
                &&& r.consumed == n
                &&& r.speaker_update is None
                &&& !spec_dialogue_emits(models, index as int, options) ==> r.units@.len() == 0
                    && r.add_to_preceding is None
                &&& spec_dialogue_emits(models, index as int, options) ==> {
                    &&& r.units@.len() == 1
                    &&& r.units@[0].id@ == spec_position_unit_id(
                        path_prefix@,
                        index as int,
                        "dialogue"@,
                    )
                    &&& r.units@[0].original@ == spec_merged_text(models, index as int, options)
                    &&& r.units@[0].code == EventCode::ShowTextBody
                    &&& r.units@[0].speaker == context.current_speaker
                    &&& r.units@[0].path@ == path_prefix@.push(Seg::Index(index as int))
                    &&& r.units@[0].context.map_name == context.map_name
                    &&& r.units@[0].context.page_index == Some(context.page_index)
                    &&& r.units@[0].context.file_name matches Some(f) && f@
                        == context.file_name@
                    &&& r.add_to_preceding matches Some(t) && t@ == spec_merged_text(
                        models,
                        index as int,
                        options,
                    )
                }
            }),
    {
        let ghost models = commands@.map_values(|c: EventCommand| c@);
        let indent = commands[index].indent;
        let ghost total = spec_run_len(models, index as int, indent);
        let mut lines: Vec<String> = Vec::new();
        let mut consumed: usize = 0;
        proof {
            lemma_run_len_bound(models, index as int, indent);
            assert(spec_dialogue_lines(models, index as int, 0, options.trim_whitespace)
                =~= Seq::<Seq<char>>::empty());
            assert(lines@.map_values(|x: String| x@) =~= Seq::<Seq<char>>::empty());
        }
        while consumed < commands.len() - index && run_continues(
            &commands[index + consumed],
            indent,
        )
            invariant
                index + consumed <= commands@.len(),
                total == consumed + spec_run_len(models, index as int + consumed, indent),
                lines@.map_values(|x: String| x@) == spec_dialogue_lines(
                    models,
                    index as int,
                    consumed as nat,
                    options.trim_whitespace,
                ),
            decreases commands@.len() - index - consumed,
        {
            let current = &commands[index + consumed];
            let ghost before = lines@.map_values(|x: String| x@);
            match current.get_dialogue_text() {
                Some(text) => {
                    if options.trim_whitespace {
                        let t = trim_str(text.as_str());
                        lines.push(String::from_str(t));
                    } else {
                        lines.push(text.clone());
                    }
                    proof {
                        assert(lines@.map_values(|x: String| x@) =~= before.push(
                            lines@.last()@,
                        ));
                        lemma_dialogue_lines_snoc(
                            models,
                            index as int,
                            consumed as nat,
                            options.trim_whitespace,
                        );
                        assert(before.push(lines@.last()@) =~= before + spec_line_of(
                            models[index as int + consumed],
                            options.trim_whitespace,
                        ));
                    }
                },
                None => {
                    proof {
                        lemma_dialogue_lines_snoc(
                            models,
                            index as int,
                            consumed as nat,
                            options.trim_whitespace,
                        );
                        assert(before + spec_line_of(
                            models[index as int + consumed],
                            options.trim_whitespace,
                        ) =~= before);
                    }
                },
            }
            consumed = consumed + 1;
        }
        proof {
            assert(spec_run_len(models, index as int + consumed, indent) == 0);
            assert(consumed == total);
        }
        // decide whether the run emits a unit
        let mut all_blank = true;
        let mut i: usize = 0;
        let n = lines.len();
        while i < n && all_blank
            invariant
                i <= n,
                n == lines@.len(),
                all_blank ==> forall|j: int| 0 <= j < i ==> spec_is_blank((#[trigger] lines@[j])@),
                !all_blank ==> exists|j: int| 0 <= j < n && !spec_is_blank((#[trigger] lines@[j])@),
            decreases n - i, (if all_blank { 1int } else { 0int }),
        {
            if !str_is_blank(lines[i].as_str()) {
                all_blank = false;
            } else {
                i = i + 1;
            }
        }
        proof {
            let lmap = lines@.map_values(|x: String| x@);
            if all_blank {
                assert(forall|j: int| 0 <= j < lmap.len() ==> spec_is_blank(#[trigger] lmap[j]))
                    by {
                    assert(forall|j: int|
                        0 <= j < lines@.len() ==> #[trigger] lmap[j] == lines@[j]@);
                }
                assert(spec_all_blank(lmap));
            } else {
                let j = choose|j: int| 0 <= j < n && !spec_is_blank((#[trigger] lines@[j])@);
                assert(lmap[j] == lines@[j]@);
                assert(!spec_all_blank(lmap));
            }
        }
        if lines.len() == 0 || (all_blank && !options.include_empty) {
            return ExtractionResult::skip(if consumed > 0 {
                consumed
            } else {
                1
            });
        }
        // merge the lines
        let sep: &String = &options.dialogue_line_separator;
        let merged = if options.merge_dialogue_lines {
            join_lines(&lines, sep.as_str())
        } else {
            join_lines(&lines, "\n")
        };
        let unit_id = generate_unit_id(path_prefix, index, "dialogue");
        let speaker = match &context.current_speaker {
            Some(s) => Some(s.clone()),
            None => None,
        };
        let unit = TranslationUnit::new(
            unit_id,
            path_prefix.append_index(index),
            EventCode::ShowTextBody,
            merged,
        ).with_speaker(speaker).with_context(context.to_translation_context());
        let preceding = unit.original.clone();
        let r = ExtractionResult::single(unit, consumed).with_preceding(preceding.as_str());
        r
    }

    /// Inject a translation over the run of consecutive dialogue bodies:
    /// the translated text is split into lines and those lines replace
    /// the whole run, one body command per line at the same indent.
    /// Without a translation the list is unchanged; the miss is counted
    /// only when missing translations are not skipped.  The second result
    /// is the walker's stride: the number of commands standing where the
    /// run was.
    #[verifier::loop_isolation(false)]
    #[verifier::rlimit(100)]
    pub fn inject(
        commands: &mut Vec<EventCommand>,
        index: usize,
        translations: &TranslationMap,
        path_prefix: &TranslationPath,
        options: &InjectionOptions,
    ) -> (r: (InjectionResult, usize))
        requires
            index < old(commands)@.len(),
            old(commands)@[index as int]@.code == 401,
        ensures
            ({
                let models = old(commands)@.map_values(|c: EventCommand| c@);
                let n = spec_run_len(models, index as int, models[index as int].indent);
                let id = spec_position_unit_id(path_prefix@, index as int, "dialogue"@);
                match translations.spec_get(id) {
                    None => {
                        &&& *final(commands) == *old(commands)
                        &&& r.0.applied == 0
                        &&& r.0.commands_modified == 0
                        &&& r.1 == 1
                        &&& r.0.not_found == if options.skip_missing_translations {
                            0int
                        } else {
                            1int
                        }
                        &&& r.0.warnings@.len() == if options.skip_missing_translations {
                            0int
                        } else {
                            1int
                        }
                    },
                    Some(t) => {
                        let newmodels = final(commands)@.map_values(|c: EventCommand| c@);
                        let lines = options.spec_split_text(t);
                        let k = r.1 as int;
                        &&& r.0.applied == 1
                        &&& r.0.commands_modified == n
                        &&& r.0.not_found == 0
                        &&& r.0.warnings@.len() == 0
                        &&& k == lines.len()
                        &&& final(commands)@.len() == old(commands)@.len() - n + k
                        &&& newmodels.subrange(0, index as int) == models.subrange(
                            0,
                            index as int,
                        )
                        &&& newmodels.skip(index + k) == models.skip(index + n)
                        &&& forall|j: int|
                            0 <= j < k ==> (#[trigger] newmodels[index + j]).code == 401
                                && newmodels[index + j].indent == models[index as int].indent
                                && newmodels[index + j].params.len() == 1 && newmodels[index
                                + j].params[0] == crate::json::Json::Str(lines[j])
                    },
                }
            }),
    {
        let ghost models = commands@.map_values(|c: EventCommand| c@);
        let indent = commands[index].indent;
        let ghost total = spec_run_len(models, index as int, indent);
        // measure the run
        let mut old_count: usize = 0;
        proof {
            lemma_run_len_bound(models, index as int, indent);
        }
        while old_count < commands.len() - index && run_continues(
            &commands[index + old_count],
            indent,
        )
            invariant
                index + old_count <= commands@.len(),
                total == old_count + spec_run_len(models, index as int + old_count, indent),
            decreases commands@.len() - index - old_count,
        {
            old_count = old_count + 1;
        }
        proof {
            assert(spec_run_len(models, index as int + old_count, indent) == 0);
            assert(old_count == total);
        }
        let unit_id = generate_unit_id(path_prefix, index, "dialogue");
        let mut result = InjectionResult::new();
        match translations.get(unit_id.as_str()) {
            Some(translated) => {
                let new_lines = options.split_text(translated.as_str());
                let ghost t = translated@;
                // build the new command list: prefix, new bodies, suffix
                let mut out: Vec<EventCommand> = Vec::new();
                let mut i: usize = 0;
                while i < index
                    invariant
                        i <= index,
                        out@.len() == i,
                        forall|j: int| 0 <= j < i ==> (#[trigger] out@[j])@ == models[j],
                    decreases index - i,
                {
                    out.push(commands[i].duplicate());
                    i = i + 1;
                }
                let mut i: usize = 0;
                let k = new_lines.len();
                while i < k
                    invariant
                        i <= k,
                        out@.len() == index + i,
                        forall|j: int| 0 <= j < index ==> (#[trigger] out@[j])@ == models[j],
                        forall|j: int|
                            index <= j < index + i ==> (#[trigger] out@[j])@.code == 401
                                && out@[j]@.indent == indent && out@[j]@.params.len() == 1
                                && out@[j]@.params[0] == crate::json::Json::Str(
                                new_lines@[j - index]@,
                            ),
                    decreases k - i,
                {
                    out.push(EventCommand::dialogue(indent, new_lines[i].as_str()));
                    i = i + 1;
                }
                let mut i: usize = index + old_count;
                let n_all = commands.len();
                while i < n_all
                    invariant
                        index + old_count <= i <= n_all,
                        out@.len() == index + k + (i - index - old_count),
                        forall|j: int| 0 <= j < index ==> (#[trigger] out@[j])@ == models[j],
                        forall|j: int|
                            index <= j < index + k ==> (#[trigger] out@[j])@.code == 401
                                && out@[j]@.indent == indent && out@[j]@.params.len() == 1
                                && out@[j]@.params[0] == crate::json::Json::Str(
                                new_lines@[j - index]@,
                            ),
                        forall|j: int|
                            index + k <= j < out@.len() ==> (#[trigger] out@[j])@ == models[j - k
                                + old_count],
                    decreases n_all - i,
                {
                    out.push(commands[i].duplicate());
                    i = i + 1;
                }
                *commands = out;
                result.applied = 1;
                result.commands_modified = old_count;
                proof {
                    let newmodels = final(commands)@.map_values(|c: EventCommand| c@);
                    assert(newmodels.subrange(0, index as int) =~= models.subrange(
                        0,
                        index as int,
                    ));
                    assert(newmodels.skip(index + k) =~= models.skip(index + old_count));
                    assert(new_lines@.map_values(|x: String| x@) == options.spec_split_text(t));
                    assert(forall|j: int|
                        0 <= j < k ==> (#[trigger] newmodels[index + j]).params[0]
                            == crate::json::Json::Str(options.spec_split_text(t)[j])) by {
                        assert(forall|j: int|
                            0 <= j < k ==> new_lines@.map_values(|x: String| x@)[j] == (
                            #[trigger] new_lines@[j])@);
                    }
                }
                (result, k)
            },
            None => {
                if !options.skip_missing_translations {
                    result.not_found = 1;
                    let mut warning = String::from_str("translation not found for: ");
                    append_str(&mut warning, unit_id.as_str());
                    result.add_warning(warning.as_str());
                }
                (result, 1)
            },
        }
    }
}

/// Join strings with a separator.
#[verifier::loop_isolation(false)]
fn join_lines(lines: &Vec<String>, sep: &str) -> (r: String)
    ensures
        r@ == spec_join(lines@.map_values(|x: String| x@), sep@),
{
    let ghost views = lines@.map_values(|x: String| x@);
    let mut out = String::new();
    let mut i: usize = 0;
    let n = lines.len();
    while i < n
        invariant
            i <= n,
            n == lines@.len(),
            views == lines@.map_values(|x: String| x@),
            out@ == spec_join(views.take(i as int), sep@),
        decreases n - i,
    {
        if i > 0 {
            append_str(&mut out, sep);
        }
        append_str(&mut out, lines[i].as_str());
        proof {
            assert(views.take(i as int + 1).drop_last() =~= views.take(i as int));
            assert(views.take(i as int + 1).last() == views[i as int]);
            if i == 0 {
                assert(out@ =~= spec_join(views.take(1), sep@));
            } else {
                assert(out@ =~= spec_join(views.take(i as int), sep@) + sep@ + views[i as int]);
            }
        }
        i = i + 1;
    }
    proof {
        assert(views.take(n as int) =~= views);
    }
    out
}

} // verus!

//! Handlers for show-choices (102) and choice-branch (402) commands.

use vstd::prelude::*;

use crate::command::{CmdModel, EventCommand};
use crate::context::{ExtractionContext, ExtractionResult, InjectionResult};
use crate::event_code::EventCode;
use crate::handlers::{generate_unit_id, spec_position_unit_id};
use crate::json::{Json, JsonValue};
use crate::options::{ExtractionOptions, InjectionOptions};
use crate::strutil::{append_str, spec_decimal, spec_is_blank, str_is_blank, trim_str,
    usize_to_string};
use crate::tmap::TranslationMap;
use crate::translation_path::{Seg, TranslationPath};
use crate::translation_unit::TranslationUnit;

verus! {

/// The unit id of one choice option: the position id with an empty role,
/// then `_choice_` and the option index.
pub open spec fn spec_choice_unit_id(path: Seq<Seg>, index: int, i: int) -> Seq<char> {
    spec_position_unit_id(path, index, Seq::empty()) + "_choice_"@ + spec_decimal(i as nat)
}

/// The (id, original) pairs the choices handler emits for one 102: one per
/// string option, skipping options that are blank unless empties are kept;
/// the option index counts string options only.
pub open spec fn spec_choices_pairs(
    choices: Seq<Json>,
    path: Seq<Seg>,
    index: int,
    options: &ExtractionOptions,
    from: int,
    string_seen: int,
) -> Seq<(Seq<char>, Seq<char>)>
    decreases choices.len() - from,
{
    if from < 0 || from >= choices.len() {
        Seq::empty()
    } else {
        match choices[from] {
            Json::Str(text) => {
                let shown = if options.trim_whitespace {
                    crate::strutil::spec_trim(text)
                } else {
                    text
                };
                let head = if spec_is_blank(text) && !options.include_empty {
                    Seq::empty()
                } else {
                    seq![(spec_choice_unit_id(path, index, string_seen), shown)]
                };
                head + spec_choices_pairs(choices, path, index, options, from + 1, string_seen + 1)
            },
            _ => spec_choices_pairs(choices, path, index, options, from + 1, string_seen),
        }
    }
}

/// The path of each option unit a choices array emits, aligned
/// index-for-index with its pairs: the command position, then
/// `parameters.0`, then the option's position counted over string
/// elements.
pub open spec fn spec_choices_paths(
    choices: Seq<Json>,
    path: Seq<Seg>,
    index: int,
    options: &ExtractionOptions,
    from: int,
    string_seen: int,
) -> Seq<Seq<Seg>>
    decreases choices.len() - from,
{
    if from < 0 || from >= choices.len() {
        Seq::empty()
    } else {
        match choices[from] {
            Json::Str(text) => {
                let head: Seq<Seq<Seg>> = if spec_is_blank(text) && !options.include_empty {
                    Seq::empty()
                } else {
                    seq![
                        path.push(Seg::Index(index)).push(Seg::Key("parameters"@)).push(
                            Seg::Index(0),
                        ).push(Seg::Index(string_seen)),
                    ]
                };
                head + spec_choices_paths(choices, path, index, options, from + 1, string_seen + 1)
            },
            _ => spec_choices_paths(choices, path, index, options, from + 1, string_seen),
        }
    }
}

/// The path of each option unit one show-choices command emits.
pub open spec fn spec_choices_cmd_paths(
    c: CmdModel,
    path: Seq<Seg>,
    index: int,
    options: &ExtractionOptions,
) -> Seq<Seq<Seg>> {
    if c.code == 102 && c.params.len() >= 1 && c.params[0] is Arr {
        spec_choices_paths(c.params[0]->Arr_0, path, index, options, 0, 0)
    } else {
        Seq::empty()
    }
}

/// Every path the choices projection emits resolves in a tree whose
/// `parameters.0` under the command's position is the options array: the
/// option index counts string elements, so it never passes the array's
/// length.
pub proof fn lemma_choices_paths_resolve(
    root: Json,
    elems: Seq<Json>,
    path: Seq<Seg>,
    index: int,
    options: &ExtractionOptions,
    from: int,
    string_seen: int,
)
    requires
        crate::translation_path::spec_get(
            root,
            path.push(Seg::Index(index)).push(Seg::Key("parameters"@)).push(Seg::Index(0)),
        ) == Some(Json::Arr(elems)),
        0 <= string_seen <= from,
    ensures
        forall|k: int|
            0 <= k < spec_choices_paths(elems, path, index, options, from, string_seen).len()
                ==> crate::translation_path::spec_get(
                root,
                #[trigger] spec_choices_paths(elems, path, index, options, from, string_seen)[k],
            ) is Some,
    decreases elems.len() - from,
{
    if from < 0 || from >= elems.len() {
    } else {
        let base = path.push(Seg::Index(index)).push(Seg::Key("parameters"@)).push(Seg::Index(0));
        match elems[from] {
            Json::Str(text) => {
                lemma_choices_paths_resolve(
                    root,
                    elems,
                    path,
                    index,
                    options,
                    from + 1,
                    string_seen + 1,
                );
                if !(spec_is_blank(text) && !options.include_empty) {
                    let head_path = base.push(Seg::Index(string_seen));
                    crate::translation_path::lemma_spec_get_append(
                        root,
                        base,
                        seq![Seg::Index(string_seen)],
                    );
                    assert(head_path =~= base + seq![Seg::Index(string_seen)]);
                    assert(seq![Seg::Index(string_seen)].drop_first() =~= Seq::<Seg>::empty());
                    assert(seq![Seg::Index(string_seen)][0] == Seg::Index(string_seen));
                    assert(0 <= string_seen < elems.len());
                    assert(crate::translation_path::spec_get(
                        elems[string_seen],
                        Seq::<Seg>::empty(),
                    ) == Some(elems[string_seen]));
                    assert(crate::translation_path::spec_get(
                        Json::Arr(elems),
                        seq![Seg::Index(string_seen)],
                    ) == Some(elems[string_seen]));
                    assert(crate::translation_path::spec_get(root, head_path) is Some);
                }
            },
            _ => {
                lemma_choices_paths_resolve(
                    root,
                    elems,
                    path,
                    index,
                    options,
                    from + 1,
                    string_seen,
                );
            },
        }
    }
}

/// The (id, original) pairs one show-choices command emits.
pub open spec fn spec_choices_cmd_pairs(
    c: CmdModel,
    path: Seq<Seg>,
    index: int,
    options: &ExtractionOptions,
) -> Seq<(Seq<char>, Seq<char>)> {
    if c.code == 102 && c.params.len() >= 1 && c.params[0] is Arr {
        spec_choices_pairs(c.params[0]->Arr_0, path, index, options, 0, 0)
    } else {
        Seq::empty()
    }
}

/// The (id, original) pairs one choice-branch command emits.
pub open spec fn spec_branch_pairs(
    c: CmdModel,
    path: Seq<Seg>,
    index: int,
    options: &ExtractionOptions,
) -> Seq<(Seq<char>, Seq<char>)> {
    match EventCommand::spec_choice_text(c) {
        Some(t) => if spec_is_blank(t) && !options.include_empty {
            Seq::empty()
        } else {
            seq![
                (
                    spec_position_unit_id(path, index, "choice_branch"@),
                    if options.trim_whitespace {
                        crate::strutil::spec_trim(t)
                    } else {
                        t
                    },
                ),
            ]
        },
        None => Seq::empty(),
    }
}

/// The number of string options before position `j` of a choices array:
/// option ids count string elements only.
pub open spec fn spec_string_index(elems: Seq<Json>, j: int) -> int
    decreases j,
{
    if j <= 0 {
        0
    } else {
        spec_string_index(elems, j - 1) + if elems[j - 1] is Str {
            1int
        } else {
            0int
        }
    }
}

/// The choices array after injection: every string option whose choice id
/// has a translation becomes that translation, everything else is
/// unchanged.
pub open spec fn spec_choices_new_elems(
    elems: Seq<Json>,
    tmap: Seq<(Seq<char>, Seq<char>)>,
    path: Seq<Seg>,
    index: int,
) -> Seq<Json> {
    Seq::new(
        elems.len(),
        |j: int|
            match elems[j] {
                Json::Str(_) => match crate::tmap::spec_assoc_get(
                    tmap,
                    spec_choice_unit_id(path, index, spec_string_index(elems, j)),
                ) {
                    Some(t) => Json::Str(t),
                    None => elems[j],
                },
                _ => elems[j],
            },
    )
}

/// How many options the translations rewrite among the first `j` elements.
pub open spec fn spec_choices_applied(
    elems: Seq<Json>,
    tmap: Seq<(Seq<char>, Seq<char>)>,
    path: Seq<Seg>,
    index: int,
    j: int,
) -> int
    decreases j,
{
    if j <= 0 {
        0
    } else {
        spec_choices_applied(elems, tmap, path, index, j - 1) + (
        if elems[j - 1] is Str && crate::tmap::spec_assoc_get(
            tmap,
            spec_choice_unit_id(path, index, spec_string_index(elems, j - 1)),
        ) is Some {
            1int
        } else {
            0int
        })
    }
}

/// The applied count never goes negative.
pub proof fn lemma_choices_applied_nonneg(
    elems: Seq<Json>,
    tmap: Seq<(Seq<char>, Seq<char>)>,
    path: Seq<Seg>,
    index: int,
    j: int,
)
    ensures
        spec_choices_applied(elems, tmap, path, index, j) >= 0,
    decreases j,
{
    if j > 0 {
        lemma_choices_applied_nonneg(elems, tmap, path, index, j - 1);
    }
}

/// An empty translation map rewrites no option.
pub proof fn lemma_choices_applied_empty(
    elems: Seq<Json>,
    tmap: Seq<(Seq<char>, Seq<char>)>,
    path: Seq<Seg>,
    index: int,
    j: int,
)
    requires
        tmap.len() == 0,
    ensures
        spec_choices_applied(elems, tmap, path, index, j) == 0,
    decreases j,
{
    broadcast use crate::tmap::lemma_empty_map_get;

    if j > 0 {
        lemma_choices_applied_empty(elems, tmap, path, index, j - 1);
    }
}

/// Handler for the show-choices command (102).
#[derive(Debug)]
pub struct ChoicesHandler;

impl ChoicesHandler {
    /// Extract one unit per non-blank choice option.  Always consumes one
    /// command; a 102 whose first parameter is not an array yields
    /// nothing.
    #[verifier::loop_isolation(false)]
    #[verifier::rlimit(100)]
    pub fn extract(
        commands: &Vec<EventCommand>,
        index: usize,
        path_prefix: &TranslationPath,
        context: &ExtractionContext,
        options: &ExtractionOptions,
    ) -> (r: ExtractionResult)
        requires
            index < commands@.len(),
        ensures
            ({
                let c = commands@[index as int]@;
                &&& r.consumed == 1
                &&& r.speaker_update is None
                &&& r.add_to_preceding is None
                &&& (c.code == 102 && c.params.len() >= 1 && c.params[0] is Arr) ==> {
                    let pairs = spec_choices_pairs(
                        c.params[0]->Arr_0,
                        path_prefix@,
                        index as int,
                        options,
                        0,
                        0,
                    );
                    &&& r.units@.len() == pairs.len()
                    &&& r.units@.map_values(|u: TranslationUnit| u.path@) == spec_choices_paths(
                        c.params[0]->Arr_0,
                        path_prefix@,
                        index as int,
                        options,
                        0,
                        0,
                    )
                    &&& forall|j: int|
                        0 <= j < pairs.len() ==> (#[trigger] r.units@[j]).id@ == pairs[j].0
                            && r.units@[j].original@ == pairs[j].1 && r.units@[j].code
                            == EventCode::ShowChoices && r.units@[j].speaker
                            == context.current_speaker && r.units@[j].path@.len()
                            == path_prefix@.len() + 4 && r.units@[j].path@.take(
                            path_prefix@.len() + 3 as int,
                        ) == path_prefix@.push(Seg::Index(index as int)).push(
                            Seg::Key("parameters"@),
                        ).push(Seg::Index(0)) && r.units@[j].path@.last() is Index
                            && r.units@[j].context.map_name == context.map_name
                            && r.units@[j].context.page_index == Some(context.page_index)
                            && (r.units@[j].context.file_name matches Some(f) && f@
                            == context.file_name@)
                }
                &&& !(c.code == 102 && c.params.len() >= 1 && c.params[0] is Arr) ==> r.units@.len()
                    == 0
            }),
    {
        let cmd = &commands[index];
        if cmd.code != 102 {
            return ExtractionResult::empty();
        }
        let choices = match cmd.get_array_param(0) {
            Some(c) => c,
            None => {
                return ExtractionResult::empty();
            },
        };
        let ghost elems = crate::json::json_view_list(choices@);
        proof {
            crate::json::lemma_json_view_list(choices@);
        }
        let ghost target = spec_choices_pairs(
            elems,
            path_prefix@,
            index as int,
            options,
            0,
            0,
        );
        let ghost ptotal = spec_choices_paths(elems, path_prefix@, index as int, options, 0, 0);
        proof {
            reveal_strlit("");
        }
        let base_id = generate_unit_id(path_prefix, index, "");
        proof {
            assert(""@ =~= Seq::<char>::empty());
        }
        let mut units: Vec<TranslationUnit> = Vec::new();
        let mut string_seen: usize = 0;
        let mut i: usize = 0;
        let n = choices.len();
        proof {
            assert(units@.map_values(|u: TranslationUnit| (u.id@, u.original@)) =~= Seq::<
                (Seq<char>, Seq<char>),
            >::empty());
            let e: Seq<(Seq<char>, Seq<char>)> = Seq::empty();
            assert(e + target =~= target);
            assert(units@.map_values(|u: TranslationUnit| u.path@) =~= Seq::<Seq<Seg>>::empty());
            let pe: Seq<Seq<Seg>> = Seq::empty();
            assert(pe + ptotal =~= ptotal);
        }
        while i < n
            invariant
                i <= n,
                n == choices@.len(),
                string_seen <= i,
                elems == crate::json::json_view_list(choices@),
                base_id@ == spec_position_unit_id(path_prefix@, index as int, Seq::empty()),
                ({
                    let done = units@.map_values(
                        |u: TranslationUnit| (u.id@, u.original@),
                    );
                    done + spec_choices_pairs(
                        elems,
                        path_prefix@,
                        index as int,
                        options,
                        i as int,
                        string_seen as int,
                    ) == target
                }),
                units@.map_values(|u: TranslationUnit| u.path@) + spec_choices_paths(
                    elems,
                    path_prefix@,
                    index as int,
                    options,
                    i as int,
                    string_seen as int,
                ) == ptotal,
                forall|j: int|
                    0 <= j < units@.len() ==> (#[trigger] units@[j]).code == EventCode::ShowChoices
                        && units@[j].speaker == context.current_speaker && units@[j].path@.len()
                        == path_prefix@.len() + 4 && units@[j].path@.take(
                        path_prefix@.len() + 3 as int,
                    ) == path_prefix@.push(Seg::Index(index as int)).push(
                            Seg::Key("parameters"@),
                        ).push(Seg::Index(0)) && units@[j].path@.last() is Index
                        && units@[j].context.map_name == context.map_name
                        && units@[j].context.page_index == Some(context.page_index)
                        && (units@[j].context.file_name matches Some(f) && f@
                        == context.file_name@),
            decreases n - i,
        {
            let ghost done_before = units@.map_values(|u: TranslationUnit| (u.id@, u.original@));
            let ghost done_paths = units@.map_values(|u: TranslationUnit| u.path@);
            match choices[i].as_str() {
                Some(text) => {
                    let blank = str_is_blank(text.as_str());
                    if !(blank && !options.include_empty) {
                        let shown: String = if options.trim_whitespace {
                            String::from_str(trim_str(text.as_str()))
                        } else {
                            text.clone()
                        };
                        let mut unit_id = base_id.clone();
                        append_str(&mut unit_id, "_choice_");
                        let idx_str = usize_to_string(string_seen);
                        append_str(&mut unit_id, idx_str.as_str());
                        let unit_path = path_prefix.append_index(index).append_key(
                            "parameters",
                        ).append_index(0).append_index(string_seen);
                        let speaker = match &context.current_speaker {
                            Some(s) => Some(s.clone()),
                            None => None,
                        };
                        let unit = TranslationUnit::new(
                            unit_id,
                            unit_path,
                            EventCode::ShowChoices,
                            shown,
                        ).with_speaker(speaker).with_context(context.to_translation_context());
                        units.push(unit);
                        proof {
                            assert(units@.map_values(
                                |u: TranslationUnit| (u.id@, u.original@),
                            ) =~= done_before.push((units@.last().id@, units@.last().original@)));
                            assert(done_before.push(
                                (units@.last().id@, units@.last().original@),
                            ) =~= done_before + seq![
                                (units@.last().id@, units@.last().original@),
                            ]);
                            assert(units@.map_values(|u: TranslationUnit| u.path@)
                                =~= done_paths.push(units@.last().path@));
                            assert(units@.last().path@ =~= path_prefix@.push(
                                Seg::Index(index as int),
                            ).push(Seg::Key("parameters"@)).push(Seg::Index(0)).push(
                                Seg::Index(string_seen as int),
                            ));
                            assert(done_paths.push(units@.last().path@) =~= done_paths + seq![
                                units@.last().path@,
                            ]);
                            assert(units@.last().path@.take(path_prefix@.len() + 3 as int)
                                =~= path_prefix@.push(Seg::Index(index as int)).push(
                            Seg::Key("parameters"@),
                        ).push(Seg::Index(0)));
                        }
                    }
                    string_seen = string_seen + 1;
                },
                None => {},
            }
            i = i + 1;
        }
        proof {
            let done = units@.map_values(|u: TranslationUnit| (u.id@, u.original@));
            assert(done + Seq::<(Seq<char>, Seq<char>)>::empty() =~= done);
            let dpaths = units@.map_values(|u: TranslationUnit| u.path@);
            assert(dpaths + Seq::<Seq<Seg>>::empty() =~= dpaths);
        }
        ExtractionResult::multiple(units, 1)
    }

    /// Inject translated choice options in place: every string option
    /// whose choice id (numbered over string options, as extraction
    /// numbers them) has a translation is overwritten, and the command
    /// counts as modified exactly when at least one option was rewritten,
    /// so an empty translation map leaves the list untouched.
    #[verifier::loop_isolation(false)]
    #[verifier::rlimit(100)]
    pub fn inject(
        commands: &mut Vec<EventCommand>,
        index: usize,
        translations: &TranslationMap,
        path_prefix: &TranslationPath,
        _options: &InjectionOptions,
    ) -> (r: InjectionResult)
        requires
            index < old(commands)@.len(),
        ensures
            ({
                let c = old(commands)@[index as int]@;
                &&& final(commands)@.len() == old(commands)@.len()
                &&& forall|j: int|
                    0 <= j < old(commands)@.len() && j != index ==> (#[trigger] final(commands)@[j]) == old(commands)@[j]
                &&& r.warnings@.len() == 0
                &&& r.not_found == 0
                &&& translations@.len() == 0 ==> final(commands)@ == old(commands)@ && r.applied
                    == 0 && r.commands_modified == 0
                &&& if c.code == 102 && c.params.len() >= 1 && c.params[0] is Arr {
                    let elems = c.params[0]->Arr_0;
                    let cnt = spec_choices_applied(
                        elems,
                        translations@,
                        path_prefix@,
                        index as int,
                        elems.len() as int,
                    );
                    &&& r.applied == cnt
                    &&& r.commands_modified == if cnt > 0 {
                        1int
                    } else {
                        0int
                    }
                    &&& cnt > 0 ==> final(commands)@[index as int]@.params == c.params.update(
                        0,
                        Json::Arr(
                            spec_choices_new_elems(
                                elems,
                                translations@,
                                path_prefix@,
                                index as int,
                            ),
                        ),
                    ) && final(commands)@[index as int]@.code == c.code && final(commands)@[index as int]@.indent == c.indent
                    &&& cnt == 0 ==> final(commands)@ == old(commands)@
                } else {
                    final(commands)@ == old(commands)@ && r.applied == 0
                        && r.commands_modified == 0
                }
            }),
    {
        let mut result = InjectionResult::new();
        let ghost c = old(commands)@[index as int]@;
        let ghost tm = translations@;
        let ghost lp = path_prefix@;
        if commands[index].code != 102 {
            return result;
        }
        let n_choices = match commands[index].get_array_param(0) {
            Some(choices) => {
                proof {
                    crate::json::lemma_json_view_list(choices@);
                }
                choices.len()
            },
            None => {
                return result;
            },
        };
        let ghost elems_model = c.params[0]->Arr_0;
        let ghost total = spec_choices_applied(
            elems_model,
            tm,
            lp,
            index as int,
            elems_model.len() as int,
        );
        let base_id = generate_unit_id(path_prefix, index, "");
        proof {
            reveal_strlit("");
            assert(""@ =~= Seq::<char>::empty());
        }
        // first pass: count the options the map rewrites, without touching
        // anything
        let mut cnt: usize = 0;
        let mut string_seen: usize = 0;
        let mut i: usize = 0;
        while i < n_choices
            invariant
                i <= n_choices,
                n_choices == elems_model.len(),
                index < commands@.len(),
                commands@ == old(commands)@,
                string_seen == spec_string_index(elems_model, i as int),
                string_seen <= i,
                cnt == spec_choices_applied(elems_model, tm, lp, index as int, i as int),
                cnt <= i,
                tm.len() == 0 ==> cnt == 0,
            decreases n_choices - i,
        {
            let choices = match commands[index].get_array_param(0) {
                Some(choices) => choices,
                None => {
                    proof {
                        assert(false);
                    }
                    return result;
                },
            };
            proof {
                crate::json::lemma_json_view_list(choices@);
            }
            if choices[i].is_string() {
                let mut unit_id = base_id.clone();
                append_str(&mut unit_id, "_choice_");
                let idx_str = usize_to_string(string_seen);
                append_str(&mut unit_id, idx_str.as_str());
                proof {
                    assert(unit_id@ =~= spec_choice_unit_id(
                        lp,
                        index as int,
                        string_seen as int,
                    ));
                }
                if translations.get(unit_id.as_str()).is_some() {
                    cnt = cnt + 1;
                }
                string_seen = string_seen + 1;
            }
            i = i + 1;
        }
        if cnt == 0 {
            return result;
        }
        // second pass: rewrite the options in place
        let mut cmd = commands.remove(index);
        proof {
            crate::json::lemma_json_view_list(cmd.parameters@);
        }
        let mut arr = cmd.parameters.remove(0);
        proof {
            assert(crate::json::json_view(arr) == c.params[0]);
        }
        let mut applied: usize = 0;
        match &mut arr {
            JsonValue::Array(elems) => {
                proof {
                    crate::json::lemma_json_view_list(elems@);
                }
                let ghost new_model = spec_choices_new_elems(elems_model, tm, lp, index as int);
                let mut string_seen: usize = 0;
                let mut i: usize = 0;
                while i < n_choices
                    invariant
                        i <= n_choices,
                        n_choices == elems_model.len(),
                        elems@.len() == n_choices,
                        string_seen == spec_string_index(elems_model, i as int),
                        string_seen <= i,
                        applied == spec_choices_applied(
                            elems_model,
                            tm,
                            lp,
                            index as int,
                            i as int,
                        ),
                        applied <= i,
                        forall|j: int|
                            0 <= j < i ==> crate::json::json_view(#[trigger] elems@[j])
                                == new_model[j],
                        forall|j: int|
                            i <= j < n_choices ==> crate::json::json_view(#[trigger] elems@[j])
                                == elems_model[j],
                    decreases n_choices - i,
                {
                    proof {
                        crate::json::lemma_json_view_list(elems@);
                    }
                    if elems[i].is_string() {
                        let mut unit_id = base_id.clone();
                        append_str(&mut unit_id, "_choice_");
                        let idx_str = usize_to_string(string_seen);
                        append_str(&mut unit_id, idx_str.as_str());
                        proof {
                            assert(unit_id@ =~= spec_choice_unit_id(
                                lp,
                                index as int,
                                string_seen as int,
                            ));
                        }
                        match translations.get(unit_id.as_str()) {
                            Some(translated) => {
                                elems[i] = JsonValue::Str(translated.clone());
                                applied = applied + 1;
                            },
                            None => {},
                        }
                        string_seen = string_seen + 1;
                    }
                    i = i + 1;
                }
                proof {
                    crate::json::lemma_json_view_list(elems@);
                    assert(crate::json::json_view_list(elems@) =~= new_model);
                }
            },
            _ => {
                proof {
                    assert(c.params[0] is Arr);
                    assert(crate::json::json_view(arr) is Arr);
                }
            },
        }
        cmd.parameters.insert(0, arr);
        commands.insert(index, cmd);
        proof {
            assert(forall|j: int|
                0 <= j < old(commands)@.len() && j != index ==> (#[trigger] final(commands)@[j]) == old(commands)@[j]);
            crate::json::lemma_json_view_list(final(commands)@[index as int].parameters@);
            assert(final(commands)@[index as int]@.params =~= c.params.update(
                0,
                Json::Arr(spec_choices_new_elems(elems_model, tm, lp, index as int)),
            ));
        }
        result.applied = applied;
        result.commands_modified = 1;
        result
    }
}

/// Handler for the choice-branch command (402).
#[derive(Debug)]
pub struct ChoiceBranchHandler;

impl ChoiceBranchHandler {
    /// Extract the choice text repeated on the branch header as one unit,
    /// skipping blank text unless empties are kept.
    pub fn extract(
        commands: &Vec<EventCommand>,
        index: usize,
        path_prefix: &TranslationPath,
        context: &ExtractionContext,
        options: &ExtractionOptions,
    ) -> (r: ExtractionResult)
        requires
            index < commands@.len(),
        ensures
            ({
                let c = commands@[index as int]@;
                let text = EventCommand::spec_choice_text(c);
                &&& r.consumed == 1
                &&& r.speaker_update is None
                &&& r.add_to_preceding is None
                &&& match text {
                    Some(t) => if spec_is_blank(t) && !options.include_empty {
                        r.units@.len() == 0
                    } else {
                        &&& r.units@.len() == 1
                        &&& r.units@[0].id@ == spec_position_unit_id(
                            path_prefix@,
                            index as int,
                            "choice_branch"@,
                        )
                        &&& r.units@[0].original@ == (if options.trim_whitespace {
                            crate::strutil::spec_trim(t)
                        } else {
                            t
                        })
                        &&& r.units@[0].code == EventCode::WhenChoice
                        &&& r.units@[0].path@ == path_prefix@.push(Seg::Index(index as int))
                        &&& r.units@[0].speaker == context.current_speaker
                        &&& r.units@[0].context.map_name == context.map_name
                        &&& r.units@[0].context.page_index == Some(context.page_index)
                        &&& r.units@[0].context.file_name matches Some(f) && f@
                            == context.file_name@
                    },
                    None => r.units@.len() == 0,
                }
            }),
    {
        let cmd = &commands[index];
        let choice_text = match cmd.get_choice_text() {
            Some(t) => t,
            None => {
                return ExtractionResult::empty();
            },
        };
        if str_is_blank(choice_text.as_str()) && !options.include_empty {
            return ExtractionResult::empty();
        }
        let text: String = if options.trim_whitespace {
            String::from_str(trim_str(choice_text.as_str()))
        } else {
            choice_text.clone()
        };
        let unit_id = generate_unit_id(path_prefix, index, "choice_branch");
        let speaker = match &context.current_speaker {
            Some(s) => Some(s.clone()),
            None => None,
        };
        let unit = TranslationUnit::new(
            unit_id,
            path_prefix.append_index(index),
            EventCode::WhenChoice,
            text,
        ).with_speaker(speaker).with_context(context.to_translation_context());
        ExtractionResult::single(unit, 1)
    }

    /// Inject the translated choice text over parameter one of the
    /// branch.  Without a translation, or without a second parameter, the
    /// list is unchanged.
    pub fn inject(
        commands: &mut Vec<EventCommand>,
        index: usize,
        translations: &TranslationMap,
        path_prefix: &TranslationPath,
        _options: &InjectionOptions,
    ) -> (r: InjectionResult)
        requires
            index < old(commands)@.len(),
        ensures
            ({
                let id = spec_position_unit_id(path_prefix@, index as int, "choice_branch"@);
                let c = old(commands)@[index as int]@;
                &&& final(commands)@.len() == old(commands)@.len()
                &&& forall|j: int|
                    0 <= j < old(commands)@.len() && j != index ==> (#[trigger] final(commands)@[j]) == old(commands)@[j]
                &&& r.warnings@.len() == 0
                &&& r.not_found == 0
                &&& match translations.spec_get(id) {
                    Some(t) => if c.params.len() >= 2 {
                        &&& final(commands)@[index as int]@.params == c.params.update(
                            1,
                            Json::Str(t),
                        )
                        &&& final(commands)@[index as int]@.code == c.code
                        &&& final(commands)@[index as int]@.indent == c.indent
                        &&& r.applied == 1
                        &&& r.commands_modified == 1
                    } else {
                        final(commands)@ == old(commands)@ && r.applied == 0
                            && r.commands_modified == 0
                    },
                    None => final(commands)@ == old(commands)@ && r.applied == 0
                        && r.commands_modified == 0,
                }
            }),
    {
        let mut result = InjectionResult::new();
        let unit_id = generate_unit_id(path_prefix, index, "choice_branch");
        match translations.get(unit_id.as_str()) {
            Some(translated) => {
                let mut cmd = commands.remove(index);
                let changed = cmd.set_string_param(1, translated.as_str());
                commands.insert(index, cmd);
                proof {
                    assert(final(commands)@ =~= old(commands)@.update(
                        index as int,
                        final(commands)@[index as int],
                    ));
                    if !changed {
                        assert(final(commands)@ =~= old(commands)@);
                    }
                }
                if changed {
                    result.applied = 1;
                    result.commands_modified = 1;
                }
            },
            None => {},
        }
        result
    }
}

} // verus!

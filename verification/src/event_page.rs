//! The page walker: iterates one command list, dispatches the registered
//! handler for each opcode, threads the extraction context, and advances
//! by each handler's consumed count.

use vstd::prelude::*;

use crate::command::{
    parse_commands, spec_commands_to_json, spec_parse_commands, CmdModel, EventCommand,
};
use crate::context::{ExtractionContext, InjectionResult};
use crate::handlers::choices::{
    spec_branch_pairs, spec_choices_applied, spec_choices_cmd_pairs, spec_choices_cmd_paths,
    spec_choices_new_elems,
    ChoiceBranchHandler, ChoicesHandler,
};
use crate::handlers::comment::{spec_comment_pairs, CommentHandler};
use crate::handlers::dialogue::{
    spec_dialogue_pairs, spec_run_len, DialogueHandler, ShowTextHandler,
};
use crate::handlers::plugin::{
    spec_apply_replacements, spec_config_for, spec_has_plugin_data, spec_plugin_pairs,
    spec_plugin_replacements, ConfigModel,
};
use crate::handlers::registry::HandlerRegistry;
use crate::handlers::spec_position_unit_id;
use crate::json::{Json, JsonValue};
use crate::tmap::spec_assoc_get;
use crate::options::{ExtractionOptions, InjectionOptions};
use crate::tmap::TranslationMap;
use crate::translation_path::{Seg, TranslationPath};
use crate::translation_unit::TranslationUnit;

verus! {

/// The speaker a context option holds, as a character sequence.
pub open spec fn spec_speaker_view(sp: Option<String>) -> Option<Seq<char>> {
    match sp {
        Some(s) => Some(s@),
        None => None,
    }
}

/// The context speaker after a walk of the command list from position
/// `i`: a show-text header with a speaker name replaces it, every other
/// command leaves it, and dialogue runs stride as one step.
pub open spec fn spec_walk_speaker(cmds: Seq<CmdModel>, i: int, sp: Option<Seq<char>>) -> Option<
    Seq<char>,
>
    decreases cmds.len() - i when 0 <= i <= cmds.len()
{
    if i < 0 || i >= cmds.len() {
        sp
    } else {
        let c = cmds[i];
        if c.code == 401 {
            let n = spec_run_len(cmds, i, c.indent);
            let stride0 = if n < 1 {
                1int
            } else {
                n as int
            };
            let stride = if i + stride0 <= cmds.len() {
                stride0
            } else {
                cmds.len() - i
            };
            spec_walk_speaker(cmds, i + stride, sp)
        } else if c.code == 101 {
            let sp2 = match EventCommand::spec_speaker_name(c) {
                Some(name) => Some(name),
                None => sp,
            };
            spec_walk_speaker(cmds, i + 1, sp2)
        } else {
            spec_walk_speaker(cmds, i + 1, sp)
        }
    }
}

/// The path of each unit a walk of the command list from position `i`
/// emits, aligned index-for-index with its pairs: dialogue, branch and
/// comment units sit at the command's position, choice options under its
/// `parameters.0`, plugin units under its `parameters.3`.
pub open spec fn spec_walk_paths(
    cmds: Seq<CmdModel>,
    i: int,
    path: Seq<Seg>,
    user: Seq<ConfigModel>,
    predefined: Seq<ConfigModel>,
    options: &ExtractionOptions,
) -> Seq<Seq<Seg>>
    decreases cmds.len() - i when 0 <= i <= cmds.len()
{
    if i < 0 || i >= cmds.len() {
        Seq::empty()
    } else {
        let c = cmds[i];
        if c.code == 401 {
            let n = spec_run_len(cmds, i, c.indent);
            let stride0 = if n < 1 {
                1int
            } else {
                n as int
            };
            let stride = if i + stride0 <= cmds.len() {
                stride0
            } else {
                cmds.len() - i
            };
            Seq::new(
                spec_dialogue_pairs(cmds, i, path, options).len(),
                |k: int| path.push(Seg::Index(i)),
            ) + spec_walk_paths(cmds, i + stride, path, user, predefined, options)
        } else if c.code == 102 {
            spec_choices_cmd_paths(c, path, i, options) + spec_walk_paths(
                cmds,
                i + 1,
                path,
                user,
                predefined,
                options,
            )
        } else if c.code == 402 {
            Seq::new(spec_branch_pairs(c, path, i, options).len(), |k: int| path.push(Seg::Index(i)))
                + spec_walk_paths(cmds, i + 1, path, user, predefined, options)
        } else if c.code == 408 {
            Seq::new(
                spec_comment_pairs(c, path, i, options).len(),
                |k: int| path.push(Seg::Index(i)),
            ) + spec_walk_paths(cmds, i + 1, path, user, predefined, options)
        } else if c.code == 357 {
            Seq::new(
                spec_plugin_pairs(user, predefined, c, path, i, options).len(),
                |k: int|
                    path.push(Seg::Index(i)).push(Seg::Key("parameters"@)).push(Seg::Index(3)),
            ) + spec_walk_paths(cmds, i + 1, path, user, predefined, options)
        } else {
            spec_walk_paths(cmds, i + 1, path, user, predefined, options)
        }
    }
}

/// The speaker of each unit a walk of the command list from position `i`
/// emits, aligned index-for-index with its pairs: dialogue, choice and
/// branch units carry the speaker the walk holds at their position,
/// comment and plugin units none, and a show-text header with a name
/// replaces the walk's speaker.
pub open spec fn spec_walk_unit_speakers(
    cmds: Seq<CmdModel>,
    i: int,
    path: Seq<Seg>,
    sp: Option<Seq<char>>,
    user: Seq<ConfigModel>,
    predefined: Seq<ConfigModel>,
    options: &ExtractionOptions,
) -> Seq<Option<Seq<char>>>
    decreases cmds.len() - i when 0 <= i <= cmds.len()
{
    if i < 0 || i >= cmds.len() {
        Seq::empty()
    } else {
        let c = cmds[i];
        if c.code == 401 {
            let n = spec_run_len(cmds, i, c.indent);
            let stride0 = if n < 1 {
                1int
            } else {
                n as int
            };
            let stride = if i + stride0 <= cmds.len() {
                stride0
            } else {
                cmds.len() - i
            };
            Seq::new(spec_dialogue_pairs(cmds, i, path, options).len(), |k: int| sp)
                + spec_walk_unit_speakers(cmds, i + stride, path, sp, user, predefined, options)
        } else if c.code == 101 {
            let sp2 = match EventCommand::spec_speaker_name(c) {
                Some(name) => Some(name),
                None => sp,
            };
            spec_walk_unit_speakers(cmds, i + 1, path, sp2, user, predefined, options)
        } else if c.code == 102 {
            Seq::new(spec_choices_cmd_pairs(c, path, i, options).len(), |k: int| sp)
                + spec_walk_unit_speakers(cmds, i + 1, path, sp, user, predefined, options)
        } else if c.code == 402 {
            Seq::new(spec_branch_pairs(c, path, i, options).len(), |k: int| sp)
                + spec_walk_unit_speakers(cmds, i + 1, path, sp, user, predefined, options)
        } else if c.code == 408 {
            Seq::new(
                spec_comment_pairs(c, path, i, options).len(),
                |k: int| Option::<Seq<char>>::None,
            ) + spec_walk_unit_speakers(cmds, i + 1, path, sp, user, predefined, options)
        } else if c.code == 357 {
            Seq::new(
                spec_plugin_pairs(user, predefined, c, path, i, options).len(),
                |k: int| Option::<Seq<char>>::None,
            ) + spec_walk_unit_speakers(cmds, i + 1, path, sp, user, predefined, options)
        } else {
            spec_walk_unit_speakers(cmds, i + 1, path, sp, user, predefined, options)
        }
    }
}

/// Every path the walk projection emits resolves in a tree in which
/// `path` leads to the command list, provided every list element parses
/// as a command, so that positions in the parsed list are positions in
/// the array.
#[verifier::rlimit(100)]
pub proof fn lemma_walk_paths_resolve(
    root: crate::json::Json,
    path: Seq<Seg>,
    l: crate::json::Json,
    i: int,
    user: Seq<ConfigModel>,
    predefined: Seq<ConfigModel>,
    options: &ExtractionOptions,
)
    requires
        crate::translation_path::spec_get(root, path) == Some(l),
        crate::command::spec_list_fully_parses(l),
        0 <= i <= spec_parse_commands(l).len(),
    ensures
        forall|k: int|
            0 <= k < spec_walk_paths(spec_parse_commands(l), i, path, user, predefined, options).len()
                ==> crate::translation_path::spec_get(
                root,
                #[trigger] spec_walk_paths(
                    spec_parse_commands(l),
                    i,
                    path,
                    user,
                    predefined,
                    options,
                )[k],
            ) is Some,
    decreases spec_parse_commands(l).len() - i,
{
    let cmds = spec_parse_commands(l);
    if i >= cmds.len() {
        return ;
    }
    assert(l is Arr) by {
        if !(l is Arr) {
            assert(cmds.len() == 0);
        }
    }
    let elems = l->Arr_0;
    crate::command::lemma_parse_commands_aligned(elems);
    let c = cmds[i];
    assert(c == crate::command::spec_parse_command(elems[i])->Some_0);
    assert(elems[i] is Obj);
    let fields = elems[i]->Obj_0;
    // the command's own position resolves
    crate::translation_path::lemma_spec_get_append(root, path, seq![Seg::Index(i)]);
    assert(path.push(Seg::Index(i)) =~= path + seq![Seg::Index(i)]);
    assert(seq![Seg::Index(i)][0] == Seg::Index(i));
    assert(seq![Seg::Index(i)].drop_first() =~= Seq::<Seg>::empty());
    assert(crate::translation_path::spec_get(elems[i], Seq::<Seg>::empty()) == Some(elems[i]));
    assert(crate::translation_path::spec_get(root, path.push(Seg::Index(i))) == Some(elems[i]));
    if c.code == 401 {
        let n = spec_run_len(cmds, i, c.indent);
        let stride0 = if n < 1 {
            1int
        } else {
            n as int
        };
        let stride = if i + stride0 <= cmds.len() {
            stride0
        } else {
            cmds.len() - i
        };
        lemma_walk_paths_resolve(root, path, l, i + stride, user, predefined, options);
    } else if c.code == 102 {
        if c.params.len() >= 1 && c.params[0] is Arr {
            assert(crate::json::spec_obj_get(fields, "parameters"@) matches Some(pv) && pv is Arr
                && pv->Arr_0 == c.params) by {
                if !(crate::json::spec_obj_get(fields, "parameters"@) matches Some(pv)
                    && pv is Arr) {
                    assert(c.params =~= Seq::<crate::json::Json>::empty());
                }
            }
            let suffix = seq![Seg::Key("parameters"@), Seg::Index(0)];
            crate::translation_path::lemma_spec_get_append(root, path.push(Seg::Index(i)), suffix);
            assert(suffix[0] == Seg::Key("parameters"@));
            assert(suffix.drop_first() =~= seq![Seg::Index(0)]);
            assert(seq![Seg::Index(0)][0] == Seg::Index(0));
            assert(seq![Seg::Index(0)].drop_first() =~= Seq::<Seg>::empty());
            let base = path.push(Seg::Index(i)).push(Seg::Key("parameters"@)).push(Seg::Index(0));
            assert(base =~= path.push(Seg::Index(i)) + suffix);
            assert(crate::json::spec_obj_get(fields, "parameters"@) == Some(
                crate::json::Json::Arr(c.params),
            ));
            assert(0 < c.params.len());
            assert(crate::translation_path::spec_get(c.params[0], Seq::<Seg>::empty()) == Some(
                c.params[0],
            ));
            assert(crate::translation_path::spec_get(
                crate::json::Json::Arr(c.params),
                seq![Seg::Index(0)],
            ) == Some(c.params[0]));
            assert(crate::translation_path::spec_get(elems[i], suffix) == Some(c.params[0]));
            assert(crate::translation_path::spec_get(root, base) == Some(c.params[0]));
            crate::handlers::choices::lemma_choices_paths_resolve(
                root,
                c.params[0]->Arr_0,
                path,
                i,
                options,
                0,
                0,
            );
        }
        lemma_walk_paths_resolve(root, path, l, i + 1, user, predefined, options);
    } else if c.code == 402 || c.code == 408 {
        lemma_walk_paths_resolve(root, path, l, i + 1, user, predefined, options);
    } else if c.code == 357 {
        if spec_plugin_pairs(user, predefined, c, path, i, options).len() > 0 {
            assert(crate::handlers::plugin::spec_has_plugin_data(c));
            assert(crate::json::spec_obj_get(fields, "parameters"@) matches Some(pv) && pv is Arr
                && pv->Arr_0 == c.params) by {
                if !(crate::json::spec_obj_get(fields, "parameters"@) matches Some(pv)
                    && pv is Arr) {
                    assert(c.params =~= Seq::<crate::json::Json>::empty());
                }
            }
            let suffix = seq![Seg::Key("parameters"@), Seg::Index(3)];
            crate::translation_path::lemma_spec_get_append(root, path.push(Seg::Index(i)), suffix);
            assert(suffix[0] == Seg::Key("parameters"@));
            assert(suffix.drop_first() =~= seq![Seg::Index(3)]);
            assert(seq![Seg::Index(3)][0] == Seg::Index(3));
            assert(seq![Seg::Index(3)].drop_first() =~= Seq::<Seg>::empty());
            let p3 = path.push(Seg::Index(i)).push(Seg::Key("parameters"@)).push(Seg::Index(3));
            assert(p3 =~= path.push(Seg::Index(i)) + suffix);
            assert(crate::json::spec_obj_get(fields, "parameters"@) == Some(
                crate::json::Json::Arr(c.params),
            ));
            assert(3 < c.params.len());
            assert(crate::translation_path::spec_get(c.params[3], Seq::<Seg>::empty()) == Some(
                c.params[3],
            ));
            assert(crate::translation_path::spec_get(
                crate::json::Json::Arr(c.params),
                seq![Seg::Index(3)],
            ) == Some(c.params[3]));
            assert(crate::translation_path::spec_get(elems[i], suffix) == Some(c.params[3]));
            assert(crate::translation_path::spec_get(root, p3) == Some(c.params[3]));
        }
        lemma_walk_paths_resolve(root, path, l, i + 1, user, predefined, options);
    } else {
        lemma_walk_paths_resolve(root, path, l, i + 1, user, predefined, options);
    }
}

/// The (id, original) pairs a walk of the command list from position `i`
/// emits, under the default dispatch: each handled opcode contributes its
/// pairs and its stride, every other opcode is skipped.
pub open spec fn spec_walk_pairs(
    cmds: Seq<CmdModel>,
    i: int,
    path: Seq<Seg>,
    user: Seq<ConfigModel>,
    predefined: Seq<ConfigModel>,
    options: &ExtractionOptions,
) -> Seq<(Seq<char>, Seq<char>)>
    decreases cmds.len() - i when 0 <= i <= cmds.len()
{
    if i < 0 || i >= cmds.len() {
        Seq::empty()
    } else {
        let c = cmds[i];
        if c.code == 401 {
            let n = spec_run_len(cmds, i, c.indent);
            let stride0 = if n < 1 {
                1int
            } else {
                n as int
            };
            let stride = if i + stride0 <= cmds.len() {
                stride0
            } else {
                cmds.len() - i
            };
            spec_dialogue_pairs(cmds, i, path, options) + spec_walk_pairs(
                cmds,
                i + stride,
                path,
                user,
                predefined,
                options,
            )
        } else if c.code == 102 {
            spec_choices_cmd_pairs(c, path, i, options) + spec_walk_pairs(
                cmds,
                i + 1,
                path,
                user,
                predefined,
                options,
            )
        } else if c.code == 402 {
            spec_branch_pairs(c, path, i, options) + spec_walk_pairs(
                cmds,
                i + 1,
                path,
                user,
                predefined,
                options,
            )
        } else if c.code == 408 {
            spec_comment_pairs(c, path, i, options) + spec_walk_pairs(
                cmds,
                i + 1,
                path,
                user,
                predefined,
                options,
            )
        } else if c.code == 357 {
            spec_plugin_pairs(user, predefined, c, path, i, options) + spec_walk_pairs(
                cmds,
                i + 1,
                path,
                user,
                predefined,
                options,
            )
        } else {
            spec_walk_pairs(cmds, i + 1, path, user, predefined, options)
        }
    }
}

/// Whether a page's command list, when present, is an array whose
/// elements all parse as commands; pages without a list, or that are not
/// objects, pass trivially.
pub open spec fn spec_page_list_parses(pg: crate::json::Json) -> bool {
    match pg {
        crate::json::Json::Obj(fields) => match crate::json::spec_obj_get(fields, "list"@) {
            Some(l) => crate::command::spec_list_fully_parses(l),
            None => true,
        },
        _ => true,
    }
}

/// Every path the pages projection emits resolves in a tree in which
/// `path.pages` leads to the pages array, provided each page's command
/// list parses element for element.
pub proof fn lemma_pages_paths_resolve(
    root: crate::json::Json,
    path: Seq<Seg>,
    pages: Seq<crate::json::Json>,
    p: int,
    user: Seq<ConfigModel>,
    predefined: Seq<ConfigModel>,
    options: &ExtractionOptions,
)
    requires
        crate::translation_path::spec_get(root, path.push(Seg::Key("pages"@))) == Some(
            crate::json::Json::Arr(pages),
        ),
        0 <= p <= pages.len(),
        forall|q: int| 0 <= q < pages.len() ==> spec_page_list_parses(#[trigger] pages[q]),
    ensures
        forall|k: int|
            0 <= k < spec_pages_paths(pages, p, path, user, predefined, options).len()
                ==> crate::translation_path::spec_get(
                root,
                #[trigger] spec_pages_paths(pages, p, path, user, predefined, options)[k],
            ) is Some,
    decreases pages.len() - p,
{
    if p >= pages.len() {
        return ;
    }
    lemma_pages_paths_resolve(root, path, pages, p + 1, user, predefined, options);
    match pages[p] {
        crate::json::Json::Obj(fields) => {
            match crate::json::spec_obj_get(fields, "list"@) {
                Some(l) => {
                    let suffix = seq![Seg::Index(p), Seg::Key("list"@)];
                    crate::translation_path::lemma_spec_get_append(
                        root,
                        path.push(Seg::Key("pages"@)),
                        suffix,
                    );
                    assert(suffix[0] == Seg::Index(p));
                    assert(suffix.drop_first() =~= seq![Seg::Key("list"@)]);
                    assert(seq![Seg::Key("list"@)][0] == Seg::Key("list"@));
                    assert(seq![Seg::Key("list"@)].drop_first() =~= Seq::<Seg>::empty());
                    assert(crate::translation_path::spec_get(l, Seq::<Seg>::empty()) == Some(l));
                    assert(crate::translation_path::spec_get(pages[p], seq![Seg::Key("list"@)])
                        == Some(l));
                    assert(crate::translation_path::spec_get(
                        crate::json::Json::Arr(pages),
                        suffix,
                    ) == Some(l));
                    let lpath = path.push(Seg::Key("pages"@)).push(Seg::Index(p)).push(
                        Seg::Key("list"@),
                    );
                    assert(lpath =~= path.push(Seg::Key("pages"@)) + suffix);
                    assert(crate::translation_path::spec_get(root, lpath) == Some(l));
                    assert(spec_page_list_parses(pages[p]));
                    lemma_walk_paths_resolve(root, lpath, l, 0, user, predefined, options);
                },
                None => {},
            }
        },
        _ => {},
    }
}

/// The pairs a `pages` array yields from page `p` on: each non-null page
/// with a `list` field is walked under `<path>.pages.<p>`.
/// The path of each unit a `pages` array yields from page `p` on,
/// aligned index-for-index with its pairs.
pub open spec fn spec_pages_paths(
    pages: Seq<crate::json::Json>,
    p: int,
    path: Seq<Seg>,
    user: Seq<ConfigModel>,
    predefined: Seq<ConfigModel>,
    options: &ExtractionOptions,
) -> Seq<Seq<Seg>>
    decreases pages.len() - p,
{
    if p < 0 || p >= pages.len() {
        Seq::empty()
    } else {
        let head = match pages[p] {
            crate::json::Json::Obj(fields) => match crate::json::spec_obj_get(fields, "list"@) {
                Some(l) => spec_walk_paths(
                    spec_parse_commands(l),
                    0,
                    path.push(Seg::Key("pages"@)).push(Seg::Index(p)).push(Seg::Key("list"@)),
                    user,
                    predefined,
                    options,
                ),
                None => Seq::empty(),
            },
            _ => Seq::empty(),
        };
        head + spec_pages_paths(pages, p + 1, path, user, predefined, options)
    }
}

/// The speaker of each unit a `pages` array yields from page `p` on,
/// aligned index-for-index with its pairs: every page starts its walk
/// with no speaker.
pub open spec fn spec_pages_speakers(
    pages: Seq<crate::json::Json>,
    p: int,
    path: Seq<Seg>,
    user: Seq<ConfigModel>,
    predefined: Seq<ConfigModel>,
    options: &ExtractionOptions,
) -> Seq<Option<Seq<char>>>
    decreases pages.len() - p,
{
    if p < 0 || p >= pages.len() {
        Seq::empty()
    } else {
        let head = match pages[p] {
            crate::json::Json::Obj(fields) => match crate::json::spec_obj_get(fields, "list"@) {
                Some(l) => spec_walk_unit_speakers(
                    spec_parse_commands(l),
                    0,
                    path.push(Seg::Key("pages"@)).push(Seg::Index(p)).push(Seg::Key("list"@)),
                    Option::<Seq<char>>::None,
                    user,
                    predefined,
                    options,
                ),
                None => Seq::empty(),
            },
            _ => Seq::empty(),
        };
        head + spec_pages_speakers(pages, p + 1, path, user, predefined, options)
    }
}

pub open spec fn spec_pages_pairs(
    pages: Seq<crate::json::Json>,
    p: int,
    path: Seq<Seg>,
    user: Seq<ConfigModel>,
    predefined: Seq<ConfigModel>,
    options: &ExtractionOptions,
) -> Seq<(Seq<char>, Seq<char>)>
    decreases pages.len() - p,
{
    if p < 0 || p >= pages.len() {
        Seq::empty()
    } else {
        let head = match pages[p] {
            crate::json::Json::Obj(fields) => match crate::json::spec_obj_get(fields, "list"@) {
                Some(l) => spec_walk_pairs(
                    spec_parse_commands(l),
                    0,
                    path.push(Seg::Key("pages"@)).push(Seg::Index(p)).push(Seg::Key("list"@)),
                    user,
                    predefined,
                    options,
                ),
                None => Seq::empty(),
            },
            _ => Seq::empty(),
        };
        head + spec_pages_pairs(pages, p + 1, path, user, predefined, options)
    }
}

/// The command list after the handler for position `i` of the current
/// list has injected, with the applied and commands-modified counts it
/// reports.  Unhandled opcodes and positions past the end change nothing.
pub open spec fn spec_apply_at(
    cmds: Seq<CmdModel>,
    i: int,
    path: Seq<Seg>,
    user: Seq<ConfigModel>,
    predefined: Seq<ConfigModel>,
    tmap: Seq<(Seq<char>, Seq<char>)>,
    iopts: &InjectionOptions,
) -> (Seq<CmdModel>, int, int) {
    if i < 0 || i >= cmds.len() {
        (cmds, 0int, 0int)
    } else {
        let c = cmds[i];
        if c.code == 401 {
            match spec_assoc_get(tmap, spec_position_unit_id(path, i, "dialogue"@)) {
                None => (cmds, 0int, 0int),
                Some(t) => {
                    let n = spec_run_len(cmds, i, c.indent);
                    let lines = iopts.spec_split_text(t);
                    let newcmds = Seq::new(
                        lines.len(),
                        |j: int|
                            CmdModel { code: 401, indent: c.indent, params: seq![Json::Str(lines[j])] },
                    );
                    (cmds.subrange(0, i) + newcmds + cmds.skip(i + n), 1int, n as int)
                },
            }
        } else if c.code == 102 {
            if c.params.len() >= 1 && c.params[0] is Arr {
                let elems = c.params[0]->Arr_0;
                let cnt = spec_choices_applied(elems, tmap, path, i, elems.len() as int);
                if cnt > 0 {
                    (
                        cmds.update(
                            i,
                            CmdModel {
                                code: c.code,
                                indent: c.indent,
                                params: c.params.update(
                                    0,
                                    Json::Arr(spec_choices_new_elems(elems, tmap, path, i)),
                                ),
                            },
                        ),
                        cnt,
                        1int,
                    )
                } else {
                    (cmds, 0int, 0int)
                }
            } else {
                (cmds, 0int, 0int)
            }
        } else if c.code == 402 {
            match spec_assoc_get(tmap, spec_position_unit_id(path, i, "choice_branch"@)) {
                Some(t) => if c.params.len() >= 2 {
                    (
                        cmds.update(
                            i,
                            CmdModel {
                                code: c.code,
                                indent: c.indent,
                                params: c.params.update(1, Json::Str(t)),
                            },
                        ),
                        1int,
                        1int,
                    )
                } else {
                    (cmds, 0int, 0int)
                },
                None => (cmds, 0int, 0int),
            }
        } else if c.code == 408 {
            match spec_assoc_get(tmap, spec_position_unit_id(path, i, "comment"@)) {
                Some(t) => if c.params.len() >= 1 {
                    (
                        cmds.update(
                            i,
                            CmdModel {
                                code: c.code,
                                indent: c.indent,
                                params: c.params.update(0, Json::Str(t)),
                            },
                        ),
                        1int,
                        1int,
                    )
                } else {
                    (cmds, 0int, 0int)
                },
                None => (cmds, 0int, 0int),
            }
        } else if c.code == 357 {
            if spec_has_plugin_data(c) && (match spec_config_for(
                user,
                predefined,
                c.params[0]->Str_0,
            ) {
                Some(cfg) => cfg.enabled,
                None => false,
            }) {
                let cfg = spec_config_for(user, predefined, c.params[0]->Str_0).unwrap();
                let rs = spec_plugin_replacements(
                    cfg.fields,
                    c.params[3],
                    tmap,
                    path,
                    i,
                    c.params[0]->Str_0,
                );
                let outcome = spec_apply_replacements(c.params[3], rs);
                if outcome.1 > 0 {
                    (
                        cmds.update(
                            i,
                            CmdModel {
                                code: c.code,
                                indent: c.indent,
                                params: c.params.update(3, outcome.0),
                            },
                        ),
                        outcome.1,
                        1int,
                    )
                } else {
                    (cmds, 0int, 0int)
                }
            } else {
                (cmds, 0int, 0int)
            }
        } else {
            (cmds, 0int, 0int)
        }
    }
}

/// The command list after injecting at positions `i` down to zero, one
/// after the other, with the summed counts.
/// Whether injecting at position `i` records a missing translation: a
/// dialogue run whose id has no translation counts one miss, unless
/// misses are skipped; every other position counts none.
pub open spec fn spec_miss_at(
    cmds: Seq<CmdModel>,
    i: int,
    path: Seq<Seg>,
    tmap: Seq<(Seq<char>, Seq<char>)>,
    iopts: &InjectionOptions,
) -> int {
    if 0 <= i < cmds.len() && cmds[i].code == 401 && spec_assoc_get(
        tmap,
        spec_position_unit_id(path, i, "dialogue"@),
    ) is None && !iopts.skip_missing_translations {
        1int
    } else {
        0int
    }
}

/// The missing-translation count of injecting positions `i` down to 0,
/// over the same list evolution as the injection itself.
pub open spec fn spec_inject_down_misses(
    cmds: Seq<CmdModel>,
    i: int,
    path: Seq<Seg>,
    user: Seq<ConfigModel>,
    predefined: Seq<ConfigModel>,
    tmap: Seq<(Seq<char>, Seq<char>)>,
    iopts: &InjectionOptions,
) -> int
    decreases i + 1,
{
    if i < 0 {
        0int
    } else {
        let step = spec_apply_at(cmds, i, path, user, predefined, tmap, iopts);
        spec_miss_at(cmds, i, path, tmap, iopts) + spec_inject_down_misses(
            step.0,
            i - 1,
            path,
            user,
            predefined,
            tmap,
            iopts,
        )
    }
}

pub open spec fn spec_inject_down(
    cmds: Seq<CmdModel>,
    i: int,
    path: Seq<Seg>,
    user: Seq<ConfigModel>,
    predefined: Seq<ConfigModel>,
    tmap: Seq<(Seq<char>, Seq<char>)>,
    iopts: &InjectionOptions,
) -> (Seq<CmdModel>, int, int)
    decreases i + 1,
{
    if i < 0 {
        (cmds, 0int, 0int)
    } else {
        let step = spec_apply_at(cmds, i, path, user, predefined, tmap, iopts);
        let rest = spec_inject_down(step.0, i - 1, path, user, predefined, tmap, iopts);
        (rest.0, step.1 + rest.1, step.2 + rest.2)
    }
}

/// A step that modifies nothing leaves the list as it was.
proof fn lemma_apply_at_unmodified(
    cmds: Seq<CmdModel>,
    i: int,
    path: Seq<Seg>,
    user: Seq<ConfigModel>,
    predefined: Seq<ConfigModel>,
    tmap: Seq<(Seq<char>, Seq<char>)>,
    iopts: &InjectionOptions,
)
    ensures
        ({
            let step = spec_apply_at(cmds, i, path, user, predefined, tmap, iopts);
            &&& step.1 >= 0
            &&& step.2 >= 0
            &&& step.2 == 0 ==> step.0 == cmds && step.1 == 0
            &&& tmap.len() == 0 ==> step.0 == cmds && step.1 == 0 && step.2 == 0
        }),
{
    broadcast use crate::tmap::lemma_empty_map_get;

    if 0 <= i < cmds.len() {
        let c = cmds[i];
        if c.code == 102 && c.params.len() >= 1 && c.params[0] is Arr {
            let elems = c.params[0]->Arr_0;
            crate::handlers::choices::lemma_choices_applied_nonneg(
                elems,
                tmap,
                path,
                i,
                elems.len() as int,
            );
            if tmap.len() == 0 {
                crate::handlers::choices::lemma_choices_applied_empty(
                    elems,
                    tmap,
                    path,
                    i,
                    elems.len() as int,
                );
            }
        }
        if c.code == 357 && spec_has_plugin_data(c) {
            match spec_config_for(user, predefined, c.params[0]->Str_0) {
                Some(cfg) => {
                    let rs = spec_plugin_replacements(
                        cfg.fields,
                        c.params[3],
                        tmap,
                        path,
                        i,
                        c.params[0]->Str_0,
                    );
                    crate::handlers::plugin::lemma_apply_replacements_nonneg(c.params[3], rs);
                    if tmap.len() == 0 {
                        crate::handlers::plugin::lemma_plugin_replacements_empty(
                            cfg.fields,
                            c.params[3],
                            tmap,
                            path,
                            i,
                            c.params[0]->Str_0,
                        );
                    }
                },
                None => {},
            }
        }
    }
}

/// Injection that modifies nothing, or runs with an empty map, leaves the
/// list as it was.
proof fn lemma_inject_down_frame(
    cmds: Seq<CmdModel>,
    i: int,
    path: Seq<Seg>,
    user: Seq<ConfigModel>,
    predefined: Seq<ConfigModel>,
    tmap: Seq<(Seq<char>, Seq<char>)>,
    iopts: &InjectionOptions,
)
    ensures
        ({
            let down = spec_inject_down(cmds, i, path, user, predefined, tmap, iopts);
            &&& down.1 >= 0
            &&& down.2 >= 0
            &&& down.2 == 0 ==> down.0 == cmds && down.1 == 0
            &&& tmap.len() == 0 ==> down.0 == cmds && down.1 == 0 && down.2 == 0
        }),
    decreases i + 1,
{
    if i >= 0 {
        let step = spec_apply_at(cmds, i, path, user, predefined, tmap, iopts);
        lemma_apply_at_unmodified(cmds, i, path, user, predefined, tmap, iopts);
        lemma_inject_down_frame(step.0, i - 1, path, user, predefined, tmap, iopts);
    }
}

/// One page after injection: a page object whose `list` field holds a
/// command array is re-serialised from the injected commands when
/// anything was modified; every other page is unchanged.
pub open spec fn spec_page_after(
    pg: Json,
    base: Seq<Seg>,
    user: Seq<ConfigModel>,
    predefined: Seq<ConfigModel>,
    tmap: Seq<(Seq<char>, Seq<char>)>,
    iopts: &InjectionOptions,
) -> Json {
    match pg {
        Json::Obj(fields) => match crate::json::spec_obj_get(fields, "list"@) {
            Some(l) => {
                let models = spec_parse_commands(l);
                let down = spec_inject_down(
                    models,
                    models.len() - 1,
                    base.push(Seg::Key("list"@)),
                    user,
                    predefined,
                    tmap,
                    iopts,
                );
                if down.2 > 0 {
                    Json::Obj(
                        crate::translation_path::spec_obj_set(
                            fields,
                            "list"@,
                            spec_commands_to_json(down.0),
                        ),
                    )
                } else {
                    pg
                }
            },
            None => pg,
        },
        _ => pg,
    }
}

/// The applied count one page contributes.
pub open spec fn spec_page_applied(
    pg: Json,
    base: Seq<Seg>,
    user: Seq<ConfigModel>,
    predefined: Seq<ConfigModel>,
    tmap: Seq<(Seq<char>, Seq<char>)>,
    iopts: &InjectionOptions,
) -> int {
    match pg {
        Json::Obj(fields) => match crate::json::spec_obj_get(fields, "list"@) {
            Some(l) => {
                let models = spec_parse_commands(l);
                spec_inject_down(
                    models,
                    models.len() - 1,
                    base.push(Seg::Key("list"@)),
                    user,
                    predefined,
                    tmap,
                    iopts,
                ).1
            },
            None => 0,
        },
        _ => 0,
    }
}

/// The summed applied count of the first `p` pages of a `pages` array,
/// each under `<path>.pages.<index>`.
pub open spec fn spec_pages_applied(
    pages: Seq<Json>,
    p: int,
    path: Seq<Seg>,
    user: Seq<ConfigModel>,
    predefined: Seq<ConfigModel>,
    tmap: Seq<(Seq<char>, Seq<char>)>,
    iopts: &InjectionOptions,
) -> int
    decreases p,
{
    if p <= 0 {
        0
    } else {
        spec_pages_applied(pages, p - 1, path, user, predefined, tmap, iopts) + spec_page_applied(
            pages[p - 1],
            path.push(Seg::Key("pages"@)).push(Seg::Index(p - 1)),
            user,
            predefined,
            tmap,
            iopts,
        )
    }
}

/// Injection that modifies nothing, or runs with an empty map, leaves the
/// list as it was (public form).
pub proof fn lemma_inject_down_frame_pub(
    cmds: Seq<CmdModel>,
    i: int,
    path: Seq<Seg>,
    user: Seq<ConfigModel>,
    predefined: Seq<ConfigModel>,
    tmap: Seq<(Seq<char>, Seq<char>)>,
    iopts: &InjectionOptions,
)
    ensures
        ({
            let down = spec_inject_down(cmds, i, path, user, predefined, tmap, iopts);
            &&& down.1 >= 0
            &&& down.2 >= 0
            &&& down.2 == 0 ==> down.0 == cmds && down.1 == 0
            &&& tmap.len() == 0 ==> down.0 == cmds && down.1 == 0 && down.2 == 0
        }),
{
    lemma_inject_down_frame(cmds, i, path, user, predefined, tmap, iopts);
}

/// Parser for one event page's command list.
#[derive(Debug)]
pub struct EventPageParser {
    /// The handler registry used for dispatch.
    pub handlers: HandlerRegistry,
}

impl EventPageParser {
    /// A parser with the default handlers.
    pub fn new() -> (r: Self)
        ensures
            r.handlers.plugin.user_models().len() == 0,
            r.handlers.plugin.predefined_models()
                == crate::handlers::plugin::spec_default_configs(),
    {
        EventPageParser { handlers: HandlerRegistry::with_defaults() }
    }

    /// A parser with a custom registry.
    pub fn with_handlers(handlers: HandlerRegistry) -> (r: Self)
        ensures
            r.handlers == handlers,
    {
        EventPageParser { handlers }
    }

    /// Extract translation units from parsed commands.  The returned
    /// units' ids and originals are exactly the walk's pairs for the
    /// sub-path `<path_prefix>.list`, which depend only on the commands,
    /// the options and the plugin configurations: re-running the same
    /// extraction yields the same unit ids in the same order.
    #[verifier::loop_isolation(false)]
    #[verifier::rlimit(100)]
    pub fn extract_from_commands(
        &self,
        commands: &Vec<EventCommand>,
        path_prefix: &TranslationPath,
        context: &mut ExtractionContext,
        options: &ExtractionOptions,
    ) -> (r: Vec<TranslationUnit>)
        ensures
            r@.map_values(|u: TranslationUnit| (u.id@, u.original@)) == spec_walk_pairs(
                commands@.map_values(|c: EventCommand| c@),
                0,
                path_prefix@.push(Seg::Key("list"@)),
                self.handlers.plugin.user_models(),
                self.handlers.plugin.predefined_models(),
                options,
            ),
            forall|k: int|
                0 <= k < r@.len() ==> (#[trigger] r@[k]).path@.len() >= path_prefix@.len() + 2
                    && r@[k].path@.take(path_prefix@.len() + 1 as int) == path_prefix@.push(
                    Seg::Key("list"@),
                ),
            forall|k: int|
                0 <= k < r@.len() ==> (#[trigger] r@[k]).context.map_name == old(context).map_name
                    && r@[k].context.page_index == Some(old(context).page_index) && (
                r@[k].context.file_name matches Some(f) && f@ == old(context).file_name@),
            r@.map_values(|u: TranslationUnit| u.path@) == spec_walk_paths(
                commands@.map_values(|c: EventCommand| c@),
                0,
                path_prefix@.push(Seg::Key("list"@)),
                self.handlers.plugin.user_models(),
                self.handlers.plugin.predefined_models(),
                options,
            ),
            r@.map_values(|u: TranslationUnit| spec_speaker_view(u.speaker))
                == spec_walk_unit_speakers(
                commands@.map_values(|c: EventCommand| c@),
                0,
                path_prefix@.push(Seg::Key("list"@)),
                spec_speaker_view(old(context).current_speaker),
                self.handlers.plugin.user_models(),
                self.handlers.plugin.predefined_models(),
                options,
            ),
            spec_speaker_view(final(context).current_speaker) == spec_walk_speaker(
                commands@.map_values(|c: EventCommand| c@),
                0,
                spec_speaker_view(old(context).current_speaker),
            ),
    {
        let ghost models = commands@.map_values(|c: EventCommand| c@);
        let ghost um = self.handlers.plugin.user_models();
        let ghost pm = self.handlers.plugin.predefined_models();
        let list_path = path_prefix.append_key("list");
        let ghost lp = path_prefix@.push(Seg::Key("list"@));
        let ghost total = spec_walk_pairs(models, 0, lp, um, pm, options);
        let ghost ptotal = spec_walk_paths(models, 0, lp, um, pm, options);
        let ghost stotal = spec_walk_unit_speakers(
            models,
            0,
            lp,
            spec_speaker_view(old(context).current_speaker),
            um,
            pm,
            options,
        );
        let mut units: Vec<TranslationUnit> = Vec::new();
        let mut index: usize = 0;
        let n = commands.len();
        proof {
            assert(units@.map_values(|u: TranslationUnit| (u.id@, u.original@)) =~= Seq::<
                (Seq<char>, Seq<char>),
            >::empty());
            assert(units@.map_values(|u: TranslationUnit| u.path@) =~= Seq::<Seq<Seg>>::empty());
            assert(units@.map_values(|u: TranslationUnit| spec_speaker_view(u.speaker)) =~= Seq::<
                Option<Seq<char>>,
            >::empty());
            assert(Seq::<Seq<Seg>>::empty() + ptotal =~= ptotal);
            assert(Seq::<Option<Seq<char>>>::empty() + stotal =~= stotal);
        }
        while index < n
            invariant
                index <= n,
                n == commands@.len(),
                models == commands@.map_values(|c: EventCommand| c@),
                list_path@ == lp,
                units@.map_values(|u: TranslationUnit| (u.id@, u.original@)) + spec_walk_pairs(
                    models,
                    index as int,
                    lp,
                    um,
                    pm,
                    options,
                ) == total,
                units@.map_values(|u: TranslationUnit| u.path@) + spec_walk_paths(
                    models,
                    index as int,
                    lp,
                    um,
                    pm,
                    options,
                ) == ptotal,
                units@.map_values(|u: TranslationUnit| spec_speaker_view(u.speaker))
                    + spec_walk_unit_speakers(
                    models,
                    index as int,
                    lp,
                    spec_speaker_view(context.current_speaker),
                    um,
                    pm,
                    options,
                ) == stotal,
                forall|k: int|
                    0 <= k < units@.len() ==> (#[trigger] units@[k]).path@.len()
                        >= path_prefix@.len() + 2 && units@[k].path@.take(
                        path_prefix@.len() + 1 as int,
                    ) == lp,
                context.map_name == old(context).map_name,
                context.page_index == old(context).page_index,
                context.file_name == old(context).file_name,
                forall|k: int|
                    0 <= k < units@.len() ==> (#[trigger] units@[k]).context.map_name == old(
                        context,
                    ).map_name && units@[k].context.page_index == Some(old(context).page_index)
                        && (units@[k].context.file_name matches Some(f) && f@ == old(
                        context,
                    ).file_name@),
                spec_walk_speaker(models, index as int, spec_speaker_view(
                    context.current_speaker,
                )) == spec_walk_speaker(models, 0, spec_speaker_view(
                    old(context).current_speaker,
                )),
            decreases n - index,
        {
            let code = commands[index].code;
            let ghost done_before = units@.map_values(|u: TranslationUnit| (u.id@, u.original@));
            let ghost sp_before = spec_speaker_view(context.current_speaker);
            let ghost done_paths = units@.map_values(|u: TranslationUnit| u.path@);
            let ghost done_sp = units@.map_values(
                |u: TranslationUnit| spec_speaker_view(u.speaker),
            );
            let mut consumed: usize = 1;
            if code == 401 {
                let result = DialogueHandler::extract(
                    commands,
                    index,
                    &list_path,
                    context,
                    options,
                );
                proof {
                    assert(spec_run_len(models, index as int, models[index as int].indent) >= 1);
                    crate::handlers::dialogue::lemma_run_len_bound(
                        models,
                        index as int,
                        models[index as int].indent,
                    );
                }
                consumed = result.consumed;
                let mut new_units = result.units;
                let ghost added = new_units@.map_values(
                    |u: TranslationUnit| (u.id@, u.original@),
                );
                proof {
                    assert(added =~= spec_dialogue_pairs(models, index as int, lp, options));
                }
                let ghost padd = Seq::new(
                    spec_dialogue_pairs(models, index as int, lp, options).len(),
                    |k: int| lp.push(Seg::Index(index as int)),
                );
                let ghost sadd = Seq::new(
                    spec_dialogue_pairs(models, index as int, lp, options).len(),
                    |k: int| sp_before,
                );
                match &result.add_to_preceding {
                    Some(text) => {
                        context.add_preceding_line(text.as_str());
                    },
                    None => {},
                }
                proof {
                    assert(spec_speaker_view(context.current_speaker) == sp_before);
                    assert(spec_walk_speaker(models, index as int, sp_before)
                        == spec_walk_speaker(models, index as int + consumed as int, sp_before));
                }
                let ghost prev_units = units@;
                let ghost nu = new_units@;
                units.append(&mut new_units);
                proof {
                    assert(units@.map_values(|u: TranslationUnit| (u.id@, u.original@))
                        =~= done_before + added);
                    assert(units@.map_values(|u: TranslationUnit| u.path@) =~= done_paths + padd);
                    assert(units@.map_values(|u: TranslationUnit| spec_speaker_view(u.speaker))
                        =~= done_sp + sadd);
                    assert forall|k: int|
                        0 <= k < units@.len() implies (#[trigger] units@[k]).path@.len()
                        >= path_prefix@.len() + 2 && units@[k].path@.take(
                        path_prefix@.len() + 1 as int,
                    ) == lp by {
                        if k >= prev_units.len() {
                            assert(units@[k] == nu[k - prev_units.len()]);
                            assert(units@[k].path@.take(path_prefix@.len() + 1 as int) =~= lp);
                        } else {
                            assert(units@[k] == prev_units[k]);
                        }
                    };
                    assert forall|k: int|
                        0 <= k < units@.len() implies (#[trigger] units@[k]).context.map_name
                        == old(context).map_name && units@[k].context.page_index == Some(
                        old(context).page_index,
                    ) && (units@[k].context.file_name matches Some(f) && f@ == old(
                        context,
                    ).file_name@) by {
                        if k >= prev_units.len() {
                            assert(units@[k] == nu[k - prev_units.len()]);
                        } else {
                            assert(units@[k] == prev_units[k]);
                        }
                    };
                }
            } else if code == 101 {
                let result = ShowTextHandler::extract(
                    commands,
                    index,
                    &list_path,
                    context,
                    options,
                );
                consumed = result.consumed;
                match result.speaker_update {
                    Some(speaker) => {
                        context.set_speaker(speaker);
                    },
                    None => {},
                }
                proof {
                    assert(units@.map_values(|u: TranslationUnit| (u.id@, u.original@))
                        =~= done_before);
                    assert(units@.map_values(|u: TranslationUnit| u.path@) =~= done_paths);
                    assert(units@.map_values(|u: TranslationUnit| spec_speaker_view(u.speaker))
                        =~= done_sp);
                    assert(spec_walk_speaker(models, index as int, sp_before)
                        == spec_walk_speaker(
                        models,
                        index as int + 1,
                        spec_speaker_view(context.current_speaker),
                    ));
                    assert(spec_walk_paths(models, index as int, lp, um, pm, options)
                        == spec_walk_paths(models, index as int + 1, lp, um, pm, options));
                    assert(spec_walk_unit_speakers(models, index as int, lp, sp_before, um, pm, options)
                        == spec_walk_unit_speakers(
                        models,
                        index as int + 1,
                        lp,
                        spec_speaker_view(context.current_speaker),
                        um,
                        pm,
                        options,
                    ));
                }
            } else if code == 102 {
                let result = ChoicesHandler::extract(commands, index, &list_path, context, options);
                consumed = result.consumed;
                let mut new_units = result.units;
                let ghost added = new_units@.map_values(
                    |u: TranslationUnit| (u.id@, u.original@),
                );
                proof {
                    assert(added =~= spec_choices_cmd_pairs(
                        models[index as int],
                        lp,
                        index as int,
                        options,
                    ));
                }
                let ghost padd = spec_choices_cmd_paths(
                    models[index as int],
                    lp,
                    index as int,
                    options,
                );
                let ghost sadd = Seq::new(
                    spec_choices_cmd_pairs(models[index as int], lp, index as int, options).len(),
                    |k: int| sp_before,
                );
                let ghost prev_units = units@;
                let ghost nu = new_units@;
                units.append(&mut new_units);
                proof {
                    assert(units@.map_values(|u: TranslationUnit| (u.id@, u.original@))
                        =~= done_before + added);
                    assert(units@.map_values(|u: TranslationUnit| u.path@) =~= done_paths + padd);
                    assert(units@.map_values(|u: TranslationUnit| spec_speaker_view(u.speaker))
                        =~= done_sp + sadd);
                    assert forall|k: int|
                        0 <= k < units@.len() implies (#[trigger] units@[k]).path@.len()
                        >= path_prefix@.len() + 2 && units@[k].path@.take(
                        path_prefix@.len() + 1 as int,
                    ) == lp by {
                        if k >= prev_units.len() {
                            assert(units@[k] == nu[k - prev_units.len()]);
                            assert(units@[k].path@.take(path_prefix@.len() + 1 as int) =~= lp);
                        } else {
                            assert(units@[k] == prev_units[k]);
                        }
                    };
                    assert forall|k: int|
                        0 <= k < units@.len() implies (#[trigger] units@[k]).context.map_name
                        == old(context).map_name && units@[k].context.page_index == Some(
                        old(context).page_index,
                    ) && (units@[k].context.file_name matches Some(f) && f@ == old(
                        context,
                    ).file_name@) by {
                        if k >= prev_units.len() {
                            assert(units@[k] == nu[k - prev_units.len()]);
                        } else {
                            assert(units@[k] == prev_units[k]);
                        }
                    };
                }
            } else if code == 402 {
                let result = ChoiceBranchHandler::extract(
                    commands,
                    index,
                    &list_path,
                    context,
                    options,
                );
                consumed = result.consumed;
                let mut new_units = result.units;
                let ghost added = new_units@.map_values(
                    |u: TranslationUnit| (u.id@, u.original@),
                );
                proof {
                    assert(added =~= spec_branch_pairs(
                        models[index as int],
                        lp,
                        index as int,
                        options,
                    ));
                }
                let ghost padd = Seq::new(
                    spec_branch_pairs(models[index as int], lp, index as int, options).len(),
                    |k: int| lp.push(Seg::Index(index as int)),
                );
                let ghost sadd = Seq::new(
                    spec_branch_pairs(models[index as int], lp, index as int, options).len(),
                    |k: int| sp_before,
                );
                let ghost prev_units = units@;
                let ghost nu = new_units@;
                units.append(&mut new_units);
                proof {
                    assert(units@.map_values(|u: TranslationUnit| (u.id@, u.original@))
                        =~= done_before + added);
                    assert(units@.map_values(|u: TranslationUnit| u.path@) =~= done_paths + padd);
                    assert(units@.map_values(|u: TranslationUnit| spec_speaker_view(u.speaker))
                        =~= done_sp + sadd);
                    assert forall|k: int|
                        0 <= k < units@.len() implies (#[trigger] units@[k]).path@.len()
                        >= path_prefix@.len() + 2 && units@[k].path@.take(
                        path_prefix@.len() + 1 as int,
                    ) == lp by {
                        if k >= prev_units.len() {
                            assert(units@[k] == nu[k - prev_units.len()]);
                            assert(units@[k].path@.take(path_prefix@.len() + 1 as int) =~= lp);
                        } else {
                            assert(units@[k] == prev_units[k]);
                        }
                    };
                    assert forall|k: int|
                        0 <= k < units@.len() implies (#[trigger] units@[k]).context.map_name
                        == old(context).map_name && units@[k].context.page_index == Some(
                        old(context).page_index,
                    ) && (units@[k].context.file_name matches Some(f) && f@ == old(
                        context,
                    ).file_name@) by {
                        if k >= prev_units.len() {
                            assert(units@[k] == nu[k - prev_units.len()]);
                        } else {
                            assert(units@[k] == prev_units[k]);
                        }
                    };
                }
            } else if code == 408 {
                let result = CommentHandler::extract(commands, index, &list_path, context, options);
                consumed = result.consumed;
                let mut new_units = result.units;
                let ghost added = new_units@.map_values(
                    |u: TranslationUnit| (u.id@, u.original@),
                );
                proof {
                    assert(added =~= spec_comment_pairs(
                        models[index as int],
                        lp,
                        index as int,
                        options,
                    ));
                }
                let ghost padd = Seq::new(
                    spec_comment_pairs(models[index as int], lp, index as int, options).len(),
                    |k: int| lp.push(Seg::Index(index as int)),
                );
                let ghost sadd = Seq::new(
                    spec_comment_pairs(models[index as int], lp, index as int, options).len(),
                    |k: int| Option::<Seq<char>>::None,
                );
                let ghost prev_units = units@;
                let ghost nu = new_units@;
                units.append(&mut new_units);
                proof {
                    assert(units@.map_values(|u: TranslationUnit| (u.id@, u.original@))
                        =~= done_before + added);
                    assert(units@.map_values(|u: TranslationUnit| u.path@) =~= done_paths + padd);
                    assert(units@.map_values(|u: TranslationUnit| spec_speaker_view(u.speaker))
                        =~= done_sp + sadd);
                    assert forall|k: int|
                        0 <= k < units@.len() implies (#[trigger] units@[k]).path@.len()
                        >= path_prefix@.len() + 2 && units@[k].path@.take(
                        path_prefix@.len() + 1 as int,
                    ) == lp by {
                        if k >= prev_units.len() {
                            assert(units@[k] == nu[k - prev_units.len()]);
                            assert(units@[k].path@.take(path_prefix@.len() + 1 as int) =~= lp);
                        } else {
                            assert(units@[k] == prev_units[k]);
                        }
                    };
                    assert forall|k: int|
                        0 <= k < units@.len() implies (#[trigger] units@[k]).context.map_name
                        == old(context).map_name && units@[k].context.page_index == Some(
                        old(context).page_index,
                    ) && (units@[k].context.file_name matches Some(f) && f@ == old(
                        context,
                    ).file_name@) by {
                        if k >= prev_units.len() {
                            assert(units@[k] == nu[k - prev_units.len()]);
                        } else {
                            assert(units@[k] == prev_units[k]);
                        }
                    };
                }
            } else if code == 357 {
                let result = self.handlers.plugin.extract(
                    commands,
                    index,
                    &list_path,
                    context,
                    options,
                );
                consumed = result.consumed;
                let mut new_units = result.units;
                let ghost added = new_units@.map_values(
                    |u: TranslationUnit| (u.id@, u.original@),
                );
                proof {
                    assert(added =~= spec_plugin_pairs(
                        um,
                        pm,
                        models[index as int],
                        lp,
                        index as int,
                        options,
                    ));
                }
                let ghost padd = Seq::new(
                    spec_plugin_pairs(um, pm, models[index as int], lp, index as int, options).len(),
                    |k: int|
                        lp.push(Seg::Index(index as int)).push(Seg::Key("parameters"@)).push(
                            Seg::Index(3),
                        ),
                );
                let ghost sadd = Seq::new(
                    spec_plugin_pairs(um, pm, models[index as int], lp, index as int, options).len(),
                    |k: int| Option::<Seq<char>>::None,
                );
                let ghost prev_units = units@;
                let ghost nu = new_units@;
                units.append(&mut new_units);
                proof {
                    assert(units@.map_values(|u: TranslationUnit| (u.id@, u.original@))
                        =~= done_before + added);
                    assert(units@.map_values(|u: TranslationUnit| u.path@) =~= done_paths + padd);
                    assert(units@.map_values(|u: TranslationUnit| spec_speaker_view(u.speaker))
                        =~= done_sp + sadd);
                    assert forall|k: int|
                        0 <= k < units@.len() implies (#[trigger] units@[k]).path@.len()
                        >= path_prefix@.len() + 2 && units@[k].path@.take(
                        path_prefix@.len() + 1 as int,
                    ) == lp by {
                        if k >= prev_units.len() {
                            assert(units@[k] == nu[k - prev_units.len()]);
                            assert(units@[k].path@.take(path_prefix@.len() + 1 as int) =~= lp);
                        } else {
                            assert(units@[k] == prev_units[k]);
                        }
                    };
                    assert forall|k: int|
                        0 <= k < units@.len() implies (#[trigger] units@[k]).context.map_name
                        == old(context).map_name && units@[k].context.page_index == Some(
                        old(context).page_index,
                    ) && (units@[k].context.file_name matches Some(f) && f@ == old(
                        context,
                    ).file_name@) by {
                        if k >= prev_units.len() {
                            assert(units@[k] == nu[k - prev_units.len()]);
                        } else {
                            assert(units@[k] == prev_units[k]);
                        }
                    };
                }
            } else {
                proof {
                    assert(units@.map_values(|u: TranslationUnit| (u.id@, u.original@))
                        =~= done_before);
                    assert(units@.map_values(|u: TranslationUnit| u.path@) =~= done_paths);
                    assert(units@.map_values(|u: TranslationUnit| spec_speaker_view(u.speaker))
                        =~= done_sp);
                }
            }
            proof {
                assert(consumed >= 1);
                assert(index + consumed <= n);
                assert(spec_walk_speaker(models, index as int, sp_before) == spec_walk_speaker(
                    models,
                    index as int + consumed,
                    spec_speaker_view(context.current_speaker),
                ));
                let done_now = units@.map_values(|u: TranslationUnit| (u.id@, u.original@));
                assert(done_now + spec_walk_pairs(
                    models,
                    index as int + consumed,
                    lp,
                    um,
                    pm,
                    options,
                ) =~= done_before + spec_walk_pairs(models, index as int, lp, um, pm, options));
                assert(units@.map_values(|u: TranslationUnit| u.path@) + spec_walk_paths(
                    models,
                    index as int + consumed,
                    lp,
                    um,
                    pm,
                    options,
                ) =~= done_paths + spec_walk_paths(models, index as int, lp, um, pm, options));
                assert(units@.map_values(|u: TranslationUnit| spec_speaker_view(u.speaker))
                    + spec_walk_unit_speakers(
                    models,
                    index as int + consumed,
                    lp,
                    spec_speaker_view(context.current_speaker),
                    um,
                    pm,
                    options,
                ) =~= done_sp + spec_walk_unit_speakers(
                    models,
                    index as int,
                    lp,
                    sp_before,
                    um,
                    pm,
                    options,
                ));
            }
            index = index + consumed;
        }
        proof {
            assert(spec_walk_pairs(models, n as int, lp, um, pm, options) =~= Seq::<
                (Seq<char>, Seq<char>),
            >::empty());
            let done = units@.map_values(|u: TranslationUnit| (u.id@, u.original@));
            assert(done + Seq::<(Seq<char>, Seq<char>)>::empty() =~= done);
            assert(spec_walk_paths(models, n as int, lp, um, pm, options) =~= Seq::<
                Seq<Seg>,
            >::empty());
            let dpaths = units@.map_values(|u: TranslationUnit| u.path@);
            assert(dpaths + Seq::<Seq<Seg>>::empty() =~= dpaths);
            assert(spec_walk_unit_speakers(
                models,
                n as int,
                lp,
                spec_speaker_view(context.current_speaker),
                um,
                pm,
                options,
            ) =~= Seq::<Option<Seq<char>>>::empty());
            let dsp = units@.map_values(|u: TranslationUnit| spec_speaker_view(u.speaker));
            assert(dsp + Seq::<Option<Seq<char>>>::empty() =~= dsp);
        }
        units
    }

    /// Extract translation units from a JSON command list.
    pub fn extract_from_list(
        &self,
        list: &JsonValue,
        path_prefix: &TranslationPath,
        context: &mut ExtractionContext,
        options: &ExtractionOptions,
    ) -> (r: Vec<TranslationUnit>)
        ensures
            r@.map_values(|u: TranslationUnit| (u.id@, u.original@)) == spec_walk_pairs(
                spec_parse_commands(list@),
                0,
                path_prefix@.push(Seg::Key("list"@)),
                self.handlers.plugin.user_models(),
                self.handlers.plugin.predefined_models(),
                options,
            ),
            forall|k: int|
                0 <= k < r@.len() ==> (#[trigger] r@[k]).path@.len() >= path_prefix@.len() + 2
                    && r@[k].path@.take(path_prefix@.len() + 1 as int) == path_prefix@.push(
                    Seg::Key("list"@),
                ),
            forall|k: int|
                0 <= k < r@.len() ==> (#[trigger] r@[k]).context.map_name == old(context).map_name
                    && r@[k].context.page_index == Some(old(context).page_index) && (
                r@[k].context.file_name matches Some(f) && f@ == old(context).file_name@),
            r@.map_values(|u: TranslationUnit| u.path@) == spec_walk_paths(
                spec_parse_commands(list@),
                0,
                path_prefix@.push(Seg::Key("list"@)),
                self.handlers.plugin.user_models(),
                self.handlers.plugin.predefined_models(),
                options,
            ),
            r@.map_values(|u: TranslationUnit| spec_speaker_view(u.speaker))
                == spec_walk_unit_speakers(
                spec_parse_commands(list@),
                0,
                path_prefix@.push(Seg::Key("list"@)),
                spec_speaker_view(old(context).current_speaker),
                self.handlers.plugin.user_models(),
                self.handlers.plugin.predefined_models(),
                options,
            ),
            spec_speaker_view(final(context).current_speaker) == spec_walk_speaker(
                spec_parse_commands(list@),
                0,
                spec_speaker_view(old(context).current_speaker),
            ),
    {
        let commands = parse_commands(list);
        self.extract_from_commands(&commands, path_prefix, context, options)
    }

    /// Inject translations into parsed commands, dispatching the handler
    /// for each position in turn.  Positions are processed from the back,
    /// so a dialogue splice never shifts a position still to be injected:
    /// every unit id keeps its extraction-time position.  The final list
    /// and the applied and modified counts equal the position-by-position
    /// injection specification; with an empty translation map the
    /// commands are unchanged, and whenever no command was modified, the
    /// commands are unchanged.
    #[verifier::loop_isolation(false)]
    #[verifier::rlimit(100)]
    pub fn inject_to_commands(
        &self,
        commands: &mut Vec<EventCommand>,
        translations: &TranslationMap,
        path_prefix: &TranslationPath,
        options: &InjectionOptions,
    ) -> (r: InjectionResult)
        ensures
            ({
                let models0 = old(commands)@.map_values(|c: EventCommand| c@);
                let down = spec_inject_down(
                    models0,
                    models0.len() - 1,
                    path_prefix@.push(Seg::Key("list"@)),
                    self.handlers.plugin.user_models(),
                    self.handlers.plugin.predefined_models(),
                    translations@,
                    options,
                );
                &&& final(commands)@.map_values(|c: EventCommand| c@) == down.0
                &&& r.applied as int == if down.1 <= usize::MAX as int {
                    down.1
                } else {
                    usize::MAX as int
                }
                &&& r.commands_modified as int == if down.2 <= usize::MAX as int {
                    down.2
                } else {
                    usize::MAX as int
                }
                &&& r.not_found as int == spec_inject_down_misses(
                    models0,
                    models0.len() - 1,
                    path_prefix@.push(Seg::Key("list"@)),
                    self.handlers.plugin.user_models(),
                    self.handlers.plugin.predefined_models(),
                    translations@,
                    options,
                )
                &&& r.warnings@.len() == spec_inject_down_misses(
                    models0,
                    models0.len() - 1,
                    path_prefix@.push(Seg::Key("list"@)),
                    self.handlers.plugin.user_models(),
                    self.handlers.plugin.predefined_models(),
                    translations@,
                    options,
                )
            }),
            translations@.len() == 0 ==> final(commands)@ == old(commands)@ && r.applied == 0
                && r.commands_modified == 0,
            r.commands_modified == 0 ==> final(commands)@ == old(commands)@,
    {
        broadcast use crate::tmap::lemma_empty_map_get;

        let list_path = path_prefix.append_key("list");
        let ghost lp = path_prefix@.push(Seg::Key("list"@));
        let ghost um = self.handlers.plugin.user_models();
        let ghost pm = self.handlers.plugin.predefined_models();
        let ghost tm = translations@;
        let ghost models0 = commands@.map_values(|c: EventCommand| c@);
        let ghost target = spec_inject_down(models0, models0.len() - 1, lp, um, pm, tm, options);
        let ghost tmisses = spec_inject_down_misses(
            models0,
            models0.len() - 1,
            lp,
            um,
            pm,
            tm,
            options,
        );
        let mut result = InjectionResult::new();
        let ghost mut applied_exact: int = 0;
        let ghost mut modified_exact: int = 0;
        let ghost mut misses_exact: int = 0;
        let n = commands.len();
        let mut pos: usize = n;
        while pos > 0
            invariant
                pos <= n,
                list_path@ == lp,
                ({
                    let rest = spec_inject_down(
                        commands@.map_values(|c: EventCommand| c@),
                        pos as int - 1,
                        lp,
                        um,
                        pm,
                        tm,
                        options,
                    );
                    &&& rest.0 == target.0
                    &&& applied_exact + rest.1 == target.1
                    &&& modified_exact + rest.2 == target.2
                }),
                misses_exact + spec_inject_down_misses(
                    commands@.map_values(|c: EventCommand| c@),
                    pos as int - 1,
                    lp,
                    um,
                    pm,
                    tm,
                    options,
                ) == tmisses,
                applied_exact >= 0,
                modified_exact >= 0,
                misses_exact >= 0,
                misses_exact <= n - pos,
                result.not_found as int == misses_exact,
                result.warnings@.len() == misses_exact,
                result.applied as int == if applied_exact <= usize::MAX as int {
                    applied_exact
                } else {
                    usize::MAX as int
                },
                result.commands_modified as int == if modified_exact <= usize::MAX as int {
                    modified_exact
                } else {
                    usize::MAX as int
                },
                tm.len() == 0 ==> commands@ == old(commands)@ && result.applied == 0
                    && result.commands_modified == 0,
                result.commands_modified == 0 ==> commands@ == old(commands)@,
            decreases pos,
        {
            let index = pos - 1;
            let ghost cur = commands@.map_values(|c: EventCommand| c@);
            let ghost step = spec_apply_at(cur, index as int, lp, um, pm, tm, options);
            proof {
                lemma_apply_at_unmodified(cur, index as int, lp, um, pm, tm, options);
            }
            if index < commands.len() {
                let code = commands[index].code;
                if code == 401 {
                    let (hr, _stride) = DialogueHandler::inject(
                        commands,
                        index,
                        translations,
                        &list_path,
                        options,
                    );
                    proof {
                        let now = commands@.map_values(|c: EventCommand| c@);
                        let id = spec_position_unit_id(lp, index as int, "dialogue"@);
                        match spec_assoc_get(tm, id) {
                            None => {
                                assert(now =~= step.0);
                            },
                            Some(t) => {
                                let nrun = spec_run_len(cur, index as int, cur[index as int].indent);
                                crate::handlers::dialogue::lemma_run_len_bound(
                                    cur,
                                    index as int,
                                    cur[index as int].indent,
                                );
                                let lines = options.spec_split_text(t);
                                let newcmds = Seq::new(
                                    lines.len(),
                                    |j: int|
                                        CmdModel {
                                            code: 401,
                                            indent: cur[index as int].indent,
                                            params: seq![Json::Str(lines[j])],
                                        },
                                );
                                assert forall|j: int| 0 <= j < lines.len() implies now[index
                                    + j] == newcmds[j] by {
                                    assert(now[index + j].params =~= seq![Json::Str(lines[j])]);
                                }
                                assert(now =~= cur.subrange(0, index as int) + newcmds + cur.skip(
                                    index as int + nrun,
                                ));
                                assert(now == step.0);
                            },
                        }
                        assert(hr.applied as int == step.1);
                        assert(hr.commands_modified as int == step.2);
                    }
                    result.merge(hr);
                    proof {
                        applied_exact = applied_exact + step.1;
                        modified_exact = modified_exact + step.2;
                        assert(hr.not_found as int == spec_miss_at(
                            cur,
                            index as int,
                            lp,
                            tm,
                            options,
                        ));
                        assert(hr.warnings@.len() == spec_miss_at(
                            cur,
                            index as int,
                            lp,
                            tm,
                            options,
                        ));
                        misses_exact = misses_exact + spec_miss_at(
                            cur,
                            index as int,
                            lp,
                            tm,
                            options,
                        );
                    }
                } else if code == 102 {
                    let hr = ChoicesHandler::inject(
                        commands,
                        index,
                        translations,
                        &list_path,
                        options,
                    );
                    proof {
                        let now = commands@.map_values(|c: EventCommand| c@);
                        let c = cur[index as int];
                        if c.params.len() >= 1 && c.params[0] is Arr {
                            let elems = c.params[0]->Arr_0;
                            let cnt = spec_choices_applied(
                                elems,
                                tm,
                                lp,
                                index as int,
                                elems.len() as int,
                            );
                            if cnt > 0 {
                                assert(now[index as int].params =~= c.params.update(
                                    0,
                                    Json::Arr(
                                        spec_choices_new_elems(elems, tm, lp, index as int),
                                    ),
                                ));
                                assert(now =~= step.0);
                            } else {
                                assert(now =~= step.0);
                            }
                        } else {
                            assert(now =~= step.0);
                        }
                        assert(hr.applied as int == step.1);
                        assert(hr.commands_modified as int == step.2);
                    }
                    result.merge(hr);
                    proof {
                        applied_exact = applied_exact + step.1;
                        modified_exact = modified_exact + step.2;
                        assert(cur[index as int].code == code);
                        assert(spec_miss_at(cur, index as int, lp, tm, options) == 0);
                        assert(hr.not_found == 0 && hr.warnings@.len() == 0);
                    }
                } else if code == 402 {
                    let hr = ChoiceBranchHandler::inject(
                        commands,
                        index,
                        translations,
                        &list_path,
                        options,
                    );
                    proof {
                        let now = commands@.map_values(|c: EventCommand| c@);
                        let c = cur[index as int];
                        let id = spec_position_unit_id(lp, index as int, "choice_branch"@);
                        match spec_assoc_get(tm, id) {
                            Some(t) => {
                                if c.params.len() >= 2 {
                                    assert(now[index as int].params =~= c.params.update(
                                        1,
                                        Json::Str(t),
                                    ));
                                    assert(now =~= step.0);
                                } else {
                                    assert(now =~= step.0);
                                }
                            },
                            None => {
                                assert(now =~= step.0);
                            },
                        }
                        assert(hr.applied as int == step.1);
                        assert(hr.commands_modified as int == step.2);
                    }
                    result.merge(hr);
                    proof {
                        applied_exact = applied_exact + step.1;
                        modified_exact = modified_exact + step.2;
                        assert(cur[index as int].code == code);
                        assert(spec_miss_at(cur, index as int, lp, tm, options) == 0);
                        assert(hr.not_found == 0 && hr.warnings@.len() == 0);
                    }
                } else if code == 408 {
                    let hr = CommentHandler::inject(
                        commands,
                        index,
                        translations,
                        &list_path,
                        options,
                    );
                    proof {
                        let now = commands@.map_values(|c: EventCommand| c@);
                        let c = cur[index as int];
                        let id = spec_position_unit_id(lp, index as int, "comment"@);
                        match spec_assoc_get(tm, id) {
                            Some(t) => {
                                if c.params.len() >= 1 {
                                    assert(now[index as int].params =~= c.params.update(
                                        0,
                                        Json::Str(t),
                                    ));
                                    assert(now =~= step.0);
                                } else {
                                    assert(now =~= step.0);
                                }
                            },
                            None => {
                                assert(now =~= step.0);
                            },
                        }
                        assert(hr.applied as int == step.1);
                        assert(hr.commands_modified as int == step.2);
                    }
                    result.merge(hr);
                    proof {
                        applied_exact = applied_exact + step.1;
                        modified_exact = modified_exact + step.2;
                        assert(cur[index as int].code == code);
                        assert(spec_miss_at(cur, index as int, lp, tm, options) == 0);
                        assert(hr.not_found == 0 && hr.warnings@.len() == 0);
                    }
                } else if code == 357 {
                    let hr = self.handlers.plugin.inject(
                        commands,
                        index,
                        translations,
                        &list_path,
                        options,
                    );
                    proof {
                        let now = commands@.map_values(|c: EventCommand| c@);
                        let c = cur[index as int];
                        if spec_has_plugin_data(c) && (match spec_config_for(
                            um,
                            pm,
                            c.params[0]->Str_0,
                        ) {
                            Some(cfg) => cfg.enabled,
                            None => false,
                        }) {
                            let cfg = spec_config_for(um, pm, c.params[0]->Str_0).unwrap();
                            let rs = spec_plugin_replacements(
                                cfg.fields,
                                c.params[3],
                                tm,
                                lp,
                                index as int,
                                c.params[0]->Str_0,
                            );
                            let outcome = spec_apply_replacements(c.params[3], rs);
                            if outcome.1 > 0 {
                                assert(now[index as int].params =~= c.params.update(
                                    3,
                                    outcome.0,
                                ));
                                assert(now =~= step.0);
                            } else {
                                assert(now =~= step.0);
                            }
                        } else {
                            assert(now =~= step.0);
                        }
                        assert(hr.applied as int == step.1);
                        assert(hr.commands_modified as int == step.2);
                    }
                    result.merge(hr);
                    proof {
                        applied_exact = applied_exact + step.1;
                        modified_exact = modified_exact + step.2;
                        assert(cur[index as int].code == code);
                        assert(spec_miss_at(cur, index as int, lp, tm, options) == 0);
                        assert(hr.not_found == 0 && hr.warnings@.len() == 0);
                    }
                } else if code == 101 {
                    let hr = ShowTextHandler::inject(
                        commands,
                        index,
                        translations,
                        &list_path,
                        options,
                    );
                    proof {
                        assert(commands@.map_values(|c: EventCommand| c@) =~= step.0);
                        assert(step.1 == 0 && step.2 == 0);
                        assert(cur[index as int].code == code);
                        assert(spec_miss_at(cur, index as int, lp, tm, options) == 0);
                        assert(hr.not_found == 0 && hr.warnings@.len() == 0);
                    }
                    result.merge(hr);
                } else {
                    proof {
                        assert(step.1 == 0 && step.2 == 0);
                        assert(step.0 == cur);
                        assert(cur[index as int].code == code);
                        assert(spec_miss_at(cur, index as int, lp, tm, options) == 0);
                    }
                }
            } else {
                proof {
                    assert(step.1 == 0 && step.2 == 0);
                    assert(step.0 == cur);
                    assert(spec_miss_at(cur, index as int, lp, tm, options) == 0);
                }
            }
            pos = index;
            proof {
                let now = commands@.map_values(|c: EventCommand| c@);
                assert(spec_inject_down(cur, index as int, lp, um, pm, tm, options) == (
                    spec_inject_down(step.0, index as int - 1, lp, um, pm, tm, options).0,
                    step.1 + spec_inject_down(step.0, index as int - 1, lp, um, pm, tm, options).1,
                    step.2 + spec_inject_down(step.0, index as int - 1, lp, um, pm, tm, options).2,
                ));
                assert(spec_inject_down_misses(cur, index as int, lp, um, pm, tm, options)
                    == spec_miss_at(cur, index as int, lp, tm, options)
                    + spec_inject_down_misses(step.0, index as int - 1, lp, um, pm, tm, options));
            }
        }
        proof {
            let now = commands@.map_values(|c: EventCommand| c@);
            assert(spec_inject_down(now, -1, lp, um, pm, tm, options) == (now, 0int, 0int));
            assert(spec_inject_down_misses(now, -1, lp, um, pm, tm, options) == 0);
            lemma_inject_down_frame(models0, models0.len() - 1, lp, um, pm, tm, options);
        }
        result
    }

    /// Inject translations into a JSON command list.  The list is
    /// re-serialised from the injected commands exactly when at least one
    /// command was modified, so an empty translation map leaves it
    /// untouched.
    pub fn inject_to_list(
        &self,
        list: &mut JsonValue,
        translations: &TranslationMap,
        path_prefix: &TranslationPath,
        options: &InjectionOptions,
    ) -> (r: InjectionResult)
        ensures
            ({
                let models0 = spec_parse_commands(old(list)@);
                let down = spec_inject_down(
                    models0,
                    models0.len() - 1,
                    path_prefix@.push(Seg::Key("list"@)),
                    self.handlers.plugin.user_models(),
                    self.handlers.plugin.predefined_models(),
                    translations@,
                    options,
                );
                &&& down.2 > 0 ==> final(list)@ == spec_commands_to_json(down.0)
                &&& down.2 <= 0 ==> *final(list) == *old(list)
                &&& r.applied as int == if down.1 <= usize::MAX as int {
                    down.1
                } else {
                    usize::MAX as int
                }
                &&& r.commands_modified as int == if down.2 <= usize::MAX as int {
                    down.2
                } else {
                    usize::MAX as int
                }
                &&& r.not_found as int == spec_inject_down_misses(
                    models0,
                    models0.len() - 1,
                    path_prefix@.push(Seg::Key("list"@)),
                    self.handlers.plugin.user_models(),
                    self.handlers.plugin.predefined_models(),
                    translations@,
                    options,
                )
                &&& r.warnings@.len() == spec_inject_down_misses(
                    models0,
                    models0.len() - 1,
                    path_prefix@.push(Seg::Key("list"@)),
                    self.handlers.plugin.user_models(),
                    self.handlers.plugin.predefined_models(),
                    translations@,
                    options,
                )
            }),
            translations@.len() == 0 ==> *final(list) == *old(list) && r.applied == 0
                && r.commands_modified == 0,
            r.commands_modified == 0 ==> *final(list) == *old(list),
    {
        let ghost models0 = spec_parse_commands(list@);
        let mut commands = parse_commands(list);
        let result = self.inject_to_commands(&mut commands, translations, path_prefix, options);
        proof {
            lemma_inject_down_frame(
                models0,
                models0.len() - 1,
                path_prefix@.push(Seg::Key("list"@)),
                self.handlers.plugin.user_models(),
                self.handlers.plugin.predefined_models(),
                translations@,
                options,
            );
        }
        if result.commands_modified > 0 {
            *list = crate::command::commands_to_json(&commands);
        }
        result
    }

    /// Extract from every non-null page of a `pages` array, walking each
    /// page's `list` under the sub-path `pages.<index>`.
    #[verifier::loop_isolation(false)]
    #[verifier::rlimit(100)]
    pub fn extract_from_pages(
        &self,
        pages: &JsonValue,
        path_prefix: &TranslationPath,
        base_context: &ExtractionContext,
        options: &ExtractionOptions,
    ) -> (r: Vec<TranslationUnit>)
        ensures
            ({
                let um = self.handlers.plugin.user_models();
                let pm = self.handlers.plugin.predefined_models();
                match pages@ {
                    crate::json::Json::Arr(elems) => {
                        &&& r@.map_values(|u: TranslationUnit| (u.id@, u.original@))
                            == spec_pages_pairs(elems, 0, path_prefix@, um, pm, options)
                        &&& r@.map_values(|u: TranslationUnit| u.path@) == spec_pages_paths(
                            elems,
                            0,
                            path_prefix@,
                            um,
                            pm,
                            options,
                        )
                        &&& r@.map_values(|u: TranslationUnit| spec_speaker_view(u.speaker))
                            == spec_pages_speakers(elems, 0, path_prefix@, um, pm, options)
                    },
                    _ => r@.len() == 0,
                }
            }),
            forall|k: int|
                0 <= k < r@.len() ==> (#[trigger] r@[k]).path@.len() >= path_prefix@.len() + 4
                    && r@[k].path@.take(path_prefix@.len() + 1 as int) == path_prefix@.push(
                    Seg::Key("pages"@),
                ) && r@[k].path@[path_prefix@.len() + 1 as int] is Index
                    && r@[k].path@[path_prefix@.len() + 2 as int] == Seg::Key("list"@),
            forall|k: int|
                0 <= k < r@.len() ==> (#[trigger] r@[k]).context.map_name
                    == base_context.map_name && (r@[k].context.file_name matches Some(f) && f@
                    == base_context.file_name@) && (r@[k].context.page_index matches Some(p)
                    && r@[k].path@[path_prefix@.len() + 1 as int] == Seg::Index(p as int)),
    {
        let ghost um = self.handlers.plugin.user_models();
        let ghost pm = self.handlers.plugin.predefined_models();
        let mut units: Vec<TranslationUnit> = Vec::new();
        let pages_arr = match pages.as_array() {
            Some(a) => a,
            None => {
                return units;
            },
        };
        let ghost elems = crate::json::json_view_list(pages_arr@);
        proof {
            crate::json::lemma_json_view_list(pages_arr@);
        }
        let ghost total = spec_pages_pairs(elems, 0, path_prefix@, um, pm, options);
        let ghost ptotal = spec_pages_paths(elems, 0, path_prefix@, um, pm, options);
        let ghost stotal = spec_pages_speakers(elems, 0, path_prefix@, um, pm, options);
        let mut page_idx: usize = 0;
        let n = pages_arr.len();
        proof {
            assert(units@.map_values(|u: TranslationUnit| (u.id@, u.original@)) =~= Seq::<
                (Seq<char>, Seq<char>),
            >::empty());
            assert(units@.map_values(|u: TranslationUnit| u.path@) =~= Seq::<Seq<Seg>>::empty());
            assert(units@.map_values(|u: TranslationUnit| spec_speaker_view(u.speaker)) =~= Seq::<
                Option<Seq<char>>,
            >::empty());
            assert(Seq::<Seq<Seg>>::empty() + ptotal =~= ptotal);
            assert(Seq::<Option<Seq<char>>>::empty() + stotal =~= stotal);
        }
        while page_idx < n
            invariant
                page_idx <= n,
                units@.map_values(|u: TranslationUnit| (u.id@, u.original@)) + spec_pages_pairs(
                    elems,
                    page_idx as int,
                    path_prefix@,
                    um,
                    pm,
                    options,
                ) == total,
                units@.map_values(|u: TranslationUnit| u.path@) + spec_pages_paths(
                    elems,
                    page_idx as int,
                    path_prefix@,
                    um,
                    pm,
                    options,
                ) == ptotal,
                units@.map_values(|u: TranslationUnit| spec_speaker_view(u.speaker))
                    + spec_pages_speakers(
                    elems,
                    page_idx as int,
                    path_prefix@,
                    um,
                    pm,
                    options,
                ) == stotal,
                forall|k: int|
                    0 <= k < units@.len() ==> (#[trigger] units@[k]).path@.len()
                        >= path_prefix@.len() + 4 && units@[k].path@.take(
                        path_prefix@.len() + 1 as int,
                    ) == path_prefix@.push(Seg::Key("pages"@)) && units@[k].path@[path_prefix@.len()
                        + 1 as int] is Index && units@[k].path@[path_prefix@.len() + 2 as int]
                        == Seg::Key("list"@),
                forall|k: int|
                    0 <= k < units@.len() ==> (#[trigger] units@[k]).context.map_name
                        == base_context.map_name && (units@[k].context.file_name matches Some(f)
                        && f@ == base_context.file_name@) && (units@[k].context.page_index
                        matches Some(p) && units@[k].path@[path_prefix@.len() + 1 as int]
                        == Seg::Index(p as int)),
            decreases n - page_idx,
        {
            let ghost done_before = units@.map_values(|u: TranslationUnit| (u.id@, u.original@));
            let ghost done_paths = units@.map_values(|u: TranslationUnit| u.path@);
            let ghost done_sp = units@.map_values(
                |u: TranslationUnit| spec_speaker_view(u.speaker),
            );
            let page = &pages_arr[page_idx];
            let ghost head = (match elems[page_idx as int] {
                crate::json::Json::Obj(fields) => match crate::json::spec_obj_get(
                    fields,
                    "list"@,
                ) {
                    Some(l) => spec_walk_pairs(
                        spec_parse_commands(l),
                        0,
                        path_prefix@.push(Seg::Key("pages"@)).push(
                            Seg::Index(page_idx as int),
                        ).push(Seg::Key("list"@)),
                        um,
                        pm,
                        options,
                    ),
                    None => Seq::<(Seq<char>, Seq<char>)>::empty(),
                },
                _ => Seq::<(Seq<char>, Seq<char>)>::empty(),
            });
            match page.get_key("list") {
                Some(list) => {
                    let page_path = path_prefix.append_key("pages").append_index(page_idx);
                    let mut context = base_context.for_page(page_idx);
                    let mut page_units = self.extract_from_list(
                        list,
                        &page_path,
                        &mut context,
                        options,
                    );
                    let ghost added = page_units@.map_values(
                        |u: TranslationUnit| (u.id@, u.original@),
                    );
                    let ghost padd = page_units@.map_values(|u: TranslationUnit| u.path@);
                    let ghost sadd = page_units@.map_values(
                        |u: TranslationUnit| spec_speaker_view(u.speaker),
                    );
                    proof {
                        assert(added =~= head);
                    }
                    let ghost prev_units = units@;
                    let ghost nu = page_units@;
                    units.append(&mut page_units);
                    proof {
                        assert(units@.map_values(|u: TranslationUnit| (u.id@, u.original@))
                            =~= done_before + added);
                        assert(units@.map_values(|u: TranslationUnit| u.path@)
                            =~= done_paths + padd);
                        assert(units@.map_values(|u: TranslationUnit| spec_speaker_view(u.speaker))
                            =~= done_sp + sadd);
                        assert forall|k: int|
                            0 <= k < units@.len() implies (#[trigger] units@[k]).path@.len()
                            >= path_prefix@.len() + 4 && units@[k].path@.take(
                            path_prefix@.len() + 1 as int,
                        ) == path_prefix@.push(Seg::Key("pages"@)) && units@[k].path@[path_prefix@.len()
                            + 1 as int] is Index && units@[k].path@[path_prefix@.len() + 2 as int]
                            == Seg::Key("list"@) by {
                            if k >= prev_units.len() {
                                let u = nu[k - prev_units.len()];
                                assert(units@[k] == u);
                                assert(u.path@.take(page_path@.len() + 1 as int) == page_path@.push(
                                    Seg::Key("list"@),
                                ));
                                assert(u.path@.take(path_prefix@.len() + 1 as int)
                                    =~= path_prefix@.push(Seg::Key("pages"@)));
                                assert(u.path@[path_prefix@.len() + 1 as int] == u.path@.take(
                                    page_path@.len() + 1 as int,
                                )[path_prefix@.len() + 1 as int]);
                                assert(u.path@[path_prefix@.len() + 2 as int] == u.path@.take(
                                    page_path@.len() + 1 as int,
                                )[path_prefix@.len() + 2 as int]);
                            } else {
                                assert(units@[k] == prev_units[k]);
                            }
                        };
                        assert forall|k: int|
                            0 <= k < units@.len() implies (#[trigger] units@[k]).context.map_name
                            == base_context.map_name && (units@[k].context.file_name matches Some(
                            f,
                        ) && f@ == base_context.file_name@) && (units@[k].context.page_index
                            matches Some(p) && units@[k].path@[path_prefix@.len() + 1 as int]
                            == Seg::Index(p as int)) by {
                            if k >= prev_units.len() {
                                let u = nu[k - prev_units.len()];
                                assert(units@[k] == u);
                                assert(u.context.page_index == Some(page_idx));
                                assert(u.path@.take(page_path@.len() + 1 as int) == page_path@.push(
                                    Seg::Key("list"@),
                                ));
                                assert(u.path@[path_prefix@.len() + 1 as int] == u.path@.take(
                                    page_path@.len() + 1 as int,
                                )[path_prefix@.len() + 1 as int]);
                            } else {
                                assert(units@[k] == prev_units[k]);
                            }
                        };
                    }
                },
                None => {
                    proof {
                        assert(head =~= Seq::<(Seq<char>, Seq<char>)>::empty());
                    }
                },
            }
            proof {
                let done_now = units@.map_values(|u: TranslationUnit| (u.id@, u.original@));
                assert(units@.map_values(|u: TranslationUnit| u.path@) + spec_pages_paths(
                    elems,
                    page_idx as int + 1,
                    path_prefix@,
                    um,
                    pm,
                    options,
                ) =~= done_paths + spec_pages_paths(
                    elems,
                    page_idx as int,
                    path_prefix@,
                    um,
                    pm,
                    options,
                ));
                assert(units@.map_values(|u: TranslationUnit| spec_speaker_view(u.speaker))
                    + spec_pages_speakers(
                    elems,
                    page_idx as int + 1,
                    path_prefix@,
                    um,
                    pm,
                    options,
                ) =~= done_sp + spec_pages_speakers(
                    elems,
                    page_idx as int,
                    path_prefix@,
                    um,
                    pm,
                    options,
                ));
                assert(done_now + spec_pages_pairs(
                    elems,
                    page_idx as int + 1,
                    path_prefix@,
                    um,
                    pm,
                    options,
                ) =~= done_before + spec_pages_pairs(
                    elems,
                    page_idx as int,
                    path_prefix@,
                    um,
                    pm,
                    options,
                ));
            }
            page_idx = page_idx + 1;
        }
        proof {
            assert(spec_pages_pairs(elems, n as int, path_prefix@, um, pm, options) =~= Seq::<
                (Seq<char>, Seq<char>),
            >::empty());
            let done = units@.map_values(|u: TranslationUnit| (u.id@, u.original@));
            assert(done + Seq::<(Seq<char>, Seq<char>)>::empty() =~= done);
            assert(spec_pages_paths(elems, n as int, path_prefix@, um, pm, options) =~= Seq::<
                Seq<Seg>,
            >::empty());
            let dpaths = units@.map_values(|u: TranslationUnit| u.path@);
            assert(dpaths + Seq::<Seq<Seg>>::empty() =~= dpaths);
            assert(spec_pages_speakers(elems, n as int, path_prefix@, um, pm, options) =~= Seq::<
                Option<Seq<char>>,
            >::empty());
            let dsp = units@.map_values(|u: TranslationUnit| spec_speaker_view(u.speaker));
            assert(dsp + Seq::<Option<Seq<char>>>::empty() =~= dsp);
        }
        units
    }

    /// Inject into every non-null page of a `pages` array: each page
    /// object's `list` field is injected under `pages.<index>`.  With an
    /// empty translation map the pages are unchanged.
    #[verifier::loop_isolation(false)]
    #[verifier::rlimit(100)]
    pub fn inject_to_pages(
        &self,
        pages: &mut JsonValue,
        translations: &TranslationMap,
        path_prefix: &TranslationPath,
        _base_context: &ExtractionContext,
        options: &InjectionOptions,
    ) -> (r: InjectionResult)
        ensures
            ({
                let um = self.handlers.plugin.user_models();
                let pm = self.handlers.plugin.predefined_models();
                match old(pages)@ {
                    Json::Arr(elems) => {
                        let total = spec_pages_applied(
                            elems,
                            elems.len() as int,
                            path_prefix@,
                            um,
                            pm,
                            translations@,
                            options,
                        );
                        &&& final(pages)@ == Json::Arr(
                            Seq::new(
                                elems.len(),
                                |p: int|
                                    spec_page_after(
                                        elems[p],
                                        path_prefix@.push(Seg::Key("pages"@)).push(Seg::Index(p)),
                                        um,
                                        pm,
                                        translations@,
                                        options,
                                    ),
                            ),
                        )
                        &&& r.applied as int == if total <= usize::MAX as int {
                            total
                        } else {
                            usize::MAX as int
                        }
                    },
                    _ => *final(pages) == *old(pages) && r.applied == 0,
                }
            }),
            translations@.len() == 0 ==> final(pages)@ == old(pages)@ && r.applied == 0
                && r.commands_modified == 0,
    {
        let ghost um = self.handlers.plugin.user_models();
        let ghost pm = self.handlers.plugin.predefined_models();
        let ghost tm = translations@;
        let mut result = InjectionResult::new();
        let mut owned = JsonValue::Null;
        core::mem::swap(pages, &mut owned);
        let mut elems = match owned {
            JsonValue::Array(elems) => elems,
            other => {
                *pages = other;
                return result;
            },
        };
        let ghost orig = crate::json::json_view_list(elems@);
        proof {
            crate::json::lemma_json_view_list(elems@);
        }
        let ghost total = spec_pages_applied(
            orig,
            orig.len() as int,
            path_prefix@,
            um,
            pm,
            tm,
            options,
        );
        let ghost mut applied_exact: int = 0;
        let mut page_idx: usize = 0;
        let n = elems.len();
        while page_idx < n
            invariant
                page_idx <= n,
                elems@.len() == n,
                n == orig.len(),
                applied_exact == spec_pages_applied(
                    orig,
                    page_idx as int,
                    path_prefix@,
                    um,
                    pm,
                    tm,
                    options,
                ),
                applied_exact >= 0,
                result.applied as int == if applied_exact <= usize::MAX as int {
                    applied_exact
                } else {
                    usize::MAX as int
                },
                forall|j: int|
                    0 <= j < page_idx ==> crate::json::json_view(#[trigger] elems@[j])
                        == spec_page_after(
                        orig[j],
                        path_prefix@.push(Seg::Key("pages"@)).push(Seg::Index(j)),
                        um,
                        pm,
                        tm,
                        options,
                    ),
                forall|j: int|
                    page_idx <= j < n ==> crate::json::json_view(#[trigger] elems@[j]) == orig[j],
                tm.len() == 0 ==> crate::json::json_view_list(elems@) == orig && result.applied
                    == 0 && result.commands_modified == 0,
            decreases n - page_idx,
        {
            let ghost base = path_prefix@.push(Seg::Key("pages"@)).push(
                Seg::Index(page_idx as int),
            );
            let ghost page_before_view = orig[page_idx as int];
            proof {
                crate::json::lemma_json_view_list(elems@);
            }
            let ghost models_before = crate::json::json_view_list(elems@);
            let page = elems.remove(page_idx);
            proof {
                assert(page@ == orig[page_idx as int]);
            }
            let ghost step_applied = spec_page_applied(
                orig[page_idx as int],
                base,
                um,
                pm,
                tm,
                options,
            );
            let mut step_result = InjectionResult::new();
            let page = match page {
                JsonValue::Object(mut fields) => {
                    let ghost fields_before = crate::json::json_view_fields(fields@);
                    proof {
                        crate::json::lemma_json_view_fields(fields@);
                        assert(orig[page_idx as int] == Json::Obj(fields_before));
                    }
                    let mut fi: usize = 0;
                    let nf = fields.len();
                    let mut found = false;
                    while fi < nf && !found
                        invariant
                            fi <= nf,
                            nf == fields@.len(),
                            found ==> fi < nf && fields_before[fi as int].0 == "list"@,
                            forall|j: int|
                                0 <= j < fi ==> (#[trigger] fields_before[j]).0 != "list"@,
                        decreases nf - fi, (if found {
                            0int
                        } else {
                            1int
                        }),
                    {
                        proof {
                            crate::json::lemma_json_view_fields(fields@);
                        }
                        if crate::strutil::str_eq(fields[fi].0.as_str(), "list") {
                            found = true;
                        } else {
                            fi = fi + 1;
                        }
                    }
                    if found {
                        proof {
                            crate::translation_path::lemma_obj_get_at_pub(
                                fields_before,
                                "list"@,
                                fi as int,
                            );
                        }
                        let mut pair = fields.remove(fi);
                        let ghost list_before = pair.1@;
                        proof {
                            assert(list_before == fields_before[fi as int].1);
                            assert(crate::json::spec_obj_get(fields_before, "list"@) == Some(
                                list_before,
                            ));
                        }
                        let page_path = path_prefix.append_key("pages").append_index(page_idx);
                        proof {
                            assert(page_path@ =~= base);
                        }
                        let hr = self.inject_to_list(
                            &mut pair.1,
                            translations,
                            &page_path,
                            options,
                        );
                        proof {
                            let models1 = spec_parse_commands(list_before);
                            let down = spec_inject_down(
                                models1,
                                models1.len() - 1,
                                base.push(Seg::Key("list"@)),
                                um,
                                pm,
                                tm,
                                options,
                            );
                            lemma_inject_down_frame(
                                models1,
                                models1.len() - 1,
                                base.push(Seg::Key("list"@)),
                                um,
                                pm,
                                tm,
                                options,
                            );
                            assert(step_applied == down.1);
                            assert(hr.applied as int == if step_applied <= usize::MAX as int {
                                step_applied
                            } else {
                                usize::MAX as int
                            });
                        }
                        step_result.merge(hr);
                        let ghost list_after = pair.1@;
                        fields.insert(fi, pair);
                        proof {
                            crate::json::lemma_json_view_fields(fields@);
                            crate::translation_path::lemma_obj_set_at(
                                fields_before,
                                "list"@,
                                fi as int,
                                list_after,
                            );
                            assert(crate::json::json_view_fields(fields@)
                                =~= fields_before.update(fi as int, ("list"@, list_after)));
                            let models1 = spec_parse_commands(list_before);
                            let down = spec_inject_down(
                                models1,
                                models1.len() - 1,
                                base.push(Seg::Key("list"@)),
                                um,
                                pm,
                                tm,
                                options,
                            );
                            if down.2 > 0 {
                                assert(crate::json::json_view_fields(fields@)
                                    =~= crate::translation_path::spec_obj_set(
                                    fields_before,
                                    "list"@,
                                    spec_commands_to_json(down.0),
                                ));
                            } else {
                                assert(list_after == list_before);
                                assert(fields_before[fi as int] == ("list"@, list_before));
                                assert(crate::json::json_view_fields(fields@)
                                    =~= fields_before);
                            }
                        }
                    } else {
                        proof {
                            crate::translation_path::lemma_obj_get_absent_pub(
                                fields_before,
                                "list"@,
                            );
                            assert(step_applied == 0);
                        }
                    }
                    let rebuilt = JsonValue::Object(fields);
                    proof {
                        assert(rebuilt@ == spec_page_after(
                            page_before_view,
                            base,
                            um,
                            pm,
                            tm,
                            options,
                        ));
                    }
                    rebuilt
                },
                other => other,
            };
            let ghost page_view_after = page@;
            proof {
                assert(page_view_after == spec_page_after(
                    page_before_view,
                    base,
                    um,
                    pm,
                    tm,
                    options,
                ));
                if !(page_before_view is Obj) {
                    assert(step_applied == 0);
                }
            }
            elems.insert(page_idx, page);
            result.merge(step_result);
            proof {
                crate::json::lemma_json_view_list(elems@);
                applied_exact = applied_exact + step_applied;
                if tm.len() == 0 {
                    assert(crate::json::json_view_list(elems@) =~= orig);
                }
            }
            page_idx = page_idx + 1;
        }
        let rebuilt = JsonValue::Array(elems);
        proof {
            crate::json::lemma_json_view_list(elems@);
            assert(crate::json::json_view_list(elems@) =~= Seq::new(
                orig.len(),
                |p: int|
                    spec_page_after(
                        orig[p],
                        path_prefix@.push(Seg::Key("pages"@)).push(Seg::Index(p)),
                        um,
                        pm,
                        tm,
                        options,
                    ),
            ));
            if tm.len() == 0 {
                assert(rebuilt@ == old(pages)@);
            }
        }
        *pages = rebuilt;
        result
    }
}

/// Result of extracting one file: the units, the source name, the
/// distinct speakers seen, and any warnings.
#[derive(Debug)]
pub struct FileExtractionResult {
    /// Extracted translation units.
    pub units: Vec<TranslationUnit>,
    /// Source file name.
    pub source_file: String,
    /// Distinct speakers, in order of first appearance.
    pub speakers: Vec<String>,
    /// Warnings encountered.
    pub warnings: Vec<String>,
}

impl FileExtractionResult {
    /// An empty result for one source file.
    pub fn new(source_file: &str) -> (r: Self)
        ensures
            r.units@.len() == 0,
            r.source_file@ == source_file@,
            r.speakers@.len() == 0,
            r.warnings@.len() == 0,
    {
        FileExtractionResult {
            units: Vec::new(),
            source_file: String::from_str(source_file),
            speakers: Vec::new(),
            warnings: Vec::new(),
        }
    }

    /// Append units, recording each new speaker once.
    #[verifier::loop_isolation(false)]
    pub fn add_units(&mut self, units: Vec<TranslationUnit>)
        ensures
            final(self).units@.len() == old(self).units@.len() + units@.len(),
            final(self).units@.take(old(self).units@.len() as int) == old(self).units@,
            forall|j: int|
                0 <= j < units@.len() ==> final(self).units@[old(self).units@.len() + j]
                    == units@[j],
            final(self).source_file == old(self).source_file,
            final(self).warnings == old(self).warnings,
    {
        let mut i: usize = 0;
        let n = units.len();
        while i < n
            invariant
                i <= n,
                n == units@.len(),
                self.units == old(self).units,
                self.source_file == old(self).source_file,
                self.warnings == old(self).warnings,
            decreases n - i,
        {
            match &units[i].speaker {
                Some(speaker) => {
                    if !crate::translation_unit::contains_string(
                        &self.speakers,
                        speaker.as_str(),
                    ) {
                        self.speakers.push(speaker.clone());
                    }
                },
                None => {},
            }
            i = i + 1;
        }
        let mut units = units;
        self.units.append(&mut units);
        proof {
            assert(final(self).units@.take(old(self).units@.len() as int) =~= old(self).units@);
        }
    }

    /// Record a warning.
    pub fn add_warning(&mut self, warning: &str)
        ensures
            final(self).warnings@.len() == old(self).warnings@.len() + 1,
            final(self).warnings@.last()@ == warning@,
            final(self).units == old(self).units,
            final(self).source_file == old(self).source_file,
            final(self).speakers == old(self).speakers,
    {
        self.warnings.push(String::from_str(warning));
    }

    /// The number of extracted units.
    pub fn unit_count(&self) -> (r: usize)
        ensures
            r == self.units@.len(),
    {
        self.units.len()
    }
}

/// Result of injecting into one file.
#[derive(Debug)]
pub struct FileInjectionResult {
    /// Translations applied.
    pub applied: usize,
    /// Translations whose ids were not found (when reported).
    pub not_found: usize,
    /// Commands modified.
    pub commands_modified: usize,
    /// Warnings encountered.
    pub warnings: Vec<String>,
    /// Whether anything in the file changed.
    pub modified: bool,
}

impl FileInjectionResult {
    /// An empty result.
    pub fn new() -> (r: Self)
        ensures
            r.applied == 0,
            r.not_found == 0,
            r.commands_modified == 0,
            r.warnings@.len() == 0,
            !r.modified,
    {
        FileInjectionResult {
            applied: 0,
            not_found: 0,
            commands_modified: 0,
            warnings: Vec::new(),
            modified: false,
        }
    }

    /// Fold one command-list result in; the file counts as modified once
    /// any command was.
    pub fn merge(&mut self, result: InjectionResult)
        ensures
            final(self).applied == if old(self).applied + result.applied <= usize::MAX {
                (old(self).applied + result.applied) as usize
            } else {
                usize::MAX
            },
            final(self).not_found == if old(self).not_found + result.not_found <= usize::MAX {
                (old(self).not_found + result.not_found) as usize
            } else {
                usize::MAX
            },
            final(self).commands_modified == if old(self).commands_modified
                + result.commands_modified <= usize::MAX {
                (old(self).commands_modified + result.commands_modified) as usize
            } else {
                usize::MAX
            },
            final(self).warnings@ == old(self).warnings@ + result.warnings@,
            final(self).modified == (old(self).modified || result.commands_modified > 0),
            result.applied == 0 && result.commands_modified == 0 ==> final(self).applied == old(self).applied && final(self).modified == old(self).modified,
    {
        let mut base = InjectionResult::new();
        base.applied = self.applied;
        base.not_found = self.not_found;
        base.commands_modified = self.commands_modified;
        let modified_now = result.commands_modified > 0;
        base.merge(result);
        self.applied = base.applied;
        self.not_found = base.not_found;
        self.commands_modified = base.commands_modified;
        let mut warnings = base.warnings;
        self.warnings.append(&mut warnings);
        if modified_now {
            self.modified = true;
        }
        proof {
            assert(final(self).warnings@ =~= old(self).warnings@ + result.warnings@);
        }
    }
}

impl Default for FileInjectionResult {
    /// An empty result.
    fn default() -> (r: Self)
        ensures
            r.applied == 0,
            !r.modified,
    {
        FileInjectionResult::new()
    }
}

impl Default for EventPageParser {
    /// A parser with the default handlers.
    fn default() -> (r: Self)
        ensures
            r.handlers.plugin.user_models().len() == 0,
    {
        EventPageParser::new()
    }
}

} // verus!

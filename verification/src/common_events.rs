//! Adapter for the common-events file shape: a top-level array of event
//! objects (some entries null), each carrying a `list` of commands.

use vstd::prelude::*;

use crate::context::ExtractionContext;
use crate::event_page::{
    spec_inject_down, spec_page_after, spec_page_applied, spec_walk_pairs, EventPageParser,
    FileExtractionResult, FileInjectionResult,
};
use crate::handlers::plugin::ConfigModel;
use crate::json::{Json, JsonValue};
use crate::options::{ExtractionOptions, InjectionOptions};
use crate::tmap::TranslationMap;
use crate::translation_path::{Seg, TranslationPath};
use crate::translation_unit::TranslationFile;

verus! {

/// The pairs a common-events array yields from event `e` on: each element
/// with a `list` field is walked under the sub-path `<e>`.
/// The path of each unit a common-events array yields from event `e` on,
/// aligned index-for-index with its pairs: every path starts with
/// `<e>.list`.
/// Whether a common event's command list, when present, parses element
/// for element; other shapes pass trivially.
pub open spec fn spec_common_event_parses(ev: Json) -> bool {
    match ev {
        Json::Obj(fields) => match crate::json::spec_obj_get(fields, "list"@) {
            Some(l) => crate::command::spec_list_fully_parses(l),
            None => true,
        },
        _ => true,
    }
}

/// No extracted path is synthetic: every path the common-events
/// projection emits resolves to a value of the input tree, provided each
/// event's command list is an array of command objects.
pub proof fn lemma_common_paths_resolve(
    events: Seq<Json>,
    e: int,
    user: Seq<ConfigModel>,
    predefined: Seq<ConfigModel>,
    options: &ExtractionOptions,
)
    requires
        0 <= e <= events.len(),
        forall|q: int| 0 <= q < events.len() ==> spec_common_event_parses(#[trigger] events[q]),
    ensures
        forall|k: int|
            0 <= k < spec_common_paths(events, e, user, predefined, options).len()
                ==> crate::translation_path::spec_get(
                Json::Arr(events),
                #[trigger] spec_common_paths(events, e, user, predefined, options)[k],
            ) is Some,
    decreases events.len() - e,
{
    let root = Json::Arr(events);
    if e >= events.len() {
        return ;
    }
    lemma_common_paths_resolve(events, e + 1, user, predefined, options);
    match events[e] {
        Json::Obj(fields) => {
            match crate::json::spec_obj_get(fields, "list"@) {
                Some(l) => {
                    let lpath = seq![Seg::Index(e)].push(Seg::Key("list"@));
                    assert(lpath[0] == Seg::Index(e));
                    assert(lpath.drop_first() =~= seq![Seg::Key("list"@)]);
                    assert(seq![Seg::Key("list"@)][0] == Seg::Key("list"@));
                    assert(seq![Seg::Key("list"@)].drop_first() =~= Seq::<Seg>::empty());
                    assert(crate::translation_path::spec_get(l, Seq::<Seg>::empty()) == Some(l));
                    assert(crate::translation_path::spec_get(events[e], seq![Seg::Key("list"@)])
                        == Some(l));
                    assert(crate::translation_path::spec_get(root, lpath) == Some(l));
                    assert(spec_common_event_parses(events[e]));
                    crate::event_page::lemma_walk_paths_resolve(
                        root,
                        lpath,
                        l,
                        0,
                        user,
                        predefined,
                        options,
                    );
                },
                None => {},
            }
        },
        _ => {},
    }
}

pub open spec fn spec_common_paths(
    events: Seq<Json>,
    e: int,
    user: Seq<ConfigModel>,
    predefined: Seq<ConfigModel>,
    options: &ExtractionOptions,
) -> Seq<Seq<Seg>>
    decreases events.len() - e,
{
    if e < 0 || e >= events.len() {
        Seq::empty()
    } else {
        let head = match events[e] {
            Json::Obj(fields) => match crate::json::spec_obj_get(fields, "list"@) {
                Some(l) => crate::event_page::spec_walk_paths(
                    crate::command::spec_parse_commands(l),
                    0,
                    seq![Seg::Index(e)].push(Seg::Key("list"@)),
                    user,
                    predefined,
                    options,
                ),
                None => Seq::empty(),
            },
            _ => Seq::empty(),
        };
        head + spec_common_paths(events, e + 1, user, predefined, options)
    }
}

/// The speaker of each unit a common-events array yields from event `e`
/// on, aligned index-for-index with its pairs: each event's walk starts
/// with no speaker.
pub open spec fn spec_common_speakers(
    events: Seq<Json>,
    e: int,
    user: Seq<ConfigModel>,
    predefined: Seq<ConfigModel>,
    options: &ExtractionOptions,
) -> Seq<Option<Seq<char>>>
    decreases events.len() - e,
{
    if e < 0 || e >= events.len() {
        Seq::empty()
    } else {
        let head = match events[e] {
            Json::Obj(fields) => match crate::json::spec_obj_get(fields, "list"@) {
                Some(l) => crate::event_page::spec_walk_unit_speakers(
                    crate::command::spec_parse_commands(l),
                    0,
                    seq![Seg::Index(e)].push(Seg::Key("list"@)),
                    Option::<Seq<char>>::None,
                    user,
                    predefined,
                    options,
                ),
                None => Seq::empty(),
            },
            _ => Seq::empty(),
        };
        head + spec_common_speakers(events, e + 1, user, predefined, options)
    }
}

pub open spec fn spec_common_pairs(
    events: Seq<Json>,
    e: int,
    user: Seq<ConfigModel>,
    predefined: Seq<ConfigModel>,
    options: &ExtractionOptions,
) -> Seq<(Seq<char>, Seq<char>)>
    decreases events.len() - e,
{
    if e < 0 || e >= events.len() {
        Seq::empty()
    } else {
        let head = match events[e] {
            Json::Obj(fields) => match crate::json::spec_obj_get(fields, "list"@) {
                Some(l) => spec_walk_pairs(
                    crate::command::spec_parse_commands(l),
                    0,
                    seq![Seg::Index(e)].push(Seg::Key("list"@)),
                    user,
                    predefined,
                    options,
                ),
                None => Seq::empty(),
            },
            _ => Seq::empty(),
        };
        head + spec_common_pairs(events, e + 1, user, predefined, options)
    }
}

/// The summed applied count of the first `e` events, each injected under
/// the sub-path `<e>`.
pub open spec fn spec_common_applied(
    events: Seq<Json>,
    e: int,
    user: Seq<crate::handlers::plugin::ConfigModel>,
    predefined: Seq<crate::handlers::plugin::ConfigModel>,
    tmap: Seq<(Seq<char>, Seq<char>)>,
    iopts: &InjectionOptions,
) -> int
    decreases e,
{
    if e <= 0 {
        0
    } else {
        spec_common_applied(events, e - 1, user, predefined, tmap, iopts) + spec_page_applied(
            events[e - 1],
            seq![Seg::Index(e - 1)],
            user,
            predefined,
            tmap,
            iopts,
        )
    }
}

/// Parser for common-events files.
#[derive(Debug)]
pub struct CommonEventsParser {
    /// The page parser used per event.
    pub page_parser: EventPageParser,
}

impl CommonEventsParser {
    /// A parser with the default handlers.
    pub fn new() -> (r: Self)
        ensures
            r.page_parser.handlers.plugin.user_models().len() == 0,
    {
        CommonEventsParser { page_parser: EventPageParser::new() }
    }

    /// A parser with a custom page parser.
    pub fn with_page_parser(page_parser: EventPageParser) -> (r: Self)
        ensures
            r.page_parser == page_parser,
    {
        CommonEventsParser { page_parser }
    }

    /// Extract translation units from a common-events tree.  For an array
    /// input the units' ids and originals are exactly the concatenation of
    /// each event's walk, so a second run over the same tree and options
    /// yields the same ids in the same order; any other input produces a
    /// warning and no units.
    #[verifier::loop_isolation(false)]
    #[verifier::rlimit(100)]
    pub fn extract(
        &self,
        json: &JsonValue,
        file_name: &str,
        options: &ExtractionOptions,
    ) -> (r: FileExtractionResult)
        ensures
            r.source_file@ == file_name@,
            ({
                let um = self.page_parser.handlers.plugin.user_models();
                let pm = self.page_parser.handlers.plugin.predefined_models();
                match json@ {
                    Json::Arr(events) => {
                        &&& r.units@.map_values(
                            |u: crate::translation_unit::TranslationUnit| (u.id@, u.original@),
                        ) == spec_common_pairs(events, 0, um, pm, options)
                        &&& r.units@.map_values(
                            |u: crate::translation_unit::TranslationUnit| u.path@,
                        ) == spec_common_paths(events, 0, um, pm, options)
                        &&& r.units@.map_values(
                            |u: crate::translation_unit::TranslationUnit|
                                crate::event_page::spec_speaker_view(u.speaker),
                        ) == spec_common_speakers(events, 0, um, pm, options)
                    },
                    _ => r.units@.len() == 0,
                }
            }),
            forall|k: int|
                0 <= k < r.units@.len() ==> (#[trigger] r.units@[k]).path@.len() >= 3
                    && r.units@[k].path@[0] is Index && r.units@[k].path@[1] == Seg::Key("list"@),
            forall|k: int|
                0 <= k < r.units@.len() ==> (#[trigger] r.units@[k]).context.map_name is None && (
                r.units@[k].context.file_name matches Some(f) && f@ == file_name@),
    {
        let ghost um = self.page_parser.handlers.plugin.user_models();
        let ghost pm = self.page_parser.handlers.plugin.predefined_models();
        let mut result = FileExtractionResult::new(file_name);
        let events = match json.as_array() {
            Some(arr) => arr,
            None => {
                result.add_warning("the common events file is not an array");
                return result;
            },
        };
        let ghost models = crate::json::json_view_list(events@);
        proof {
            crate::json::lemma_json_view_list(events@);
        }
        let ghost total = spec_common_pairs(models, 0, um, pm, options);
        let ghost ptotal = spec_common_paths(models, 0, um, pm, options);
        let ghost stotal = spec_common_speakers(models, 0, um, pm, options);
        let mut event_idx: usize = 0;
        let n = events.len();
        proof {
            assert(result.units@.map_values(
                |u: crate::translation_unit::TranslationUnit| (u.id@, u.original@),
            ) =~= Seq::<(Seq<char>, Seq<char>)>::empty());
            assert(result.units@.map_values(
                |u: crate::translation_unit::TranslationUnit| u.path@,
            ) =~= Seq::<Seq<Seg>>::empty());
            assert(result.units@.map_values(
                |u: crate::translation_unit::TranslationUnit|
                    crate::event_page::spec_speaker_view(u.speaker),
            ) =~= Seq::<Option<Seq<char>>>::empty());
            assert(Seq::<Seq<Seg>>::empty() + ptotal =~= ptotal);
            assert(Seq::<Option<Seq<char>>>::empty() + stotal =~= stotal);
        }
        while event_idx < n
            invariant
                event_idx <= n,
                result.source_file@ == file_name@,
                result.units@.map_values(
                    |u: crate::translation_unit::TranslationUnit| (u.id@, u.original@),
                ) + spec_common_pairs(models, event_idx as int, um, pm, options) == total,
                result.units@.map_values(
                    |u: crate::translation_unit::TranslationUnit| u.path@,
                ) + spec_common_paths(models, event_idx as int, um, pm, options) == ptotal,
                result.units@.map_values(
                    |u: crate::translation_unit::TranslationUnit|
                        crate::event_page::spec_speaker_view(u.speaker),
                ) + spec_common_speakers(models, event_idx as int, um, pm, options) == stotal,
                forall|k: int|
                    0 <= k < result.units@.len() ==> (#[trigger] result.units@[k]).path@.len() >= 3
                        && result.units@[k].path@[0] is Index && result.units@[k].path@[1]
                        == Seg::Key("list"@),
                forall|k: int|
                    0 <= k < result.units@.len() ==> (#[trigger] result.units@[k]).context.map_name
                        is None && (result.units@[k].context.file_name matches Some(f) && f@
                        == file_name@),
            decreases n - event_idx,
        {
            let ghost done_before = result.units@.map_values(
                |u: crate::translation_unit::TranslationUnit| (u.id@, u.original@),
            );
            let ghost done_paths = result.units@.map_values(
                |u: crate::translation_unit::TranslationUnit| u.path@,
            );
            let ghost done_sp = result.units@.map_values(
                |u: crate::translation_unit::TranslationUnit|
                    crate::event_page::spec_speaker_view(u.speaker),
            );
            let event = &events[event_idx];
            let ghost head = (match models[event_idx as int] {
                Json::Obj(fields) => match crate::json::spec_obj_get(fields, "list"@) {
                    Some(l) => spec_walk_pairs(
                        crate::command::spec_parse_commands(l),
                        0,
                        seq![Seg::Index(event_idx as int)].push(Seg::Key("list"@)),
                        um,
                        pm,
                        options,
                    ),
                    None => Seq::<(Seq<char>, Seq<char>)>::empty(),
                },
                _ => Seq::<(Seq<char>, Seq<char>)>::empty(),
            });
            match event.get_key("list") {
                Some(list) => {
                    let event_id: usize = match event.get_key("id") {
                        Some(idv) => match idv.as_i64() {
                            Some(iv) => {
                                if 0 <= iv && iv <= usize::MAX as i64 {
                                    iv as usize
                                } else {
                                    event_idx
                                }
                            },
                            None => event_idx,
                        },
                        None => event_idx,
                    };
                    let mut context = ExtractionContext::new(file_name).with_event_id(
                        event_id,
                    ).with_max_preceding_lines(options.max_preceding_lines);
                    match event.get_key("name") {
                        Some(namev) => match namev.as_str() {
                            Some(name) => {
                                context = context.with_event_name(name.as_str());
                            },
                            None => {},
                        },
                        None => {},
                    }
                    let event_path = TranslationPath::new().append_index(event_idx);
                    proof {
                        assert(event_path@ =~= seq![Seg::Index(event_idx as int)]);
                    }
                    let units = self.page_parser.extract_from_list(
                        list,
                        &event_path,
                        &mut context,
                        options,
                    );
                    let ghost added = units@.map_values(
                        |u: crate::translation_unit::TranslationUnit| (u.id@, u.original@),
                    );
                    let ghost padd = units@.map_values(
                        |u: crate::translation_unit::TranslationUnit| u.path@,
                    );
                    let ghost sadd = units@.map_values(
                        |u: crate::translation_unit::TranslationUnit|
                            crate::event_page::spec_speaker_view(u.speaker),
                    );
                    let ghost nu = units@;
                    let ghost prev_units = result.units@;
                    proof {
                        assert(added =~= head);
                    }
                    result.add_units(units);
                    proof {
                        assert(result.units@.map_values(
                            |u: crate::translation_unit::TranslationUnit| u.path@,
                        ) =~= done_paths + padd);
                        assert(result.units@.map_values(
                            |u: crate::translation_unit::TranslationUnit|
                                crate::event_page::spec_speaker_view(u.speaker),
                        ) =~= done_sp + sadd);
                        assert forall|k: int|
                            0 <= k < result.units@.len() implies (#[trigger] result.units@[k]).path@.len()
                            >= 3 && result.units@[k].path@[0] is Index && result.units@[k].path@[1]
                            == Seg::Key("list"@) by {
                            if k >= prev_units.len() {
                                let u = nu[k - prev_units.len()];
                                assert(result.units@[k] == u);
                                assert(u.path@.take(event_path@.len() + 1 as int) == event_path@.push(
                                    Seg::Key("list"@),
                                ));
                                assert(u.path@[0] == u.path@.take(2)[0]);
                                assert(u.path@[1] == u.path@.take(2)[1]);
                            } else {
                                assert(result.units@[k] == prev_units[k]);
                            }
                        };
                        assert forall|k: int|
                            0 <= k < result.units@.len() implies (#[trigger] result.units@[k]).context.map_name
                            is None && (result.units@[k].context.file_name matches Some(f) && f@
                            == file_name@) by {
                            if k >= prev_units.len() {
                                assert(result.units@[k] == nu[k - prev_units.len()]);
                            } else {
                                assert(result.units@[k] == prev_units[k]);
                            }
                        };
                        assert(result.units@.map_values(
                            |u: crate::translation_unit::TranslationUnit| (u.id@, u.original@),
                        ) =~= done_before + added);
                    }
                },
                None => {
                    proof {
                        assert(head =~= Seq::<(Seq<char>, Seq<char>)>::empty());
                    }
                },
            }
            proof {
                let done_now = result.units@.map_values(
                    |u: crate::translation_unit::TranslationUnit| (u.id@, u.original@),
                );
                assert(done_now + spec_common_pairs(models, event_idx as int + 1, um, pm, options)
                    =~= done_before + spec_common_pairs(
                    models,
                    event_idx as int,
                    um,
                    pm,
                    options,
                ));
                assert(result.units@.map_values(
                    |u: crate::translation_unit::TranslationUnit| u.path@,
                ) + spec_common_paths(models, event_idx as int + 1, um, pm, options) =~= done_paths
                    + spec_common_paths(models, event_idx as int, um, pm, options));
                assert(result.units@.map_values(
                    |u: crate::translation_unit::TranslationUnit|
                        crate::event_page::spec_speaker_view(u.speaker),
                ) + spec_common_speakers(models, event_idx as int + 1, um, pm, options) =~= done_sp
                    + spec_common_speakers(models, event_idx as int, um, pm, options));
            }
            event_idx = event_idx + 1;
        }
        proof {
            assert(spec_common_pairs(models, n as int, um, pm, options) =~= Seq::<
                (Seq<char>, Seq<char>),
            >::empty());
            let done = result.units@.map_values(
                |u: crate::translation_unit::TranslationUnit| (u.id@, u.original@),
            );
            assert(done + Seq::<(Seq<char>, Seq<char>)>::empty() =~= done);
            assert(spec_common_paths(models, n as int, um, pm, options) =~= Seq::<
                Seq<Seg>,
            >::empty());
            let dpaths = result.units@.map_values(
                |u: crate::translation_unit::TranslationUnit| u.path@,
            );
            assert(dpaths + Seq::<Seq<Seg>>::empty() =~= dpaths);
            assert(spec_common_speakers(models, n as int, um, pm, options) =~= Seq::<
                Option<Seq<char>>,
            >::empty());
            let dsp = result.units@.map_values(
                |u: crate::translation_unit::TranslationUnit|
                    crate::event_page::spec_speaker_view(u.speaker),
            );
            assert(dsp + Seq::<Option<Seq<char>>>::empty() =~= dsp);
        }
        result
    }

    /// Inject translations into a common-events tree, event by event:
    /// each element's `list` field is injected under the sub-path `<e>`.
    /// With an empty translation map the tree is unchanged and nothing is
    /// applied.
    #[verifier::loop_isolation(false)]
    #[verifier::rlimit(100)]
    pub fn inject(
        &self,
        json: &mut JsonValue,
        translations: &TranslationMap,
        options: &InjectionOptions,
    ) -> (r: FileInjectionResult)
        ensures
            ({
                let um = self.page_parser.handlers.plugin.user_models();
                let pm = self.page_parser.handlers.plugin.predefined_models();
                match old(json)@ {
                    Json::Arr(events) => {
                        let total = spec_common_applied(
                            events,
                            events.len() as int,
                            um,
                            pm,
                            translations@,
                            options,
                        );
                        &&& final(json)@ == Json::Arr(
                            Seq::new(
                                events.len(),
                                |e: int|
                                    spec_page_after(
                                        events[e],
                                        seq![Seg::Index(e)],
                                        um,
                                        pm,
                                        translations@,
                                        options,
                                    ),
                            ),
                        )
                        &&& r.applied as int == if total <= usize::MAX as int {
                            total
                        } else {
                            usize::MAX as int
                        }
                    },
                    _ => *final(json) == *old(json) && r.applied == 0 && !r.modified,
                }
            }),
            translations@.len() == 0 ==> final(json)@ == old(json)@ && r.applied == 0
                && !r.modified,
    {
        let ghost um = self.page_parser.handlers.plugin.user_models();
        let ghost pm = self.page_parser.handlers.plugin.predefined_models();
        let ghost tm = translations@;
        let mut result = FileInjectionResult::new();
        let mut owned = JsonValue::Null;
        core::mem::swap(json, &mut owned);
        let mut elems = match owned {
            JsonValue::Array(elems) => elems,
            other => {
                result.warnings.push(String::from_str("the common events file is not an array"));
                *json = other;
                return result;
            },
        };
        let ghost orig = crate::json::json_view_list(elems@);
        proof {
            crate::json::lemma_json_view_list(elems@);
        }
        let ghost total = spec_common_applied(orig, orig.len() as int, um, pm, tm, options);
        let ghost mut applied_exact: int = 0;
        let mut event_idx: usize = 0;
        let n = elems.len();
        while event_idx < n
            invariant
                event_idx <= n,
                elems@.len() == n,
                n == orig.len(),
                applied_exact == spec_common_applied(orig, event_idx as int, um, pm, tm, options),
                applied_exact >= 0,
                result.applied as int == if applied_exact <= usize::MAX as int {
                    applied_exact
                } else {
                    usize::MAX as int
                },
                result.modified == (applied_exact > 0) || result.modified,
                forall|j: int|
                    0 <= j < event_idx ==> crate::json::json_view(#[trigger] elems@[j])
                        == spec_page_after(orig[j], seq![Seg::Index(j)], um, pm, tm, options),
                forall|j: int|
                    event_idx <= j < n ==> crate::json::json_view(#[trigger] elems@[j])
                        == orig[j],
                tm.len() == 0 ==> crate::json::json_view_list(elems@) == orig && result.applied
                    == 0 && !result.modified,
            decreases n - event_idx,
        {
            let ghost base = seq![Seg::Index(event_idx as int)];
            let ghost page_before_view = orig[event_idx as int];
            proof {
                crate::json::lemma_json_view_list(elems@);
            }
            let page = elems.remove(event_idx);
            proof {
                assert(page@ == orig[event_idx as int]);
            }
            let ghost step_applied = spec_page_applied(
                orig[event_idx as int],
                base,
                um,
                pm,
                tm,
                options,
            );
            let mut step_result = crate::context::InjectionResult::new();
            let page = match page {
                JsonValue::Object(mut fields) => {
                    let ghost fields_before = crate::json::json_view_fields(fields@);
                    proof {
                        crate::json::lemma_json_view_fields(fields@);
                        assert(orig[event_idx as int] == Json::Obj(fields_before));
                    }
                    let mut fi: usize = 0;
                    let nf = fields.len();
                    let mut found = false;
                    while fi < nf && !found
                        invariant
                            fi <= nf,
                            nf == fields@.len(),
                            found ==> fi < nf && fields_before[fi as int].0 == "list"@,
                            forall|j: int|
                                0 <= j < fi ==> (#[trigger] fields_before[j]).0 != "list"@,
                        decreases nf - fi, (if found {
                            0int
                        } else {
                            1int
                        }),
                    {
                        proof {
                            crate::json::lemma_json_view_fields(fields@);
                        }
                        if crate::strutil::str_eq(fields[fi].0.as_str(), "list") {
                            found = true;
                        } else {
                            fi = fi + 1;
                        }
                    }
                    if found {
                        proof {
                            crate::translation_path::lemma_obj_get_at_pub(
                                fields_before,
                                "list"@,
                                fi as int,
                            );
                        }
                        let mut pair = fields.remove(fi);
                        let ghost list_before = pair.1@;
                        proof {
                            assert(list_before == fields_before[fi as int].1);
                            assert(crate::json::spec_obj_get(fields_before, "list"@) == Some(
                                list_before,
                            ));
                        }
                        let event_path = TranslationPath::new().append_index(event_idx);
                        proof {
                            assert(event_path@ =~= base);
                        }
                        let hr = self.page_parser.inject_to_list(
                            &mut pair.1,
                            translations,
                            &event_path,
                            options,
                        );
                        proof {
                            let models1 = crate::command::spec_parse_commands(list_before);
                            let down = spec_inject_down(
                                models1,
                                models1.len() - 1,
                                base.push(Seg::Key("list"@)),
                                um,
                                pm,
                                tm,
                                options,
                            );
                            crate::event_page::lemma_inject_down_frame_pub(
                                models1,
                                models1.len() - 1,
                                base.push(Seg::Key("list"@)),
                                um,
                                pm,
                                tm,
                                options,
                            );
                            assert(step_applied == down.1);
                            assert(hr.applied as int == if step_applied <= usize::MAX as int {
                                step_applied
                            } else {
                                usize::MAX as int
                            });
                        }
                        step_result.merge(hr);
                        let ghost list_after = pair.1@;
                        fields.insert(fi, pair);
                        proof {
                            crate::json::lemma_json_view_fields(fields@);
                            crate::translation_path::lemma_obj_set_at(
                                fields_before,
                                "list"@,
                                fi as int,
                                list_after,
                            );
                            assert(crate::json::json_view_fields(fields@)
                                =~= fields_before.update(fi as int, ("list"@, list_after)));
                            let models1 = crate::command::spec_parse_commands(list_before);
                            let down = spec_inject_down(
                                models1,
                                models1.len() - 1,
                                base.push(Seg::Key("list"@)),
                                um,
                                pm,
                                tm,
                                options,
                            );
                            if down.2 > 0 {
                                assert(crate::json::json_view_fields(fields@)
                                    =~= crate::translation_path::spec_obj_set(
                                    fields_before,
                                    "list"@,
                                    crate::command::spec_commands_to_json(down.0),
                                ));
                            } else {
                                assert(list_after == list_before);
                                assert(fields_before[fi as int] == ("list"@, list_before));
                                assert(crate::json::json_view_fields(fields@)
                                    =~= fields_before);
                            }
                        }
                    } else {
                        proof {
                            crate::translation_path::lemma_obj_get_absent_pub(
                                fields_before,
                                "list"@,
                            );
                            assert(step_applied == 0);
                        }
                    }
                    let rebuilt = JsonValue::Object(fields);
                    proof {
                        assert(rebuilt@ == spec_page_after(
                            page_before_view,
                            base,
                            um,
                            pm,
                            tm,
                            options,
                        ));
                    }
                    rebuilt
                },
                other => other,
            };
            let ghost page_view_after = page@;
            proof {
                assert(page_view_after == spec_page_after(
                    page_before_view,
                    base,
                    um,
                    pm,
                    tm,
                    options,
                ));
                if !(page_before_view is Obj) {
                    assert(step_applied == 0);
                }
            }
            elems.insert(event_idx, page);
            result.merge(step_result);
            proof {
                crate::json::lemma_json_view_list(elems@);
                applied_exact = applied_exact + step_applied;
                if tm.len() == 0 {
                    assert(crate::json::json_view_list(elems@) =~= orig);
                }
            }
            event_idx = event_idx + 1;
        }
        let rebuilt = JsonValue::Array(elems);
        proof {
            crate::json::lemma_json_view_list(elems@);
            assert(crate::json::json_view_list(elems@) =~= Seq::new(
                orig.len(),
                |e: int| spec_page_after(orig[e], seq![Seg::Index(e)], um, pm, tm, options),
            ));
            if tm.len() == 0 {
                assert(rebuilt@ == old(json)@);
            }
        }
        *json = rebuilt;
        result
    }

    /// Package an extraction result as a translation file.
    pub fn to_translation_file(&self, result: FileExtractionResult) -> (r: TranslationFile)
        ensures
            r.source_file@ == result.source_file@,
            r.units@.len() == result.units@.len(),
    {
        let mut file = TranslationFile::new(result.source_file.as_str());
        file.add_units(result.units);
        file
    }
}

impl Default for CommonEventsParser {
    /// A parser with the default handlers.
    fn default() -> (r: Self)
        ensures
            r.page_parser.handlers.plugin.user_models().len() == 0,
    {
        CommonEventsParser::new()
    }
}

} // verus!

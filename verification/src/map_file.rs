//! Adapter for the map file shape: an object with an `events` array whose
//! non-null entries carry `pages`, each page a command list; the map name
//! comes from `displayName`, falling back to the file stem.

use vstd::prelude::*;

use crate::context::ExtractionContext;
use crate::event_page::{
    spec_page_after, spec_pages_applied, spec_pages_pairs, EventPageParser,
    FileExtractionResult, FileInjectionResult,
};
use crate::handlers::plugin::ConfigModel;
use crate::json::{Json, JsonValue};
use crate::options::{ExtractionOptions, InjectionOptions};
use crate::strutil::{spec_ends_with, spec_starts_with, str_ends_with, str_eq, str_starts_with};
use crate::tmap::TranslationMap;
use crate::translation_path::{Seg, TranslationPath};
use crate::translation_unit::TranslationFile;

verus! {

/// The pairs a map's `events` array yields from event `e` on: each
/// element with a `pages` field contributes its pages' walks under
/// `events.<e>`.
/// The path of each unit a map's events array yields from event `e` on,
/// aligned index-for-index with its pairs: every path starts with
/// `events.<e>.pages`.
/// Whether an event's pages, when present as an array, all carry fully
/// parsing command lists; other shapes pass trivially.
pub open spec fn spec_map_event_parses(ev: Json) -> bool {
    match ev {
        Json::Obj(fields) => match crate::json::spec_obj_get(fields, "pages"@) {
            Some(Json::Arr(pages)) => forall|q: int|
                0 <= q < pages.len() ==> crate::event_page::spec_page_list_parses(
                    #[trigger] pages[q],
                ),
            _ => true,
        },
        _ => true,
    }
}

/// No extracted path is synthetic: every path the map projection emits
/// resolves to a value of the input tree, provided each event's page
/// lists are arrays of command objects, so that positions in the parsed
/// lists are positions in the input arrays.
pub proof fn lemma_map_paths_resolve(
    root: Json,
    events: Seq<Json>,
    e: int,
    user: Seq<ConfigModel>,
    predefined: Seq<ConfigModel>,
    options: &ExtractionOptions,
)
    requires
        crate::translation_path::spec_get(root, seq![Seg::Key("events"@)]) == Some(
            Json::Arr(events),
        ),
        0 <= e <= events.len(),
        forall|q: int| 0 <= q < events.len() ==> spec_map_event_parses(#[trigger] events[q]),
    ensures
        forall|k: int|
            0 <= k < spec_map_paths(events, e, user, predefined, options).len()
                ==> crate::translation_path::spec_get(
                root,
                #[trigger] spec_map_paths(events, e, user, predefined, options)[k],
            ) is Some,
    decreases events.len() - e,
{
    if e >= events.len() {
        return ;
    }
    lemma_map_paths_resolve(root, events, e + 1, user, predefined, options);
    match events[e] {
        Json::Obj(fields) => {
            match crate::json::spec_obj_get(fields, "pages"@) {
                Some(pv) => {
                    if pv is Arr {
                        let pages = pv->Arr_0;
                        let suffix = seq![Seg::Index(e), Seg::Key("pages"@)];
                        crate::translation_path::lemma_spec_get_append(
                            root,
                            seq![Seg::Key("events"@)],
                            suffix,
                        );
                        assert(suffix[0] == Seg::Index(e));
                        assert(suffix.drop_first() =~= seq![Seg::Key("pages"@)]);
                        assert(seq![Seg::Key("pages"@)][0] == Seg::Key("pages"@));
                        assert(seq![Seg::Key("pages"@)].drop_first() =~= Seq::<Seg>::empty());
                        assert(crate::translation_path::spec_get(pv, Seq::<Seg>::empty()) == Some(
                            pv,
                        ));
                        assert(crate::translation_path::spec_get(
                            events[e],
                            seq![Seg::Key("pages"@)],
                        ) == Some(pv));
                        assert(crate::translation_path::spec_get(Json::Arr(events), suffix)
                            == Some(pv));
                        let base = seq![Seg::Key("events"@)].push(Seg::Index(e));
                        assert(base.push(Seg::Key("pages"@)) =~= seq![Seg::Key("events"@)]
                            + suffix);
                        assert(crate::translation_path::spec_get(
                            root,
                            base.push(Seg::Key("pages"@)),
                        ) == Some(Json::Arr(pages)));
                        assert(spec_map_event_parses(events[e]));
                        crate::event_page::lemma_pages_paths_resolve(
                            root,
                            base,
                            pages,
                            0,
                            user,
                            predefined,
                            options,
                        );
                    }
                },
                None => {},
            }
        },
        _ => {},
    }
}

pub open spec fn spec_map_paths(
    events: Seq<Json>,
    e: int,
    user: Seq<ConfigModel>,
    predefined: Seq<ConfigModel>,
    options: &ExtractionOptions,
) -> Seq<Seq<Seg>>
    decreases events.len() - e,
{
    if e < 0 || e >= events.len() {
        Seq::empty()
    } else {
        let head = match events[e] {
            Json::Obj(fields) => match crate::json::spec_obj_get(fields, "pages"@) {
                Some(Json::Arr(pages)) => crate::event_page::spec_pages_paths(
                    pages,
                    0,
                    seq![Seg::Key("events"@)].push(Seg::Index(e)),
                    user,
                    predefined,
                    options,
                ),
                _ => Seq::empty(),
            },
            _ => Seq::empty(),
        };
        head + spec_map_paths(events, e + 1, user, predefined, options)
    }
}

/// The speaker of each unit a map's events array yields from event `e`
/// on, aligned index-for-index with its pairs: each page's walk starts
/// with no speaker.
pub open spec fn spec_map_speakers(
    events: Seq<Json>,
    e: int,
    user: Seq<ConfigModel>,
    predefined: Seq<ConfigModel>,
    options: &ExtractionOptions,
) -> Seq<Option<Seq<char>>>
    decreases events.len() - e,
{
    if e < 0 || e >= events.len() {
        Seq::empty()
    } else {
        let head = match events[e] {
            Json::Obj(fields) => match crate::json::spec_obj_get(fields, "pages"@) {
                Some(Json::Arr(pages)) => crate::event_page::spec_pages_speakers(
                    pages,
                    0,
                    seq![Seg::Key("events"@)].push(Seg::Index(e)),
                    user,
                    predefined,
                    options,
                ),
                _ => Seq::empty(),
            },
            _ => Seq::empty(),
        };
        head + spec_map_speakers(events, e + 1, user, predefined, options)
    }
}

pub open spec fn spec_map_pairs(
    events: Seq<Json>,
    e: int,
    user: Seq<ConfigModel>,
    predefined: Seq<ConfigModel>,
    options: &ExtractionOptions,
) -> Seq<(Seq<char>, Seq<char>)>
    decreases events.len() - e,
{
    if e < 0 || e >= events.len() {
        Seq::empty()
    } else {
        let head = match events[e] {
            Json::Obj(fields) => match crate::json::spec_obj_get(fields, "pages"@) {
                Some(Json::Arr(pages)) => spec_pages_pairs(
                    pages,
                    0,
                    seq![Seg::Key("events"@)].push(Seg::Index(e)),
                    user,
                    predefined,
                    options,
                ),
                _ => Seq::empty(),
            },
            _ => Seq::empty(),
        };
        head + spec_map_pairs(events, e + 1, user, predefined, options)
    }
}

/// One map event after injection: an event object whose `pages` field
/// holds an array has each page injected under `events.<e>.pages.<p>`;
/// everything else is unchanged.
pub open spec fn spec_map_event_after(
    ev: Json,
    e: int,
    user: Seq<ConfigModel>,
    predefined: Seq<ConfigModel>,
    tmap: Seq<(Seq<char>, Seq<char>)>,
    iopts: &InjectionOptions,
) -> Json {
    match ev {
        Json::Obj(fields) => match crate::json::spec_obj_get(fields, "pages"@) {
            Some(pv) => {
                let base = seq![Seg::Key("events"@)].push(Seg::Index(e));
                let newpv = match pv {
                    Json::Arr(pgs) => Json::Arr(
                        Seq::new(
                            pgs.len(),
                            |p: int|
                                spec_page_after(
                                    pgs[p],
                                    base.push(Seg::Key("pages"@)).push(Seg::Index(p)),
                                    user,
                                    predefined,
                                    tmap,
                                    iopts,
                                ),
                        ),
                    ),
                    _ => pv,
                };
                Json::Obj(crate::translation_path::spec_obj_set(fields, "pages"@, newpv))
            },
            None => ev,
        },
        _ => ev,
    }
}

/// The applied count one map event contributes.
pub open spec fn spec_map_event_applied(
    ev: Json,
    e: int,
    user: Seq<ConfigModel>,
    predefined: Seq<ConfigModel>,
    tmap: Seq<(Seq<char>, Seq<char>)>,
    iopts: &InjectionOptions,
) -> int {
    match ev {
        Json::Obj(fields) => match crate::json::spec_obj_get(fields, "pages"@) {
            Some(Json::Arr(pgs)) => spec_pages_applied(
                pgs,
                pgs.len() as int,
                seq![Seg::Key("events"@)].push(Seg::Index(e)),
                user,
                predefined,
                tmap,
                iopts,
            ),
            _ => 0,
        },
        _ => 0,
    }
}

/// The summed applied count of the first `e` map events.
pub open spec fn spec_map_applied(
    events: Seq<Json>,
    e: int,
    user: Seq<ConfigModel>,
    predefined: Seq<ConfigModel>,
    tmap: Seq<(Seq<char>, Seq<char>)>,
    iopts: &InjectionOptions,
) -> int
    decreases e,
{
    if e <= 0 {
        0
    } else {
        spec_map_applied(events, e - 1, user, predefined, tmap, iopts) + spec_map_event_applied(
            events[e - 1],
            e - 1,
            user,
            predefined,
            tmap,
            iopts,
        )
    }
}

/// Parser for map files.
#[derive(Debug)]
pub struct MapParser {
    /// The page parser used per event page.
    pub page_parser: EventPageParser,
}

impl MapParser {
    /// A parser with the default handlers.
    pub fn new() -> (r: Self)
        ensures
            r.page_parser.handlers.plugin.user_models().len() == 0,
    {
        MapParser { page_parser: EventPageParser::new() }
    }

    /// A parser with a custom page parser.
    pub fn with_page_parser(page_parser: EventPageParser) -> (r: Self)
        ensures
            r.page_parser == page_parser,
    {
        MapParser { page_parser }
    }

    /// Extract translation units from a map tree.  When the tree holds an
    /// `events` array, the units' ids and originals are exactly the
    /// concatenation of each event's pages' walks, so re-extraction
    /// yields the same ids in the same order; otherwise a warning and no
    /// units.
    #[verifier::loop_isolation(false)]
    #[verifier::rlimit(100)]
    pub fn extract(
        &self,
        json: &JsonValue,
        file_name: &str,
        options: &ExtractionOptions,
    ) -> (r: FileExtractionResult)
        ensures
            r.source_file@ == file_name@,
            ({
                let um = self.page_parser.handlers.plugin.user_models();
                let pm = self.page_parser.handlers.plugin.predefined_models();
                match json@ {
                    Json::Obj(fields) => match crate::json::spec_obj_get(fields, "events"@) {
                        Some(Json::Arr(events)) => {
                            &&& r.units@.map_values(
                                |u: crate::translation_unit::TranslationUnit| (u.id@, u.original@),
                            ) == spec_map_pairs(events, 0, um, pm, options)
                            &&& r.units@.map_values(
                                |u: crate::translation_unit::TranslationUnit| u.path@,
                            ) == spec_map_paths(events, 0, um, pm, options)
                            &&& r.units@.map_values(
                                |u: crate::translation_unit::TranslationUnit|
                                    crate::event_page::spec_speaker_view(u.speaker),
                            ) == spec_map_speakers(events, 0, um, pm, options)
                        },
                        _ => r.units@.len() == 0,
                    },
                    _ => r.units@.len() == 0,
                }
            }),
            forall|k: int|
                0 <= k < r.units@.len() ==> (#[trigger] r.units@[k]).path@.len() >= 6
                    && r.units@[k].path@[0] == Seg::Key("events"@) && r.units@[k].path@[1] is Index
                    && r.units@[k].path@[2] == Seg::Key("pages"@) && r.units@[k].path@[3] is Index
                    && r.units@[k].path@[4] == Seg::Key("list"@),
            forall|k: int|
                0 <= k < r.units@.len() ==> ((#[trigger] r.units@[k]).context.map_name
                    matches Some(m) && m@ == spec_map_display_name(json@, file_name@)) && (
                r.units@[k].context.file_name matches Some(f) && f@ == file_name@) && (
                r.units@[k].context.page_index matches Some(p) && r.units@[k].path@[3]
                    == Seg::Index(p as int)),
    {
        let ghost um = self.page_parser.handlers.plugin.user_models();
        let ghost pm = self.page_parser.handlers.plugin.predefined_models();
        let mut result = FileExtractionResult::new(file_name);
        // the map name, for unit contexts
        let map_name: Option<String> = match json.get_key("displayName") {
            Some(v) => match v.as_str() {
                Some(s) => {
                    if s.as_str().unicode_len() > 0 {
                        Some(s.clone())
                    } else {
                        Some(file_stem(file_name))
                    }
                },
                None => Some(file_stem(file_name)),
            },
            None => Some(file_stem(file_name)),
        };
        proof {
            assert(map_name matches Some(m) && m@ == spec_map_display_name(json@, file_name@));
        }
        let events = match json.get_key("events") {
            Some(v) => match v.as_array() {
                Some(arr) => arr,
                None => {
                    result.add_warning("the map file does not hold an events array");
                    return result;
                },
            },
            None => {
                result.add_warning("the map file does not hold an events array");
                return result;
            },
        };
        let ghost models = crate::json::json_view_list(events@);
        proof {
            crate::json::lemma_json_view_list(events@);
        }
        let ghost total = spec_map_pairs(models, 0, um, pm, options);
        let ghost ptotal = spec_map_paths(models, 0, um, pm, options);
        let ghost stotal = spec_map_speakers(models, 0, um, pm, options);
        let mut event_idx: usize = 0;
        let n = events.len();
        proof {
            assert(result.units@.map_values(
                |u: crate::translation_unit::TranslationUnit| (u.id@, u.original@),
            ) =~= Seq::<(Seq<char>, Seq<char>)>::empty());
            assert(result.units@.map_values(
                |u: crate::translation_unit::TranslationUnit| u.path@,
            ) =~= Seq::<Seq<Seg>>::empty());
            assert(result.units@.map_values(
                |u: crate::translation_unit::TranslationUnit|
                    crate::event_page::spec_speaker_view(u.speaker),
            ) =~= Seq::<Option<Seq<char>>>::empty());
            assert(Seq::<Seq<Seg>>::empty() + ptotal =~= ptotal);
            assert(Seq::<Option<Seq<char>>>::empty() + stotal =~= stotal);
        }
        while event_idx < n
            invariant
                event_idx <= n,
                result.source_file@ == file_name@,
                result.units@.map_values(
                    |u: crate::translation_unit::TranslationUnit| (u.id@, u.original@),
                ) + spec_map_pairs(models, event_idx as int, um, pm, options) == total,
                result.units@.map_values(
                    |u: crate::translation_unit::TranslationUnit| u.path@,
                ) + spec_map_paths(models, event_idx as int, um, pm, options) == ptotal,
                result.units@.map_values(
                    |u: crate::translation_unit::TranslationUnit|
                        crate::event_page::spec_speaker_view(u.speaker),
                ) + spec_map_speakers(models, event_idx as int, um, pm, options) == stotal,
                forall|k: int|
                    0 <= k < result.units@.len() ==> (#[trigger] result.units@[k]).path@.len() >= 6
                        && result.units@[k].path@[0] == Seg::Key("events"@)
                        && result.units@[k].path@[1] is Index && result.units@[k].path@[2]
                        == Seg::Key("pages"@) && result.units@[k].path@[3] is Index
                        && result.units@[k].path@[4] == Seg::Key("list"@),
                forall|k: int|
                    0 <= k < result.units@.len() ==> ((#[trigger] result.units@[k]).context.map_name
                        matches Some(m) && m@ == spec_map_display_name(json@, file_name@)) && (
                    result.units@[k].context.file_name matches Some(f) && f@ == file_name@) && (
                    result.units@[k].context.page_index matches Some(p)
                        && result.units@[k].path@[3] == Seg::Index(p as int)),
            decreases n - event_idx,
        {
            let ghost done_before = result.units@.map_values(
                |u: crate::translation_unit::TranslationUnit| (u.id@, u.original@),
            );
            let ghost done_paths = result.units@.map_values(
                |u: crate::translation_unit::TranslationUnit| u.path@,
            );
            let ghost done_sp = result.units@.map_values(
                |u: crate::translation_unit::TranslationUnit|
                    crate::event_page::spec_speaker_view(u.speaker),
            );
            let event = &events[event_idx];
            let ghost head = (match models[event_idx as int] {
                Json::Obj(fields) => match crate::json::spec_obj_get(fields, "pages"@) {
                    Some(Json::Arr(pages)) => spec_pages_pairs(
                        pages,
                        0,
                        seq![Seg::Key("events"@)].push(Seg::Index(event_idx as int)),
                        um,
                        pm,
                        options,
                    ),
                    _ => Seq::<(Seq<char>, Seq<char>)>::empty(),
                },
                _ => Seq::<(Seq<char>, Seq<char>)>::empty(),
            });
            match event.get_key("pages") {
                Some(pages) => {
                    let event_id: usize = match event.get_key("id") {
                        Some(idv) => match idv.as_i64() {
                            Some(iv) => {
                                if 0 <= iv && iv <= usize::MAX as i64 {
                                    iv as usize
                                } else {
                                    event_idx
                                }
                            },
                            None => event_idx,
                        },
                        None => event_idx,
                    };
                    let mut base_context = ExtractionContext::new(file_name).with_event_id(
                        event_id,
                    ).with_max_preceding_lines(options.max_preceding_lines);
                    match &map_name {
                        Some(name) => {
                            base_context = base_context.with_map_name(name.as_str());
                        },
                        None => {},
                    }
                    match event.get_key("name") {
                        Some(namev) => match namev.as_str() {
                            Some(name) => {
                                base_context = base_context.with_event_name(name.as_str());
                            },
                            None => {},
                        },
                        None => {},
                    }
                    let event_path = TranslationPath::new().append_key("events").append_index(
                        event_idx,
                    );
                    proof {
                        assert(event_path@ =~= seq![Seg::Key("events"@)].push(
                            Seg::Index(event_idx as int),
                        ));
                    }
                    let units = self.page_parser.extract_from_pages(
                        pages,
                        &event_path,
                        &base_context,
                        options,
                    );
                    let ghost added = units@.map_values(
                        |u: crate::translation_unit::TranslationUnit| (u.id@, u.original@),
                    );
                    let ghost padd = units@.map_values(
                        |u: crate::translation_unit::TranslationUnit| u.path@,
                    );
                    let ghost sadd = units@.map_values(
                        |u: crate::translation_unit::TranslationUnit|
                            crate::event_page::spec_speaker_view(u.speaker),
                    );
                    let ghost nu = units@;
                    let ghost prev_units = result.units@;
                    proof {
                        assert(added =~= head);
                    }
                    result.add_units(units);
                    proof {
                        assert(result.units@.map_values(
                            |u: crate::translation_unit::TranslationUnit| u.path@,
                        ) =~= done_paths + padd);
                        assert(result.units@.map_values(
                            |u: crate::translation_unit::TranslationUnit|
                                crate::event_page::spec_speaker_view(u.speaker),
                        ) =~= done_sp + sadd);
                        assert forall|k: int|
                            0 <= k < result.units@.len() implies (#[trigger] result.units@[k]).path@.len()
                            >= 6 && result.units@[k].path@[0] == Seg::Key("events"@)
                            && result.units@[k].path@[1] is Index && result.units@[k].path@[2]
                            == Seg::Key("pages"@) && result.units@[k].path@[3] is Index
                            && result.units@[k].path@[4] == Seg::Key("list"@) by {
                            if k >= prev_units.len() {
                                let u = nu[k - prev_units.len()];
                                assert(result.units@[k] == u);
                                assert(u.path@.take(event_path@.len() + 1 as int) == event_path@.push(
                                    Seg::Key("pages"@),
                                ));
                                assert(u.path@[0] == u.path@.take(3)[0]);
                                assert(u.path@[1] == u.path@.take(3)[1]);
                                assert(u.path@[2] == u.path@.take(3)[2]);
                            } else {
                                assert(result.units@[k] == prev_units[k]);
                            }
                        };
                        assert forall|k: int|
                            0 <= k < result.units@.len() implies ((#[trigger] result.units@[k]).context.map_name
                            matches Some(m) && m@ == spec_map_display_name(json@, file_name@))
                            && (result.units@[k].context.file_name matches Some(f) && f@
                            == file_name@) && (result.units@[k].context.page_index matches Some(p)
                            && result.units@[k].path@[3] == Seg::Index(p as int)) by {
                            if k >= prev_units.len() {
                                let u = nu[k - prev_units.len()];
                                assert(result.units@[k] == u);
                                assert(u.context.map_name == base_context.map_name);
                            } else {
                                assert(result.units@[k] == prev_units[k]);
                            }
                        };
                        assert(result.units@.map_values(
                            |u: crate::translation_unit::TranslationUnit| (u.id@, u.original@),
                        ) =~= done_before + added);
                    }
                },
                None => {
                    proof {
                        assert(head =~= Seq::<(Seq<char>, Seq<char>)>::empty());
                    }
                },
            }
            proof {
                let done_now = result.units@.map_values(
                    |u: crate::translation_unit::TranslationUnit| (u.id@, u.original@),
                );
                assert(done_now + spec_map_pairs(models, event_idx as int + 1, um, pm, options)
                    =~= done_before + spec_map_pairs(models, event_idx as int, um, pm, options));
                assert(result.units@.map_values(
                    |u: crate::translation_unit::TranslationUnit| u.path@,
                ) + spec_map_paths(models, event_idx as int + 1, um, pm, options) =~= done_paths
                    + spec_map_paths(models, event_idx as int, um, pm, options));
                assert(result.units@.map_values(
                    |u: crate::translation_unit::TranslationUnit|
                        crate::event_page::spec_speaker_view(u.speaker),
                ) + spec_map_speakers(models, event_idx as int + 1, um, pm, options) =~= done_sp
                    + spec_map_speakers(models, event_idx as int, um, pm, options));
            }
            event_idx = event_idx + 1;
        }
        proof {
            assert(spec_map_pairs(models, n as int, um, pm, options) =~= Seq::<
                (Seq<char>, Seq<char>),
            >::empty());
            let done = result.units@.map_values(
                |u: crate::translation_unit::TranslationUnit| (u.id@, u.original@),
            );
            assert(done + Seq::<(Seq<char>, Seq<char>)>::empty() =~= done);
            assert(spec_map_paths(models, n as int, um, pm, options) =~= Seq::<Seq<Seg>>::empty());
            let dpaths = result.units@.map_values(
                |u: crate::translation_unit::TranslationUnit| u.path@,
            );
            assert(dpaths + Seq::<Seq<Seg>>::empty() =~= dpaths);
            assert(spec_map_speakers(models, n as int, um, pm, options) =~= Seq::<
                Option<Seq<char>>,
            >::empty());
            let dsp = result.units@.map_values(
                |u: crate::translation_unit::TranslationUnit|
                    crate::event_page::spec_speaker_view(u.speaker),
            );
            assert(dsp + Seq::<Option<Seq<char>>>::empty() =~= dsp);
        }
        result
    }

    /// Inject translations into a map tree, event by event and page by
    /// page, under the sub-paths `events.<e>.pages.<p>`.  With an empty
    /// translation map the tree is unchanged and nothing is applied.
    #[verifier::loop_isolation(false)]
    #[verifier::rlimit(100)]
    pub fn inject(
        &self,
        json: &mut JsonValue,
        translations: &TranslationMap,
        options: &InjectionOptions,
    ) -> (r: FileInjectionResult)
        ensures
            ({
                let um = self.page_parser.handlers.plugin.user_models();
                let pm = self.page_parser.handlers.plugin.predefined_models();
                match old(json)@ {
                    Json::Obj(top) => match crate::json::spec_obj_get(top, "events"@) {
                        Some(Json::Arr(events)) => {
                            let total = spec_map_applied(
                                events,
                                events.len() as int,
                                um,
                                pm,
                                translations@,
                                options,
                            );
                            &&& final(json)@ == Json::Obj(
                                crate::translation_path::spec_obj_set(
                                    top,
                                    "events"@,
                                    Json::Arr(
                                        Seq::new(
                                            events.len(),
                                            |e: int|
                                                spec_map_event_after(
                                                    events[e],
                                                    e,
                                                    um,
                                                    pm,
                                                    translations@,
                                                    options,
                                                ),
                                        ),
                                    ),
                                ),
                            )
                            &&& r.applied as int == if total <= usize::MAX as int {
                                total
                            } else {
                                usize::MAX as int
                            }
                        },
                        _ => final(json)@ == old(json)@ && r.applied == 0 && !r.modified,
                    },
                    _ => final(json)@ == old(json)@ && r.applied == 0 && !r.modified,
                }
            }),
            translations@.len() == 0 ==> final(json)@ == old(json)@ && r.applied == 0
                && !r.modified,
    {
        let ghost um = self.page_parser.handlers.plugin.user_models();
        let ghost pm = self.page_parser.handlers.plugin.predefined_models();
        let ghost tm = translations@;
        let mut result = FileInjectionResult::new();
        let mut owned = JsonValue::Null;
        core::mem::swap(json, &mut owned);
        let mut top_fields = match owned {
            JsonValue::Object(fields) => fields,
            other => {
                result.warnings.push(String::from_str("the map file is not an object"));
                *json = other;
                return result;
            },
        };
        let ghost top_before = crate::json::json_view_fields(top_fields@);
        proof {
            crate::json::lemma_json_view_fields(top_fields@);
        }
        // find the events field
        let mut efi: usize = 0;
        let ntf = top_fields.len();
        let mut found = false;
        while efi < ntf && !found
            invariant
                efi <= ntf,
                ntf == top_fields@.len(),
                found ==> efi < ntf && top_before[efi as int].0 == "events"@,
                forall|j: int| 0 <= j < efi ==> (#[trigger] top_before[j]).0 != "events"@,
            decreases ntf - efi, (if found {
                0int
            } else {
                1int
            }),
        {
            proof {
                crate::json::lemma_json_view_fields(top_fields@);
            }
            if str_eq(top_fields[efi].0.as_str(), "events") {
                found = true;
            } else {
                efi = efi + 1;
            }
        }
        if !found {
            proof {
                crate::translation_path::lemma_obj_get_absent_pub(top_before, "events"@);
            }
            result.warnings.push(
                String::from_str("the map file does not hold an events array"),
            );
            let rebuilt = JsonValue::Object(top_fields);
            proof {
                assert(rebuilt@ == old(json)@);
            }
            *json = rebuilt;
            return result;
        }
        proof {
            crate::translation_path::lemma_obj_get_at_pub(top_before, "events"@, efi as int);
        }
        let mut events_pair = top_fields.remove(efi);
        let ghost events_view_before = events_pair.1@;
        proof {
            assert(events_view_before == top_before[efi as int].1);
        }
        let mut elems = match events_pair.1 {
            JsonValue::Array(elems) => elems,
            other => {
                events_pair.1 = other;
                top_fields.insert(efi, events_pair);
                result.warnings.push(
                    String::from_str("the map file does not hold an events array"),
                );
                let rebuilt = JsonValue::Object(top_fields);
                proof {
                    crate::json::lemma_json_view_fields(top_fields@);
                    assert(crate::json::json_view_fields(top_fields@) =~= top_before);
                    assert(rebuilt@ == old(json)@);
                }
                *json = rebuilt;
                return result;
            },
        };
        let ghost orig = crate::json::json_view_list(elems@);
        proof {
            crate::json::lemma_json_view_list(elems@);
            assert(events_view_before == Json::Arr(orig));
        }
        let ghost total = spec_map_applied(orig, orig.len() as int, um, pm, tm, options);
        let ghost mut applied_exact: int = 0;
        let mut event_idx: usize = 0;
        let n = elems.len();
        while event_idx < n
            invariant
                event_idx <= n,
                elems@.len() == n,
                n == orig.len(),
                applied_exact == spec_map_applied(orig, event_idx as int, um, pm, tm, options),
                applied_exact >= 0,
                result.applied as int == if applied_exact <= usize::MAX as int {
                    applied_exact
                } else {
                    usize::MAX as int
                },
                forall|j: int|
                    0 <= j < event_idx ==> crate::json::json_view(#[trigger] elems@[j])
                        == spec_map_event_after(orig[j], j, um, pm, tm, options),
                forall|j: int|
                    event_idx <= j < n ==> crate::json::json_view(#[trigger] elems@[j])
                        == orig[j],
                tm.len() == 0 ==> crate::json::json_view_list(elems@) == orig && result.applied
                    == 0 && !result.modified,
            decreases n - event_idx,
        {
            let ghost ev_before = orig[event_idx as int];
            proof {
                crate::json::lemma_json_view_list(elems@);
            }
            let event = elems.remove(event_idx);
            proof {
                assert(event@ == orig[event_idx as int]);
            }
            let ghost step_applied = spec_map_event_applied(
                orig[event_idx as int],
                event_idx as int,
                um,
                pm,
                tm,
                options,
            );
            let mut step_result = crate::context::InjectionResult::new();
            let event = match event {
                JsonValue::Object(mut fields) => {
                    let ghost fields_before = crate::json::json_view_fields(fields@);
                    proof {
                        crate::json::lemma_json_view_fields(fields@);
                        assert(ev_before == Json::Obj(fields_before));
                    }
                    let mut fi: usize = 0;
                    let nf = fields.len();
                    let mut pfound = false;
                    while fi < nf && !pfound
                        invariant
                            fi <= nf,
                            nf == fields@.len(),
                            pfound ==> fi < nf && fields_before[fi as int].0 == "pages"@,
                            forall|j: int|
                                0 <= j < fi ==> (#[trigger] fields_before[j]).0 != "pages"@,
                        decreases nf - fi, (if pfound {
                            0int
                        } else {
                            1int
                        }),
                    {
                        proof {
                            crate::json::lemma_json_view_fields(fields@);
                        }
                        if str_eq(fields[fi].0.as_str(), "pages") {
                            pfound = true;
                        } else {
                            fi = fi + 1;
                        }
                    }
                    if pfound {
                        proof {
                            crate::translation_path::lemma_obj_get_at_pub(
                                fields_before,
                                "pages"@,
                                fi as int,
                            );
                        }
                        let mut pair = fields.remove(fi);
                        let ghost pages_before = pair.1@;
                        proof {
                            assert(pages_before == fields_before[fi as int].1);
                            assert(crate::json::spec_obj_get(fields_before, "pages"@) == Some(
                                pages_before,
                            ));
                        }
                        let event_path = TranslationPath::new().append_key(
                            "events",
                        ).append_index(event_idx);
                        proof {
                            assert(event_path@ =~= seq![Seg::Key("events"@)].push(
                                Seg::Index(event_idx as int),
                            ));
                        }
                        let base_context = ExtractionContext::new("map");
                        let hr = self.page_parser.inject_to_pages(
                            &mut pair.1,
                            translations,
                            &event_path,
                            &base_context,
                            options,
                        );
                        proof {
                            assert(hr.applied as int == if step_applied <= usize::MAX as int {
                                step_applied
                            } else {
                                usize::MAX as int
                            });
                            if step_applied < 0 {
                                lemma_map_event_applied_nonneg(
                                    ev_before,
                                    event_idx as int,
                                    um,
                                    pm,
                                    tm,
                                    options,
                                );
                            }
                        }
                        step_result.merge(hr);
                        let ghost pages_after = pair.1@;
                        fields.insert(fi, pair);
                        proof {
                            crate::json::lemma_json_view_fields(fields@);
                            crate::translation_path::lemma_obj_set_at(
                                fields_before,
                                "pages"@,
                                fi as int,
                                pages_after,
                            );
                            if tm.len() == 0 {
                                assert(pages_after == pages_before);
                                assert(fields_before[fi as int] == ("pages"@, pages_before));
                                assert(fields_before.update(
                                    fi as int,
                                    ("pages"@, pages_after),
                                ) =~= fields_before);
                            }
                            assert(crate::json::json_view_fields(fields@)
                                =~= fields_before.update(fi as int, ("pages"@, pages_after)));
                            if !(pages_before is Arr) {
                                assert(pages_after == pages_before);
                                assert(fields_before[fi as int] == ("pages"@, pages_before));
                                assert(crate::json::json_view_fields(fields@)
                                    =~= crate::translation_path::spec_obj_set(
                                    fields_before,
                                    "pages"@,
                                    pages_before,
                                ));
                            } else {
                                assert(crate::json::json_view_fields(fields@)
                                    =~= crate::translation_path::spec_obj_set(
                                    fields_before,
                                    "pages"@,
                                    pages_after,
                                ));
                            }
                        }
                    } else {
                        proof {
                            crate::translation_path::lemma_obj_get_absent_pub(
                                fields_before,
                                "pages"@,
                            );
                            assert(step_applied == 0);
                        }
                    }
                    let rebuilt = JsonValue::Object(fields);
                    proof {
                        assert(rebuilt@ == spec_map_event_after(
                            ev_before,
                            event_idx as int,
                            um,
                            pm,
                            tm,
                            options,
                        ));
                    }
                    rebuilt
                },
                other => other,
            };
            let ghost ev_after = event@;
            proof {
                assert(ev_after == spec_map_event_after(
                    ev_before,
                    event_idx as int,
                    um,
                    pm,
                    tm,
                    options,
                ));
                if !(ev_before is Obj) {
                    assert(step_applied == 0);
                }
                if tm.len() == 0 {
                    assert(ev_after == ev_before);
                }
            }
            elems.insert(event_idx, event);
            result.merge(step_result);
            proof {
                crate::json::lemma_json_view_list(elems@);
                lemma_map_event_applied_nonneg(ev_before, event_idx as int, um, pm, tm, options);
                applied_exact = applied_exact + step_applied;
                if tm.len() == 0 {
                    assert(crate::json::json_view_list(elems@) =~= orig);
                }
            }
            event_idx = event_idx + 1;
        }
        let rebuilt_events = JsonValue::Array(elems);
        proof {
            crate::json::lemma_json_view_list(elems@);
            assert(crate::json::json_view_list(elems@) =~= Seq::new(
                orig.len(),
                |e: int| spec_map_event_after(orig[e], e, um, pm, tm, options),
            ));
        }
        events_pair.1 = rebuilt_events;
        top_fields.insert(efi, events_pair);
        let rebuilt = JsonValue::Object(top_fields);
        proof {
            crate::json::lemma_json_view_fields(top_fields@);
            crate::translation_path::lemma_obj_set_at(
                top_before,
                "events"@,
                efi as int,
                rebuilt_events@,
            );
            assert(crate::json::json_view_fields(top_fields@) =~= top_before.update(
                efi as int,
                ("events"@, rebuilt_events@),
            ));
            assert(crate::json::json_view_fields(top_fields@)
                =~= crate::translation_path::spec_obj_set(
                top_before,
                "events"@,
                rebuilt_events@,
            ));
            if tm.len() == 0 {
                assert(rebuilt_events@ == events_view_before);
                assert(top_before[efi as int] == ("events"@, events_view_before));
                assert(crate::json::json_view_fields(top_fields@) =~= top_before);
                assert(rebuilt@ == old(json)@);
            }
        }
        *json = rebuilt;
        result
    }

    /// Package an extraction result as a translation file.
    pub fn to_translation_file(&self, result: FileExtractionResult) -> (r: TranslationFile)
        ensures
            r.source_file@ == result.source_file@,
            r.units@.len() == result.units@.len(),
    {
        let mut file = TranslationFile::new(result.source_file.as_str());
        file.add_units(result.units);
        file
    }
}

/// The per-event applied count never goes negative.
proof fn lemma_map_event_applied_nonneg(
    ev: Json,
    e: int,
    user: Seq<ConfigModel>,
    predefined: Seq<ConfigModel>,
    tmap: Seq<(Seq<char>, Seq<char>)>,
    iopts: &InjectionOptions,
)
    ensures
        spec_map_event_applied(ev, e, user, predefined, tmap, iopts) >= 0,
{
    match ev {
        Json::Obj(fields) => match crate::json::spec_obj_get(fields, "pages"@) {
            Some(pv) => match pv {
                Json::Arr(pgs) => {
                    lemma_pages_applied_nonneg(
                        pgs,
                        pgs.len() as int,
                        seq![Seg::Key("events"@)].push(Seg::Index(e)),
                        user,
                        predefined,
                        tmap,
                        iopts,
                    );
                },
                _ => {},
            },
            None => {},
        },
        _ => {},
    }
}

/// The pages applied sum never goes negative.
proof fn lemma_pages_applied_nonneg(
    pages: Seq<Json>,
    p: int,
    path: Seq<Seg>,
    user: Seq<ConfigModel>,
    predefined: Seq<ConfigModel>,
    tmap: Seq<(Seq<char>, Seq<char>)>,
    iopts: &InjectionOptions,
)
    ensures
        spec_pages_applied(pages, p, path, user, predefined, tmap, iopts) >= 0,
    decreases p,
{
    if p > 0 {
        lemma_pages_applied_nonneg(pages, p - 1, path, user, predefined, tmap, iopts);
        let pg = pages[p - 1];
        match pg {
            Json::Obj(fields) => match crate::json::spec_obj_get(fields, "list"@) {
                Some(l) => {
                    let models = crate::command::spec_parse_commands(l);
                    crate::event_page::lemma_inject_down_frame_pub(
                        models,
                        models.len() - 1,
                        path.push(Seg::Key("pages"@)).push(Seg::Index(p - 1)).push(
                            Seg::Key("list"@),
                        ),
                        user,
                        predefined,
                        tmap,
                        iopts,
                    );
                },
                None => {},
            },
            _ => {},
        }
    }
}

impl Default for MapParser {
    /// A parser with the default handlers.
    fn default() -> (r: Self)
        ensures
            r.page_parser.handlers.plugin.user_models().len() == 0,
    {
        MapParser::new()
    }
}

/// The index after scanning a name from position `i` for its last `.`,
/// starting from the candidate `dot`.
pub open spec fn spec_last_dot_from(name: Seq<char>, i: int, dot: int) -> int
    decreases name.len() - i when 0 <= i <= name.len()
{
    if i < 0 || i >= name.len() {
        dot
    } else {
        spec_last_dot_from(
            name,
            i + 1,
            if name[i] == '.' {
                i
            } else {
                dot
            },
        )
    }
}

/// The file name without its final `.`-separated extension; a name
/// without a dot, or with one only at the front, is kept whole.
pub open spec fn spec_file_stem(name: Seq<char>) -> Seq<char> {
    let dot = spec_last_dot_from(name, 0, name.len() as int);
    if dot == 0 {
        name
    } else {
        name.take(dot)
    }
}

/// The map name an extraction stamps on a unit's context: the map's
/// non-empty `displayName`, or else the file name's stem.
pub open spec fn spec_map_display_name(j: Json, file_name: Seq<char>) -> Seq<char> {
    match j {
        Json::Obj(fields) => match crate::json::spec_obj_get(fields, "displayName"@) {
            Some(Json::Str(s)) => if s.len() > 0 {
                s
            } else {
                spec_file_stem(file_name)
            },
            _ => spec_file_stem(file_name),
        },
        _ => spec_file_stem(file_name),
    }
}

/// The file name without its final `.`-separated extension.
fn file_stem(name: &str) -> (r: String)
    ensures
        r@ == spec_file_stem(name@),
{
    let n = name.unicode_len();
    let mut dot: usize = n;
    let mut i: usize = 0;
    while i < n
        invariant
            i <= n,
            n == name@.len(),
            dot <= n,
            spec_last_dot_from(name@, i as int, dot as int) == spec_last_dot_from(
                name@,
                0,
                n as int,
            ),
        decreases n - i,
    {
        if name.get_char(i) == '.' {
            dot = i;
        }
        i = i + 1;
    }
    if dot == 0 {
        return String::from_str(name);
    }
    let r = String::from_str(name.substring_char(0, dot));
    proof {
        assert(r@ =~= spec_file_stem(name@));
    }
    r
}

/// Whether a file name is a map data file: it starts with `Map`, ends
/// with `.json`, and is not the map index file.
pub fn is_map_file(name: &str) -> (r: bool)
    ensures
        r == (spec_starts_with(name@, "Map"@) && spec_ends_with(name@, ".json"@) && name@
            != "MapInfos.json"@),
{
    str_starts_with(name, "Map") && str_ends_with(name, ".json") && !str_eq(name, "MapInfos.json")
}

} // verus!

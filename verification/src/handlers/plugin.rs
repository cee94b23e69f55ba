//! Handler for plugin commands (357): a registry of per-plugin
//! configurations names path patterns into the command's arguments value,
//! and every string leaf whose dotted path matches a pattern becomes a
//! unit.

use vstd::prelude::*;

use crate::command::EventCommand;
use crate::context::{ExtractionContext, ExtractionResult, InjectionResult};
use crate::event_code::EventCode;
use crate::handlers::{generate_unit_id, spec_position_unit_id};
use crate::json::{Json, JsonValue};
use crate::options::{ExtractionOptions, InjectionOptions};
use crate::strutil::{
    append_str, replace_char, spec_decimal, spec_replace_char, str_eq, string_push_char,
    trim_str, usize_to_string,
};
use crate::tmap::TranslationMap;
use crate::translation_path::{
    spec_compile_pattern, spec_pattern_matches, spec_split_dots, PatSeg, PathPattern, Seg,
    TranslationPath,
};
use crate::translation_unit::TranslationUnit;

verus! {

broadcast use vstd::seq::axiom_seq_index_decreases;

/// Configuration for a single field of a plugin.
#[derive(Debug)]
pub struct PluginFieldConfig {
    /// Path pattern into the arguments value.
    pub pattern: String,
    /// Human-readable description.
    pub description: Option<String>,
    /// Whether this field should be translated.
    pub translatable: bool,
}

/// Configuration for extracting fields from one plugin.
#[derive(Debug)]
pub struct PluginExtractionConfig {
    /// Plugin name.
    pub plugin_name: String,
    /// The fields to extract.
    pub extraction_paths: Vec<PluginFieldConfig>,
    /// Whether this configuration is active.
    pub enabled: bool,
    /// Description of the plugin.
    pub description: Option<String>,
}

impl PluginExtractionConfig {
    /// A fresh enabled configuration with no fields.
    pub fn new(plugin_name: &str) -> (r: Self)
        ensures
            r.plugin_name@ == plugin_name@,
            r.extraction_paths@.len() == 0,
            r.enabled,
    {
        PluginExtractionConfig {
            plugin_name: String::from_str(plugin_name),
            extraction_paths: Vec::new(),
            enabled: true,
            description: None,
        }
    }

    /// This configuration with one more translatable field pattern.
    pub fn add_path(self, pattern: &str, description: Option<String>) -> (r: Self)
        ensures
            r.plugin_name == self.plugin_name,
            r.enabled == self.enabled,
            r.extraction_paths@.len() == self.extraction_paths@.len() + 1,
            r.extraction_paths@.last().pattern@ == pattern@,
            r.extraction_paths@.last().translatable,
            r.extraction_paths@.take(self.extraction_paths@.len() as int)
                == self.extraction_paths@,
    {
        let mut extraction_paths = self.extraction_paths;
        let ghost before = extraction_paths@;
        extraction_paths.push(
            PluginFieldConfig { pattern: String::from_str(pattern), description, translatable: true },
        );
        let r = PluginExtractionConfig {
            plugin_name: self.plugin_name,
            extraction_paths,
            enabled: self.enabled,
            description: self.description,
        };
        proof {
            assert(r.extraction_paths@.take(before.len() as int) =~= before);
        }
        r
    }
}

/// Model of one field configuration.
pub struct FieldModel {
    /// The pattern text.
    pub pattern: Seq<char>,
    /// Whether the field is translated.
    pub translatable: bool,
}

/// Model of one plugin configuration.
pub struct ConfigModel {
    /// The plugin name.
    pub name: Seq<char>,
    /// The field configurations, in order.
    pub fields: Seq<FieldModel>,
    /// Whether the configuration is active.
    pub enabled: bool,
}

impl View for PluginFieldConfig {
    type V = FieldModel;

    open spec fn view(&self) -> FieldModel {
        FieldModel { pattern: self.pattern@, translatable: self.translatable }
    }
}

impl View for PluginExtractionConfig {
    type V = ConfigModel;

    open spec fn view(&self) -> ConfigModel {
        ConfigModel {
            name: self.plugin_name@,
            fields: Seq::new(self.extraction_paths@.len(), |i: int| self.extraction_paths@[i]@),
            enabled: self.enabled,
        }
    }
}

/// First configuration of a given name.
pub open spec fn spec_find_config(cfgs: Seq<ConfigModel>, name: Seq<char>) -> Option<ConfigModel>
    decreases cfgs.len(),
{
    if cfgs.len() == 0 {
        None
    } else if cfgs[0].name == name {
        Some(cfgs[0])
    } else {
        spec_find_config(cfgs.drop_first(), name)
    }
}

/// The configuration in force for a plugin name: the first user one, else
/// the first predefined one.
pub open spec fn spec_config_for(
    user: Seq<ConfigModel>,
    predefined: Seq<ConfigModel>,
    name: Seq<char>,
) -> Option<ConfigModel> {
    match spec_find_config(user, name) {
        Some(c) => Some(c),
        None => spec_find_config(predefined, name),
    }
}

/// The string matches a pattern finds in an arguments value: each pair is
/// the dotted path and the string at it, parents before children, fields
/// and elements in order.
pub open spec fn spec_arg_matches(v: Json, pats: Seq<PatSeg>, cur: Seq<char>) -> Seq<
    (Seq<char>, Seq<char>),
>
    decreases v, 0int,
{
    match v {
        Json::Obj(fields) => spec_arg_fields(fields, pats, cur),
        Json::Arr(elems) => spec_arg_elems(elems, pats, cur, 0),
        _ => Seq::empty(),
    }
}

/// Matches under an object's fields.
pub open spec fn spec_arg_fields(
    fields: Seq<(Seq<char>, Json)>,
    pats: Seq<PatSeg>,
    cur: Seq<char>,
) -> Seq<(Seq<char>, Seq<char>)>
    decreases fields, 1int,
{
    if fields.len() == 0 {
        Seq::empty()
    } else {
        let key = fields[0].0;
        let val = fields[0].1;
        let p = if cur.len() == 0 {
            key
        } else {
            cur + seq!['.'] + key
        };
        let head = if spec_pattern_matches(pats, spec_split_dots(p)) && val is Str {
            seq![(p, val->Str_0)]
        } else {
            Seq::empty()
        };
        head + spec_arg_matches(val, pats, p) + spec_arg_fields(
            fields.subrange(1, fields.len() as int),
            pats,
            cur,
        )
    }
}

/// Matches under an array's elements, numbering from `idx`.
pub open spec fn spec_arg_elems(
    elems: Seq<Json>,
    pats: Seq<PatSeg>,
    cur: Seq<char>,
    idx: int,
) -> Seq<(Seq<char>, Seq<char>)>
    decreases elems, 1int,
{
    if elems.len() == 0 {
        Seq::empty()
    } else {
        let p = if cur.len() == 0 {
            spec_decimal(idx as nat)
        } else {
            cur + seq!['.'] + spec_decimal(idx as nat)
        };
        let head = if spec_pattern_matches(pats, spec_split_dots(p)) && elems[0] is Str {
            seq![(p, elems[0]->Str_0)]
        } else {
            Seq::empty()
        };
        head + spec_arg_matches(elems[0], pats, p) + spec_arg_elems(
            elems.subrange(1, elems.len() as int),
            pats,
            cur,
            idx + 1,
        )
    }
}

/// The unit id for one matched plugin field: the position id, then
/// `_plugin_`, the plugin name and the field path, dots replaced by
/// underscores.
pub open spec fn spec_plugin_unit_id(
    path: Seq<Seg>,
    index: int,
    plugin: Seq<char>,
    field: Seq<char>,
) -> Seq<char> {
    spec_position_unit_id(path, index, Seq::empty()) + "_plugin_"@ + spec_replace_char(
        plugin,
        '.',
        '_',
    ) + "_"@ + spec_replace_char(field, '.', '_')
}

/// The (id, original) pairs one field pattern's matches yield, with
/// trimming applied and empty texts skipped unless empties are kept.
pub open spec fn spec_field_pairs(
    matches: Seq<(Seq<char>, Seq<char>)>,
    path: Seq<Seg>,
    index: int,
    plugin: Seq<char>,
    options: &ExtractionOptions,
) -> Seq<(Seq<char>, Seq<char>)>
    decreases matches.len(),
{
    if matches.len() == 0 {
        Seq::empty()
    } else {
        let text = if options.trim_whitespace {
            crate::strutil::spec_trim(matches[0].1)
        } else {
            matches[0].1
        };
        let head = if text.len() == 0 && !options.include_empty {
            Seq::empty()
        } else {
            seq![(spec_plugin_unit_id(path, index, plugin, matches[0].0), text)]
        };
        head + spec_field_pairs(matches.drop_first(), path, index, plugin, options)
    }
}

/// The (id, original) pairs a whole configuration yields over an
/// arguments value: the translatable fields in order, each field's
/// matches in document order.
pub open spec fn spec_config_pairs(
    fields: Seq<FieldModel>,
    args: Json,
    path: Seq<Seg>,
    index: int,
    plugin: Seq<char>,
    options: &ExtractionOptions,
) -> Seq<(Seq<char>, Seq<char>)>
    decreases fields.len(),
{
    if fields.len() == 0 {
        Seq::empty()
    } else {
        let head = if fields[0].translatable {
            spec_field_pairs(
                spec_arg_matches(args, spec_compile_pattern(fields[0].pattern), Seq::empty()),
                path,
                index,
                plugin,
                options,
            )
        } else {
            Seq::empty()
        };
        head + spec_config_pairs(fields.drop_first(), args, path, index, plugin, options)
    }
}

/// The `field:` tag of each unit a match list yields, aligned
/// index-for-index with its pairs: the matched field path under the
/// `field:` prefix.
pub open spec fn spec_field_tags(
    matches: Seq<(Seq<char>, Seq<char>)>,
    options: &ExtractionOptions,
) -> Seq<Seq<char>>
    decreases matches.len(),
{
    if matches.len() == 0 {
        Seq::empty()
    } else {
        let text = if options.trim_whitespace {
            crate::strutil::spec_trim(matches[0].1)
        } else {
            matches[0].1
        };
        let head: Seq<Seq<char>> = if text.len() == 0 && !options.include_empty {
            Seq::empty()
        } else {
            seq!["field:"@ + matches[0].0]
        };
        head + spec_field_tags(matches.drop_first(), options)
    }
}

/// The `field:` tag of each unit a whole configuration yields, aligned
/// index-for-index with its pairs.
pub open spec fn spec_config_tags(
    fields: Seq<FieldModel>,
    args: Json,
    options: &ExtractionOptions,
) -> Seq<Seq<char>>
    decreases fields.len(),
{
    if fields.len() == 0 {
        Seq::empty()
    } else {
        let head = if fields[0].translatable {
            spec_field_tags(
                spec_arg_matches(args, spec_compile_pattern(fields[0].pattern), Seq::empty()),
                options,
            )
        } else {
            Seq::empty()
        };
        head + spec_config_tags(fields.drop_first(), args, options)
    }
}

/// The `field:` tag of each unit a plugin command yields, aligned
/// index-for-index with its pairs.
pub open spec fn spec_plugin_tags(
    user: Seq<ConfigModel>,
    predefined: Seq<ConfigModel>,
    c: crate::command::CmdModel,
    options: &ExtractionOptions,
) -> Seq<Seq<char>> {
    if !options.extract_plugins || !spec_has_plugin_data(c) {
        Seq::empty()
    } else {
        match spec_config_for(user, predefined, c.params[0]->Str_0) {
            Some(cfg) => if cfg.enabled {
                spec_config_tags(cfg.fields, c.params[3], options)
            } else {
                Seq::empty()
            },
            None => Seq::empty(),
        }
    }
}

/// Whether a command carries plugin data: a 357 with at least four
/// parameters whose first three are strings.
pub open spec fn spec_has_plugin_data(c: crate::command::CmdModel) -> bool {
    c.code == 357 && c.params.len() >= 4 && c.params[0] is Str && c.params[1] is Str
        && c.params[2] is Str
}

/// The (id, original) pairs a plugin command yields under a handler's
/// configurations, or nothing for unknown or disabled plugins.
pub open spec fn spec_plugin_pairs(
    user: Seq<ConfigModel>,
    predefined: Seq<ConfigModel>,
    c: crate::command::CmdModel,
    path: Seq<Seg>,
    index: int,
    options: &ExtractionOptions,
) -> Seq<(Seq<char>, Seq<char>)> {
    if !options.extract_plugins || !spec_has_plugin_data(c) {
        Seq::empty()
    } else {
        match spec_config_for(user, predefined, c.params[0]->Str_0) {
            Some(cfg) => if cfg.enabled {
                spec_config_pairs(
                    cfg.fields,
                    c.params[3],
                    path,
                    index,
                    c.params[0]->Str_0,
                    options,
                )
            } else {
                Seq::empty()
            },
            None => Seq::empty(),
        }
    }
}

/// The replacements one field pattern's matches yield under a translation
/// map: each matched path whose plugin unit id has a translation, paired
/// with that translation, in match order.
pub open spec fn spec_field_replacements(
    matches: Seq<(Seq<char>, Seq<char>)>,
    tmap: Seq<(Seq<char>, Seq<char>)>,
    path: Seq<Seg>,
    index: int,
    plugin: Seq<char>,
) -> Seq<(Seq<char>, Seq<char>)>
    decreases matches.len(),
{
    if matches.len() == 0 {
        Seq::empty()
    } else {
        let head = match crate::tmap::spec_assoc_get(
            tmap,
            spec_plugin_unit_id(path, index, plugin, matches[0].0),
        ) {
            Some(t) => seq![(matches[0].0, t)],
            None => Seq::<(Seq<char>, Seq<char>)>::empty(),
        };
        head + spec_field_replacements(matches.drop_first(), tmap, path, index, plugin)
    }
}

/// The replacements a whole configuration yields over an arguments value:
/// the translatable fields in order, each field's matched paths filtered
/// by the translation map.  The matched path set is computed against the
/// original arguments; replacements only swap string leaves for string
/// leaves, so the matches are the same whether computed before or between
/// the writes.
pub open spec fn spec_plugin_replacements(
    fields: Seq<FieldModel>,
    args: Json,
    tmap: Seq<(Seq<char>, Seq<char>)>,
    path: Seq<Seg>,
    index: int,
    plugin: Seq<char>,
) -> Seq<(Seq<char>, Seq<char>)>
    decreases fields.len(),
{
    if fields.len() == 0 {
        Seq::empty()
    } else {
        let head = if fields[0].translatable {
            spec_field_replacements(
                spec_arg_matches(args, spec_compile_pattern(fields[0].pattern), Seq::empty()),
                tmap,
                path,
                index,
                plugin,
            )
        } else {
            Seq::<(Seq<char>, Seq<char>)>::empty()
        };
        head + spec_plugin_replacements(fields.drop_first(), args, tmap, path, index, plugin)
    }
}

/// Applying replacements in order: each dotted path is parsed and written
/// through the path-set specification; a path that does not parse or does
/// not resolve is skipped.  The result is the final arguments value and
/// the number of writes that took.
pub open spec fn spec_apply_replacements(args: Json, rs: Seq<(Seq<char>, Seq<char>)>) -> (
    Json,
    int,
)
    decreases rs.len(),
{
    if rs.len() == 0 {
        (args, 0)
    } else {
        let step = match crate::translation_path::spec_parse_path(rs[0].0) {
            Some(segs) => match crate::translation_path::spec_set(
                args,
                segs,
                Json::Str(rs[0].1),
            ) {
                Some(newargs) => (newargs, 1int),
                None => (args, 0int),
            },
            None => (args, 0int),
        };
        let rest = spec_apply_replacements(step.0, rs.drop_first());
        (rest.0, step.1 + rest.1)
    }
}

/// Applying replacements never counts negatively.
pub proof fn lemma_apply_replacements_nonneg(args: Json, rs: Seq<(Seq<char>, Seq<char>)>)
    ensures
        spec_apply_replacements(args, rs).1 >= 0,
    decreases rs.len(),
{
    if rs.len() > 0 {
        let head = match crate::translation_path::spec_parse_path(rs[0].0) {
            Some(segs) => match crate::translation_path::spec_set(
                args,
                segs,
                Json::Str(rs[0].1),
            ) {
                Some(newargs) => (newargs, 1int),
                None => (args, 0int),
            },
            None => (args, 0int),
        };
        lemma_apply_replacements_nonneg(head.0, rs.drop_first());
    }
}

/// An empty translation map yields no replacements.
pub proof fn lemma_plugin_replacements_empty(
    fields: Seq<FieldModel>,
    args: Json,
    tmap: Seq<(Seq<char>, Seq<char>)>,
    path: Seq<Seg>,
    index: int,
    plugin: Seq<char>,
)
    requires
        tmap.len() == 0,
    ensures
        spec_plugin_replacements(fields, args, tmap, path, index, plugin).len() == 0,
        spec_apply_replacements(
            args,
            spec_plugin_replacements(fields, args, tmap, path, index, plugin),
        ).1 == 0,
    decreases fields.len(),
{
    broadcast use crate::tmap::lemma_empty_map_get;

    if fields.len() > 0 {
        lemma_plugin_replacements_empty(fields.drop_first(), args, tmap, path, index, plugin);
        if fields[0].translatable {
            lemma_field_replacements_empty(
                spec_arg_matches(args, spec_compile_pattern(fields[0].pattern), Seq::empty()),
                tmap,
                path,
                index,
                plugin,
            );
        }
        assert(spec_plugin_replacements(fields, args, tmap, path, index, plugin)
            =~= Seq::<(Seq<char>, Seq<char>)>::empty());
    }
}

/// An empty translation map filters every match away.
proof fn lemma_field_replacements_empty(
    matches: Seq<(Seq<char>, Seq<char>)>,
    tmap: Seq<(Seq<char>, Seq<char>)>,
    path: Seq<Seg>,
    index: int,
    plugin: Seq<char>,
)
    requires
        tmap.len() == 0,
    ensures
        spec_field_replacements(matches, tmap, path, index, plugin).len() == 0,
    decreases matches.len(),
{
    broadcast use crate::tmap::lemma_empty_map_get;

    if matches.len() > 0 {
        lemma_field_replacements_empty(matches.drop_first(), tmap, path, index, plugin);
    }
}

/// The built-in plugin configurations: three notification plugins, each
/// with a single translatable `message` field.
pub open spec fn spec_default_configs() -> Seq<ConfigModel> {
    seq![
        ConfigModel {
            name: "TorigoyaMZ_NotifyMessage"@,
            fields: seq![FieldModel { pattern: "message"@, translatable: true }],
            enabled: true,
        },
        ConfigModel {
            name: "NotifyMessage_Battle"@,
            fields: seq![FieldModel { pattern: "message"@, translatable: true }],
            enabled: true,
        },
        ConfigModel {
            name: "BattleLogOutput"@,
            fields: seq![FieldModel { pattern: "message"@, translatable: true }],
            enabled: true,
        },
    ]
}

/// Handler for the plugin command (357), with predefined and
/// user-supplied configurations; user configurations take precedence.
#[derive(Debug)]
pub struct PluginCommandHandler {
    /// Built-in plugin configurations.
    pub predefined_configs: Vec<PluginExtractionConfig>,
    /// User-supplied plugin configurations.
    pub user_configs: Vec<PluginExtractionConfig>,
}

impl PluginCommandHandler {
    /// A handler with the built-in configurations and no user ones.
    pub fn new() -> (r: Self)
        ensures
            r.user_models().len() == 0,
            r.predefined_models() == spec_default_configs(),
    {
        let mut predefined_configs: Vec<PluginExtractionConfig> = Vec::new();
        predefined_configs.push(
            PluginExtractionConfig::new("TorigoyaMZ_NotifyMessage").add_path(
                "message",
                Some(String::from_str("Notification message")),
            ),
        );
        predefined_configs.push(
            PluginExtractionConfig::new("NotifyMessage_Battle").add_path(
                "message",
                Some(String::from_str("Battle notification message")),
            ),
        );
        predefined_configs.push(
            PluginExtractionConfig::new("BattleLogOutput").add_path(
                "message",
                Some(String::from_str("Battle log message")),
            ),
        );
        let r = PluginCommandHandler { predefined_configs, user_configs: Vec::new() };
        proof {
            assert(r.predefined_models()[0].fields =~= spec_default_configs()[0].fields);
            assert(r.predefined_models()[1].fields =~= spec_default_configs()[1].fields);
            assert(r.predefined_models()[2].fields =~= spec_default_configs()[2].fields);
            assert(r.predefined_models() =~= spec_default_configs());
            assert(r.user_models() =~= Seq::<ConfigModel>::empty());
        }
        r
    }

    /// Add a user configuration; it shadows a predefined one of the same
    /// name.
    pub fn add_user_config(&mut self, config: PluginExtractionConfig)
        ensures
            final(self).user_configs@ == old(self).user_configs@.push(config),
            final(self).predefined_configs == old(self).predefined_configs,
    {
        self.user_configs.push(config);
    }

    /// The models of the user configurations.
    pub open spec fn user_models(&self) -> Seq<ConfigModel> {
        Seq::new(self.user_configs@.len(), |i: int| self.user_configs@[i]@)
    }

    /// The models of the predefined configurations.
    pub open spec fn predefined_models(&self) -> Seq<ConfigModel> {
        Seq::new(self.predefined_configs@.len(), |i: int| self.predefined_configs@[i]@)
    }

    /// The configuration for a plugin: the first user one of the name,
    /// else the first predefined one.
    #[verifier::loop_isolation(false)]
    pub fn get_config(&self, plugin_name: &str) -> (r: Option<&PluginExtractionConfig>)
        ensures
            match r {
                Some(c) => spec_config_for(
                    self.user_models(),
                    self.predefined_models(),
                    plugin_name@,
                ) == Some(c@),
                None => spec_config_for(
                    self.user_models(),
                    self.predefined_models(),
                    plugin_name@,
                ) is None,
            },
    {
        let ghost um = self.user_models();
        let ghost pm = self.predefined_models();
        proof {
            assert(um.skip(0) =~= um);
        }
        let mut i: usize = 0;
        let n = self.user_configs.len();
        while i < n
            invariant
                i <= n,
                n == self.user_configs@.len(),
                spec_find_config(um.skip(i as int), plugin_name@) == spec_find_config(
                    um,
                    plugin_name@,
                ),
            decreases n - i,
        {
            proof {
                assert(um.skip(i as int)[0] == um[i as int]);
                assert(um.skip(i as int).drop_first() =~= um.skip(i as int + 1));
            }
            if str_eq(self.user_configs[i].plugin_name.as_str(), plugin_name) {
                return Some(&self.user_configs[i]);
            }
            i = i + 1;
        }
        proof {
            assert(um.skip(n as int) =~= Seq::<ConfigModel>::empty());
            assert(pm.skip(0) =~= pm);
        }
        let mut i: usize = 0;
        let n = self.predefined_configs.len();
        while i < n
            invariant
                i <= n,
                n == self.predefined_configs@.len(),
                spec_find_config(um, plugin_name@) is None,
                spec_find_config(pm.skip(i as int), plugin_name@) == spec_find_config(
                    pm,
                    plugin_name@,
                ),
            decreases n - i,
        {
            proof {
                assert(pm.skip(i as int)[0] == pm[i as int]);
                assert(pm.skip(i as int).drop_first() =~= pm.skip(i as int + 1));
            }
            if str_eq(self.predefined_configs[i].plugin_name.as_str(), plugin_name) {
                return Some(&self.predefined_configs[i]);
            }
            i = i + 1;
        }
        proof {
            assert(pm.skip(n as int) =~= Seq::<ConfigModel>::empty());
        }
        None
    }

    /// Collect the string leaves under `v` whose dotted path matches the
    /// pattern, in document order, parents first.
    #[verifier::loop_isolation(false)]
    #[verifier::rlimit(100)]
    fn collect_matches(
        v: &JsonValue,
        pattern: &PathPattern,
        cur: &str,
        out: &mut Vec<(String, String)>,
    )
        ensures
            final(out)@.map_values(|p: (String, String)| (p.0@, p.1@)) == old(out)@.map_values(
                |p: (String, String)| (p.0@, p.1@),
            ) + spec_arg_matches(v@, pattern.segs_spec(), cur@),
        decreases v,
    {
        let ghost pats = pattern.segs_spec();
        let ghost target_add = spec_arg_matches(v@, pats, cur@);
        match v {
            JsonValue::Object(fields) => {
                proof {
                    crate::json::lemma_json_view_fields(fields@);
                }
                let mut i: usize = 0;
                let n = fields.len();
                let ghost fmodels = crate::json::json_view_fields(fields@);
                proof {
                    assert(fmodels.subrange(0, fmodels.len() as int) =~= fmodels);
                }
                while i < n
                    invariant
                        i <= n,
                        out@.map_values(|p: (String, String)| (p.0@, p.1@)) + spec_arg_fields(
                            fmodels.subrange(i as int, fmodels.len() as int),
                            pats,
                            cur@,
                        ) == old(out)@.map_values(|p: (String, String)| (p.0@, p.1@))
                            + spec_arg_fields(fmodels, pats, cur@),
                    decreases n - i,
                {
                    let ghost start_views = out@.map_values(|p: (String, String)| (p.0@, p.1@));
                    let ghost rest = fmodels.subrange(i as int, fmodels.len() as int);
                    proof {
                        assert(rest[0] == fmodels[i as int]);
                        assert(rest.subrange(1, rest.len() as int) =~= fmodels.subrange(
                            i as int + 1,
                            fmodels.len() as int,
                        ));
                    }
                    let key = &fields[i].0;
                    let val = &fields[i].1;
                    let new_path: String = if cur.unicode_len() == 0 {
                        key.clone()
                    } else {
                        let mut p = String::from_str(cur);
                        string_push_char(&mut p, '.');
                        append_str(&mut p, key.as_str());
                        p
                    };
                    let ghost pspec = if cur@.len() == 0 {
                        fmodels[i as int].0
                    } else {
                        cur@ + seq!['.'] + fmodels[i as int].0
                    };
                    proof {
                        assert(new_path@ =~= pspec);
                    }
                    let ghost head = (if spec_pattern_matches(pats, spec_split_dots(pspec))
                        && fmodels[i as int].1 is Str {
                        seq![(pspec, fmodels[i as int].1->Str_0)]
                    } else {
                        Seq::<(Seq<char>, Seq<char>)>::empty()
                    });
                    if pattern.matches(new_path.as_str()) {
                        match val.as_str() {
                            Some(text) => {
                                out.push((new_path.clone(), text.clone()));
                            },
                            None => {},
                        }
                    }
                    proof {
                        assert(out@.map_values(|p: (String, String)| (p.0@, p.1@))
                            =~= start_views + head);
                    }
                    proof {
                        assert(decreases_to!(*v => *fields));
                        assert(decreases_to!(*fields => fields@));
                        assert(decreases_to!(fields@ => fields@[i as int]));
                        assert(decreases_to!(fields@[i as int] => fields@[i as int].1));
                    }
                    Self::collect_matches(val, pattern, new_path.as_str(), out);
                    proof {
                        assert(crate::json::json_view(fields@[i as int].1) == fmodels[
                            i as int
                        ].1);
                        assert(out@.map_values(|p: (String, String)| (p.0@, p.1@))
                            =~= start_views + head + spec_arg_matches(
                            fmodels[i as int].1,
                            pats,
                            pspec,
                        ));
                        assert(spec_arg_fields(rest, pats, cur@) == head + spec_arg_matches(
                            fmodels[i as int].1,
                            pats,
                            pspec,
                        ) + spec_arg_fields(
                            fmodels.subrange(i as int + 1, fmodels.len() as int),
                            pats,
                            cur@,
                        ));
                        assert(out@.map_values(|p: (String, String)| (p.0@, p.1@))
                            + spec_arg_fields(
                            fmodels.subrange(i as int + 1, fmodels.len() as int),
                            pats,
                            cur@,
                        ) =~= start_views + spec_arg_fields(rest, pats, cur@));
                    }
                    i = i + 1;
                }
                proof {
                    assert(fmodels.subrange(n as int, fmodels.len() as int)
                        =~= Seq::<(Seq<char>, Json)>::empty());
                    let done = out@.map_values(|p: (String, String)| (p.0@, p.1@));
                    assert(done + Seq::<(Seq<char>, Seq<char>)>::empty() =~= done);
                }
            },
            JsonValue::Array(elems) => {
                proof {
                    crate::json::lemma_json_view_list(elems@);
                }
                let mut i: usize = 0;
                let n = elems.len();
                let ghost emodels = crate::json::json_view_list(elems@);
                proof {
                    assert(emodels.subrange(0, emodels.len() as int) =~= emodels);
                }
                while i < n
                    invariant
                        i <= n,
                        out@.map_values(|p: (String, String)| (p.0@, p.1@)) + spec_arg_elems(
                            emodels.subrange(i as int, emodels.len() as int),
                            pats,
                            cur@,
                            i as int,
                        ) == old(out)@.map_values(|p: (String, String)| (p.0@, p.1@))
                            + spec_arg_elems(emodels, pats, cur@, 0),
                    decreases n - i,
                {
                    let ghost start_views = out@.map_values(|p: (String, String)| (p.0@, p.1@));
                    let ghost rest = emodels.subrange(i as int, emodels.len() as int);
                    proof {
                        assert(rest[0] == emodels[i as int]);
                        assert(rest.subrange(1, rest.len() as int) =~= emodels.subrange(
                            i as int + 1,
                            emodels.len() as int,
                        ));
                    }
                    let val = &elems[i];
                    let idx_str = usize_to_string(i);
                    let new_path: String = if cur.unicode_len() == 0 {
                        idx_str
                    } else {
                        let mut p = String::from_str(cur);
                        string_push_char(&mut p, '.');
                        append_str(&mut p, idx_str.as_str());
                        p
                    };
                    let ghost pspec = if cur@.len() == 0 {
                        spec_decimal(i as nat)
                    } else {
                        cur@ + seq!['.'] + spec_decimal(i as nat)
                    };
                    proof {
                        assert(new_path@ =~= pspec);
                    }
                    let ghost head = (if spec_pattern_matches(pats, spec_split_dots(pspec))
                        && emodels[i as int] is Str {
                        seq![(pspec, emodels[i as int]->Str_0)]
                    } else {
                        Seq::<(Seq<char>, Seq<char>)>::empty()
                    });
                    if pattern.matches(new_path.as_str()) {
                        match val.as_str() {
                            Some(text) => {
                                out.push((new_path.clone(), text.clone()));
                            },
                            None => {},
                        }
                    }
                    proof {
                        assert(out@.map_values(|p: (String, String)| (p.0@, p.1@))
                            =~= start_views + head);
                    }
                    proof {
                        assert(decreases_to!(*v => *elems));
                        assert(decreases_to!(*elems => elems@));
                        assert(decreases_to!(elems@ => elems@[i as int]));
                    }
                    Self::collect_matches(val, pattern, new_path.as_str(), out);
                    proof {
                        assert(crate::json::json_view(elems@[i as int]) == emodels[i as int]);
                        assert(out@.map_values(|p: (String, String)| (p.0@, p.1@))
                            =~= start_views + head + spec_arg_matches(
                            emodels[i as int],
                            pats,
                            pspec,
                        ));
                        assert(spec_arg_elems(rest, pats, cur@, i as int) == head
                            + spec_arg_matches(emodels[i as int], pats, pspec) + spec_arg_elems(
                            emodels.subrange(i as int + 1, emodels.len() as int),
                            pats,
                            cur@,
                            i as int + 1,
                        ));
                        assert(out@.map_values(|p: (String, String)| (p.0@, p.1@))
                            + spec_arg_elems(
                            emodels.subrange(i as int + 1, emodels.len() as int),
                            pats,
                            cur@,
                            i as int + 1,
                        ) =~= start_views + spec_arg_elems(rest, pats, cur@, i as int));
                    }
                    i = i + 1;
                }
                proof {
                    assert(emodels.subrange(n as int, emodels.len() as int)
                        =~= Seq::<Json>::empty());
                    let done = out@.map_values(|p: (String, String)| (p.0@, p.1@));
                    assert(done + Seq::<(Seq<char>, Seq<char>)>::empty() =~= done);
                }
            },
            _ => {
                proof {
                    let done = out@.map_values(|p: (String, String)| (p.0@, p.1@));
                    assert(done + Seq::<(Seq<char>, Seq<char>)>::empty() =~= done);
                }
            },
        }
    }

    /// Extract units for every configured, translatable field pattern of
    /// the plugin named by the command: one unit per matching string
    /// leaf, ids carrying the plugin name and the field's dotted path.
    /// An unknown or disabled plugin, a command without plugin data, or
    /// plugin extraction switched off produce no units and no warnings;
    /// one command is always consumed.
    #[verifier::loop_isolation(false)]
    #[verifier::rlimit(100)]
    pub fn extract(
        &self,
        commands: &Vec<EventCommand>,
        index: usize,
        path_prefix: &TranslationPath,
        context: &ExtractionContext,
        options: &ExtractionOptions,
    ) -> (r: ExtractionResult)
        requires
            index < commands@.len(),
        ensures
            r.consumed == 1,
            r.speaker_update is None,
            r.add_to_preceding is None,
            ({
                let pairs = spec_plugin_pairs(
                    self.user_models(),
                    self.predefined_models(),
                    commands@[index as int]@,
                    path_prefix@,
                    index as int,
                    options,
                );
                &&& r.units@.len() == pairs.len()
                &&& pairs.len() > 0 ==> r.units@.map_values(
                    |u: TranslationUnit| u.context.tags@[1]@,
                ) == spec_plugin_tags(
                    self.user_models(),
                    self.predefined_models(),
                    commands@[index as int]@,
                    options,
                )
                &&& forall|j: int|
                    0 <= j < pairs.len() ==> (#[trigger] r.units@[j]).context.tags@.len() == 2
                        && r.units@[j].context.tags@[0]@ == "plugin:"@ + commands@[index as int]@.params[0]->Str_0
                &&& forall|j: int|
                    0 <= j < pairs.len() ==> (#[trigger] r.units@[j]).id@ == pairs[j].0
                        && r.units@[j].original@ == pairs[j].1 && r.units@[j].code
                        == EventCode::PluginCommand && r.units@[j].speaker is None
                        && r.units@[j].path@ == path_prefix@.push(Seg::Index(index as int)).push(Seg::Key("parameters"@)).push(
                            Seg::Index(3),
                        ) && r.units@[j].context.map_name == context.map_name
                        && r.units@[j].context.page_index == Some(context.page_index)
                        && (r.units@[j].context.file_name matches Some(f) && f@
                        == context.file_name@)
            }),
    {
        proof {
            reveal_strlit("");
        }
        let ghost c = commands@[index as int]@;
        if !options.extract_plugins {
            return ExtractionResult::empty();
        }
        let cmd = &commands[index];
        proof {
            crate::json::lemma_json_view_list(cmd.parameters@);
        }
        if cmd.code != 357 {
            return ExtractionResult::empty();
        }
        if cmd.parameters.len() < 4 {
            return ExtractionResult::empty();
        }
        let plugin_name = match cmd.get_string_param(0) {
            Some(s) => s.clone(),
            None => {
                return ExtractionResult::empty();
            },
        };
        if cmd.get_string_param(1).is_none() {
            return ExtractionResult::empty();
        }
        if cmd.get_string_param(2).is_none() {
            return ExtractionResult::empty();
        }
        let config = match self.get_config(plugin_name.as_str()) {
            Some(cf) => cf,
            None => {
                return ExtractionResult::empty();
            },
        };
        if !config.enabled {
            return ExtractionResult::empty();
        }
        let args: &JsonValue = &cmd.parameters[3];
        let ghost fmodels = config@.fields;
        let ghost plugin = c.params[0]->Str_0;
        let ghost total = spec_plugin_pairs(
            self.user_models(),
            self.predefined_models(),
            c,
            path_prefix@,
            index as int,
            options,
        );
        let ghost ttotal = spec_config_tags(fmodels, args@, options);
        proof {
            assert(args@ == c.params[3]);
            assert(total == spec_config_pairs(
                fmodels,
                args@,
                path_prefix@,
                index as int,
                plugin,
                options,
            ));
            assert(ttotal == spec_plugin_tags(
                self.user_models(),
                self.predefined_models(),
                c,
                options,
            ));
        }
        let base_id = generate_unit_id(path_prefix, index, "");
        let escaped_plugin = replace_char(plugin_name.as_str(), '.', '_');
        let mut units: Vec<TranslationUnit> = Vec::new();
        let mut f: usize = 0;
        let nf = config.extraction_paths.len();
        proof {
            assert(fmodels.skip(0) =~= fmodels);
            assert(units@.map_values(|u: TranslationUnit| (u.id@, u.original@))
                =~= Seq::<(Seq<char>, Seq<char>)>::empty());
            assert(units@.map_values(|u: TranslationUnit| u.context.tags@[1]@) =~= Seq::<
                Seq<char>,
            >::empty());
            assert(Seq::<Seq<char>>::empty() + ttotal =~= ttotal);
        }
        while f < nf
            invariant
                f <= nf,
                nf == config.extraction_paths@.len(),
                fmodels == config@.fields,
                units@.map_values(|u: TranslationUnit| (u.id@, u.original@)) + spec_config_pairs(
                    fmodels.skip(f as int),
                    args@,
                    path_prefix@,
                    index as int,
                    plugin,
                    options,
                ) == total,
                units@.map_values(|u: TranslationUnit| u.context.tags@[1]@) + spec_config_tags(
                    fmodels.skip(f as int),
                    args@,
                    options,
                ) == ttotal,
                forall|j: int|
                    0 <= j < units@.len() ==> (#[trigger] units@[j]).code
                        == EventCode::PluginCommand && units@[j].speaker is None
                        && units@[j].path@ == path_prefix@.push(Seg::Index(index as int)).push(Seg::Key("parameters"@)).push(
                            Seg::Index(3),
                        ) && units@[j].context.map_name == context.map_name
                        && units@[j].context.page_index == Some(context.page_index)
                        && (units@[j].context.file_name matches Some(f) && f@
                        == context.file_name@) && units@[j].context.tags@.len() == 2
                        && units@[j].context.tags@[0]@ == "plugin:"@ + plugin,
            decreases nf - f,
        {
            let ghost frest = fmodels.skip(f as int);
            proof {
                assert(frest[0] == fmodels[f as int]);
                assert(fmodels[f as int] == config.extraction_paths@[f as int]@);
                assert(frest.drop_first() =~= fmodels.skip(f as int + 1));
            }
            let field = &config.extraction_paths[f];
            if field.translatable {
                let pattern = PathPattern::new(field.pattern.as_str());
                let mut matches: Vec<(String, String)> = Vec::new();
                Self::collect_matches(args, &pattern, "", &mut matches);
                let ghost mviews = matches@.map_values(|p: (String, String)| (p.0@, p.1@));
                proof {
                    assert(""@ =~= Seq::<char>::empty());
                    assert(mviews == spec_arg_matches(
                        args@,
                        spec_compile_pattern(fmodels[f as int].pattern),
                        Seq::empty(),
                    ));
                    assert(mviews.skip(0) =~= mviews);
                }
                let mut m: usize = 0;
                let nm = matches.len();
                while m < nm
                    invariant
                        m <= nm,
                        nm == matches@.len(),
                        mviews == matches@.map_values(|p: (String, String)| (p.0@, p.1@)),
                        units@.map_values(|u: TranslationUnit| (u.id@, u.original@))
                            + spec_field_pairs(
                            mviews.skip(m as int),
                            path_prefix@,
                            index as int,
                            plugin,
                            options,
                        ) + spec_config_pairs(
                            fmodels.skip(f as int + 1),
                            args@,
                            path_prefix@,
                            index as int,
                            plugin,
                            options,
                        ) == total,
                        units@.map_values(|u: TranslationUnit| u.context.tags@[1]@)
                            + spec_field_tags(mviews.skip(m as int), options) + spec_config_tags(
                            fmodels.skip(f as int + 1),
                            args@,
                            options,
                        ) == ttotal,
                        forall|j: int|
                            0 <= j < units@.len() ==> (#[trigger] units@[j]).code
                                == EventCode::PluginCommand && units@[j].speaker is None
                                && units@[j].path@ == path_prefix@.push(Seg::Index(index as int)).push(Seg::Key("parameters"@)).push(
                            Seg::Index(3),
                        ) && units@[j].context.map_name == context.map_name
                                && units@[j].context.page_index == Some(context.page_index)
                                && (units@[j].context.file_name matches Some(f) && f@
                                == context.file_name@) && units@[j].context.tags@.len() == 2
                                && units@[j].context.tags@[0]@ == "plugin:"@ + plugin,
                    decreases nm - m,
                {
                    let ghost mrest = mviews.skip(m as int);
                    proof {
                        assert(mrest[0] == mviews[m as int]);
                        assert(mrest.drop_first() =~= mviews.skip(m as int + 1));
                    }
                    let field_path = &matches[m].0;
                    let raw_text = &matches[m].1;
                    let text: String = if options.trim_whitespace {
                        String::from_str(trim_str(raw_text.as_str()))
                    } else {
                        raw_text.clone()
                    };
                    let ghost done_before = units@.map_values(
                        |u: TranslationUnit| (u.id@, u.original@),
                    );
                    let ghost done_tags = units@.map_values(
                        |u: TranslationUnit| u.context.tags@[1]@,
                    );
                    if !(text.as_str().unicode_len() == 0 && !options.include_empty) {
                        let mut unit_id = base_id.clone();
                        append_str(&mut unit_id, "_plugin_");
                        append_str(&mut unit_id, escaped_plugin.as_str());
                        append_str(&mut unit_id, "_");
                        let escaped_field = replace_char(field_path.as_str(), '.', '_');
                        append_str(&mut unit_id, escaped_field.as_str());
                        proof {
                            assert(unit_id@ =~= spec_plugin_unit_id(
                                path_prefix@,
                                index as int,
                                plugin,
                                mviews[m as int].0,
                            ));
                        }
                        let unit_path = path_prefix.append_index(index).append_key(
                            "parameters",
                        ).append_index(3);
                        let mut trans_context = context.to_translation_context();
                        let mut tag = String::from_str("plugin:");
                        append_str(&mut tag, plugin_name.as_str());
                        trans_context.add_tag(tag.as_str());
                        let mut tag2 = String::from_str("field:");
                        append_str(&mut tag2, field_path.as_str());
                        trans_context.add_tag(tag2.as_str());
                        let unit = TranslationUnit::new(
                            unit_id,
                            unit_path,
                            EventCode::PluginCommand,
                            text,
                        ).with_context(trans_context);
                        units.push(unit);
                        proof {
                            assert(units@.map_values(
                                |u: TranslationUnit| (u.id@, u.original@),
                            ) =~= done_before.push((units@.last().id@, units@.last().original@)));
                            assert(done_before.push(
                                (units@.last().id@, units@.last().original@),
                            ) =~= done_before + seq![
                                (units@.last().id@, units@.last().original@),
                            ]);
                            assert(plugin_name@ == plugin);
                            assert(tag@ == "plugin:"@ + plugin);
                            assert(field_path@ == mviews[m as int].0);
                            assert(tag2@ == "field:"@ + mviews[m as int].0);
                            assert(units@.last().context.tags@.len() == 2);
                            assert(units@.last().context.tags@[0]@ == "plugin:"@ + plugin);
                            assert(units@.last().context.tags@[1]@ == "field:"@ + mviews[
                                m as int
                            ].0);
                            assert(units@.map_values(|u: TranslationUnit| u.context.tags@[1]@)
                                =~= done_tags.push("field:"@ + mviews[m as int].0));
                            assert(done_tags.push("field:"@ + mviews[m as int].0) =~= done_tags
                                + seq!["field:"@ + mviews[m as int].0]);
                        }
                    }
                    m = m + 1;
                }
                proof {
                    assert(mviews.skip(nm as int) =~= Seq::<(Seq<char>, Seq<char>)>::empty());
                    assert(spec_field_pairs(
                        mviews.skip(nm as int),
                        path_prefix@,
                        index as int,
                        plugin,
                        options,
                    ) =~= Seq::<(Seq<char>, Seq<char>)>::empty());
                    let done = units@.map_values(|u: TranslationUnit| (u.id@, u.original@));
                    assert(done + Seq::<(Seq<char>, Seq<char>)>::empty() + spec_config_pairs(
                        fmodels.skip(f as int + 1),
                        args@,
                        path_prefix@,
                        index as int,
                        plugin,
                        options,
                    ) =~= done + spec_config_pairs(
                        fmodels.skip(f as int + 1),
                        args@,
                        path_prefix@,
                        index as int,
                        plugin,
                        options,
                    ));
                    assert(spec_field_tags(mviews.skip(nm as int), options) =~= Seq::<
                        Seq<char>,
                    >::empty());
                    let donet = units@.map_values(|u: TranslationUnit| u.context.tags@[1]@);
                    assert(donet + Seq::<Seq<char>>::empty() + spec_config_tags(
                        fmodels.skip(f as int + 1),
                        args@,
                        options,
                    ) =~= donet + spec_config_tags(fmodels.skip(f as int + 1), args@, options));
                }
            }
            f = f + 1;
        }
        proof {
            assert(fmodels.skip(nf as int) =~= Seq::<FieldModel>::empty());
            let done = units@.map_values(|u: TranslationUnit| (u.id@, u.original@));
            assert(done + Seq::<(Seq<char>, Seq<char>)>::empty() =~= done);
        }
        let r = ExtractionResult::multiple(units, 1);
        r
    }

    /// Inject translations into the plugin arguments: every configured,
    /// matching field path whose unit id has a translation is written
    /// through the path-set specification, in configuration and match
    /// order, and the rewritten arguments replace parameter three.  The
    /// command counts as modified exactly when at least one write took,
    /// so an empty translation map leaves the list untouched.
    #[verifier::loop_isolation(false)]
    #[verifier::rlimit(100)]
    pub fn inject(
        &self,
        commands: &mut Vec<EventCommand>,
        index: usize,
        translations: &TranslationMap,
        path_prefix: &TranslationPath,
        _options: &InjectionOptions,
    ) -> (r: InjectionResult)
        requires
            index < old(commands)@.len(),
        ensures
            ({
                let c = old(commands)@[index as int]@;
                &&& final(commands)@.len() == old(commands)@.len()
                &&& forall|j: int|
                    0 <= j < old(commands)@.len() && j != index ==> (#[trigger] final(commands)@[j]) == old(commands)@[j]
                &&& r.warnings@.len() == 0
                &&& r.not_found == 0
                &&& translations@.len() == 0 ==> final(commands)@ == old(commands)@ && r.applied
                    == 0 && r.commands_modified == 0
                &&& if spec_has_plugin_data(c) && (match spec_config_for(
                    self.user_models(),
                    self.predefined_models(),
                    c.params[0]->Str_0,
                ) {
                    Some(cfg) => cfg.enabled,
                    None => false,
                }) {
                    let cfg = spec_config_for(
                        self.user_models(),
                        self.predefined_models(),
                        c.params[0]->Str_0,
                    ).unwrap();
                    let rs = spec_plugin_replacements(
                        cfg.fields,
                        c.params[3],
                        translations@,
                        path_prefix@,
                        index as int,
                        c.params[0]->Str_0,
                    );
                    let outcome = spec_apply_replacements(c.params[3], rs);
                    &&& r.applied == outcome.1
                    &&& r.commands_modified == if outcome.1 > 0 {
                        1int
                    } else {
                        0int
                    }
                    &&& outcome.1 > 0 ==> final(commands)@[index as int]@.params
                        == c.params.update(3, outcome.0) && final(commands)@[index as int]@.code
                        == c.code && final(commands)@[index as int]@.indent == c.indent
                    &&& outcome.1 == 0 ==> final(commands)@ == old(commands)@
                } else {
                    final(commands)@ == old(commands)@ && r.applied == 0
                        && r.commands_modified == 0
                }
            }),
    {
        broadcast use crate::tmap::lemma_empty_map_get;

        proof {
            reveal_strlit("");
        }
        let result = InjectionResult::new();
        let ghost c = old(commands)@[index as int]@;
        let ghost tm = translations@;
        let ghost lp = path_prefix@;
        let cmd_ref = &commands[index];
        proof {
            crate::json::lemma_json_view_list(cmd_ref.parameters@);
        }
        if cmd_ref.code != 357 {
            return result;
        }
        if cmd_ref.parameters.len() < 4 {
            return result;
        }
        let plugin_name = match cmd_ref.get_string_param(0) {
            Some(s) => s.clone(),
            None => {
                return result;
            },
        };
        if cmd_ref.get_string_param(1).is_none() {
            return result;
        }
        if cmd_ref.get_string_param(2).is_none() {
            return result;
        }
        let config = match self.get_config(plugin_name.as_str()) {
            Some(cf) => cf,
            None => {
                return result;
            },
        };
        if !config.enabled {
            return result;
        }
        let ghost plugin = c.params[0]->Str_0;
        let ghost fmodels = config@.fields;
        let ghost rs_total = spec_plugin_replacements(
            fmodels,
            c.params[3],
            tm,
            lp,
            index as int,
            plugin,
        );
        let base_id = generate_unit_id(path_prefix, index, "");
        proof {
            assert(""@ =~= Seq::<char>::empty());
        }
        let escaped_plugin = replace_char(plugin_name.as_str(), '.', '_');
        // collect the replacements against the original arguments
        let mut replacements: Vec<(String, String)> = Vec::new();
        let mut f: usize = 0;
        let nf = config.extraction_paths.len();
        proof {
            assert(fmodels.skip(0) =~= fmodels);
            assert(replacements@.map_values(|q: (String, String)| (q.0@, q.1@)) =~= Seq::<
                (Seq<char>, Seq<char>),
            >::empty());
        }
        while f < nf
            invariant
                f <= nf,
                nf == config.extraction_paths@.len(),
                fmodels == config@.fields,
                index < commands@.len(),
                commands@ == old(commands)@,
                replacements@.map_values(|q: (String, String)| (q.0@, q.1@))
                    + spec_plugin_replacements(
                    fmodels.skip(f as int),
                    c.params[3],
                    tm,
                    lp,
                    index as int,
                    plugin,
                ) == rs_total,
                tm.len() == 0 ==> replacements@.len() == 0,
            decreases nf - f,
        {
            let ghost frest = fmodels.skip(f as int);
            proof {
                assert(frest[0] == fmodels[f as int]);
                assert(fmodels[f as int] == config.extraction_paths@[f as int]@);
                assert(frest.drop_first() =~= fmodels.skip(f as int + 1));
            }
            let field = &config.extraction_paths[f];
            if field.translatable {
                let pattern = PathPattern::new(field.pattern.as_str());
                let mut matches: Vec<(String, String)> = Vec::new();
                proof {
                    crate::json::lemma_json_view_list(commands@[index as int].parameters@);
                }
                Self::collect_matches(&commands[index].parameters[3], &pattern, "", &mut matches);
                let ghost mviews = matches@.map_values(|q: (String, String)| (q.0@, q.1@));
                proof {
                    assert(""@ =~= Seq::<char>::empty());
                    assert(mviews == spec_arg_matches(
                        c.params[3],
                        spec_compile_pattern(fmodels[f as int].pattern),
                        Seq::empty(),
                    ));
                    assert(mviews.skip(0) =~= mviews);
                }
                let mut m: usize = 0;
                let nm = matches.len();
                while m < nm
                    invariant
                        m <= nm,
                        nm == matches@.len(),
                        mviews == matches@.map_values(|q: (String, String)| (q.0@, q.1@)),
                        replacements@.map_values(|q: (String, String)| (q.0@, q.1@))
                            + spec_field_replacements(
                            mviews.skip(m as int),
                            tm,
                            lp,
                            index as int,
                            plugin,
                        ) + spec_plugin_replacements(
                            fmodels.skip(f as int + 1),
                            c.params[3],
                            tm,
                            lp,
                            index as int,
                            plugin,
                        ) == rs_total,
                        tm.len() == 0 ==> replacements@.len() == 0,
                    decreases nm - m,
                {
                    let ghost mrest = mviews.skip(m as int);
                    proof {
                        assert(mrest[0] == mviews[m as int]);
                        assert(mrest.drop_first() =~= mviews.skip(m as int + 1));
                    }
                    let field_path = &matches[m].0;
                    let mut unit_id = base_id.clone();
                    append_str(&mut unit_id, "_plugin_");
                    append_str(&mut unit_id, escaped_plugin.as_str());
                    append_str(&mut unit_id, "_");
                    let escaped_field = replace_char(field_path.as_str(), '.', '_');
                    append_str(&mut unit_id, escaped_field.as_str());
                    proof {
                        assert(unit_id@ =~= spec_plugin_unit_id(
                            lp,
                            index as int,
                            plugin,
                            mviews[m as int].0,
                        ));
                    }
                    let ghost before = replacements@.map_values(
                        |q: (String, String)| (q.0@, q.1@),
                    );
                    match translations.get(unit_id.as_str()) {
                        Some(translated) => {
                            replacements.push((field_path.clone(), translated.clone()));
                            proof {
                                assert(replacements@.map_values(
                                    |q: (String, String)| (q.0@, q.1@),
                                ) =~= before.push((field_path@, translated@)));
                                assert(before.push((field_path@, translated@)) =~= before
                                    + seq![(field_path@, translated@)]);
                            }
                        },
                        None => {},
                    }
                    m = m + 1;
                }
                proof {
                    assert(mviews.skip(nm as int) =~= Seq::<(Seq<char>, Seq<char>)>::empty());
                    let done = replacements@.map_values(|q: (String, String)| (q.0@, q.1@));
                    assert(done + Seq::<(Seq<char>, Seq<char>)>::empty() + spec_plugin_replacements(
                        fmodels.skip(f as int + 1),
                        c.params[3],
                        tm,
                        lp,
                        index as int,
                        plugin,
                    ) =~= done + spec_plugin_replacements(
                        fmodels.skip(f as int + 1),
                        c.params[3],
                        tm,
                        lp,
                        index as int,
                        plugin,
                    ));
                }
            }
            f = f + 1;
        }
        proof {
            assert(fmodels.skip(nf as int) =~= Seq::<FieldModel>::empty());
            let done = replacements@.map_values(|q: (String, String)| (q.0@, q.1@));
            assert(done + Seq::<(Seq<char>, Seq<char>)>::empty() =~= done);
        }
        let ghost rs_model = replacements@.map_values(|q: (String, String)| (q.0@, q.1@));
        if replacements.len() == 0 {
            proof {
                assert(spec_apply_replacements(c.params[3], rs_total).1 == 0);
            }
            return result;
        }
        // apply them to a copy of the arguments, then swap it in when
        // anything took
        let mut result = result;
        proof {
            crate::json::lemma_json_view_list(commands@[index as int].parameters@);
        }
        let mut args = commands[index].parameters[3].duplicate();
        let ghost outcome = spec_apply_replacements(c.params[3], rs_model);
        let mut applied: usize = 0;
        let mut k: usize = 0;
        let nr = replacements.len();
        proof {
            assert(rs_model.skip(0) =~= rs_model);
        }
        while k < nr
            invariant
                k <= nr,
                nr == replacements@.len(),
                rs_model == replacements@.map_values(|q: (String, String)| (q.0@, q.1@)),
                applied <= k,
                spec_apply_replacements(args@, rs_model.skip(k as int)).0 == outcome.0,
                applied + spec_apply_replacements(args@, rs_model.skip(k as int)).1 == outcome.1,
            decreases nr - k,
        {
            let ghost krest = rs_model.skip(k as int);
            proof {
                assert(krest[0] == rs_model[k as int]);
                assert(krest.drop_first() =~= rs_model.skip(k as int + 1));
            }
            let field_path = &replacements[k].0;
            let text = &replacements[k].1;
            match TranslationPath::parse(field_path.as_str()) {
                Ok(p) => {
                    match p.set(&mut args, JsonValue::string_from(text.as_str())) {
                        Ok(_) => {
                            applied = applied + 1;
                        },
                        Err(_) => {},
                    }
                },
                Err(_) => {},
            }
            k = k + 1;
        }
        proof {
            assert(rs_model.skip(nr as int) =~= Seq::<(Seq<char>, Seq<char>)>::empty());
            assert(args@ == outcome.0);
            assert(applied == outcome.1);
        }
        if applied > 0 {
            let mut cmd = commands.remove(index);
            proof {
                crate::json::lemma_json_view_list(cmd.parameters@);
            }
            cmd.parameters[3] = args;
            commands.insert(index, cmd);
            proof {
                assert(forall|j: int|
                    0 <= j < old(commands)@.len() && j != index ==> (#[trigger] final(commands)@[j]) == old(commands)@[j]);
                crate::json::lemma_json_view_list(final(commands)@[index as int].parameters@);
                assert(final(commands)@[index as int]@.params =~= c.params.update(3, outcome.0));
            }
            result.applied = applied;
            result.commands_modified = 1;
        }
        result
    }
}

impl Default for PluginCommandHandler {
    /// A handler with the built-in configurations.
    fn default() -> (r: Self)
        ensures
            r.user_configs@.len() == 0,
    {
        PluginCommandHandler::new()
    }
}

} // verus!

//! One event command of an RPG Maker MV/MZ event list: a numeric code, an
//! indent level and a heterogeneous parameter list.

use vstd::prelude::*;

use crate::event_code::EventCode;
use crate::json::{json_view_list, lemma_json_view_list, Json, JsonValue};
use crate::strutil::{spec_starts_with, str_starts_with};

verus! {

/// Model of one event command.
pub struct CmdModel {
    /// Command code.
    pub code: i32,
    /// Indent level.
    pub indent: i32,
    /// Parameter values.
    pub params: Seq<Json>,
}

/// A single event command.
#[derive(Debug)]
pub struct EventCommand {
    /// Command code (101, 401, 102, ...).
    pub code: i32,
    /// Indent level, for nested commands.
    pub indent: i32,
    /// Command parameters.
    pub parameters: Vec<JsonValue>,
}

impl View for EventCommand {
    type V = CmdModel;

    open spec fn view(&self) -> CmdModel {
        CmdModel { code: self.code, indent: self.indent, params: json_view_list(self.parameters@) }
    }
}

impl EventCommand {
    /// A new command.
    pub fn new(code: i32, indent: i32, parameters: Vec<JsonValue>) -> (r: Self)
        ensures
            r@.code == code,
            r@.indent == indent,
            r@.params == json_view_list(parameters@),
    {
        EventCommand { code, indent, parameters }
    }

    /// The command's code as the code enumeration.
    pub fn event_code(&self) -> (r: EventCode)
        ensures
            r == EventCode::spec_from_code(self@.code),
    {
        EventCode::from_code(self.code)
    }

    /// Whether this is a dialogue body command.
    pub fn is_dialogue(&self) -> (r: bool)
        ensures
            r == (self@.code == 401),
    {
        self.code == 401
    }

    /// Whether this is a show-text header.
    pub fn is_show_text(&self) -> (r: bool)
        ensures
            r == (self@.code == 101),
    {
        self.code == 101
    }

    /// Whether this is a show-choices command.
    pub fn is_choice(&self) -> (r: bool)
        ensures
            r == (self@.code == 102),
    {
        self.code == 102
    }

    /// The string parameter at an index, if it is a string.
    pub fn get_string_param(&self, index: usize) -> (r: Option<&String>)
        ensures
            match r {
                Some(s) => index < self@.params.len() && self@.params[index as int] == Json::Str(
                    s@,
                ),
                None => !(index < self@.params.len() && self@.params[index as int] is Str),
            },
    {
        proof {
            lemma_json_view_list(self.parameters@);
        }
        if index < self.parameters.len() {
            self.parameters[index].as_str()
        } else {
            None
        }
    }

    /// The integer parameter at an index, if it is an integer.
    pub fn get_int_param(&self, index: usize) -> (r: Option<i64>)
        ensures
            match r {
                Some(v) => index < self@.params.len() && self@.params[index as int] == Json::Int(
                    v,
                ),
                None => !(index < self@.params.len() && self@.params[index as int] is Int),
            },
    {
        proof {
            lemma_json_view_list(self.parameters@);
        }
        if index < self.parameters.len() {
            self.parameters[index].as_i64()
        } else {
            None
        }
    }

    /// The array parameter at an index, if it is an array.
    pub fn get_array_param(&self, index: usize) -> (r: Option<&Vec<JsonValue>>)
        ensures
            match r {
                Some(v) => index < self@.params.len() && self@.params[index as int] == Json::Arr(
                    json_view_list(v@),
                ),
                None => !(index < self@.params.len() && self@.params[index as int] is Arr),
            },
    {
        proof {
            lemma_json_view_list(self.parameters@);
        }
        if index < self.parameters.len() {
            self.parameters[index].as_array()
        } else {
            None
        }
    }

    /// The object parameter at an index, if it is an object.
    pub fn get_object_param(&self, index: usize) -> (r: Option<&Vec<(String, JsonValue)>>)
        ensures
            match r {
                Some(v) => index < self@.params.len() && self@.params[index as int] == Json::Obj(
                    crate::json::json_view_fields(v@),
                ),
                None => !(index < self@.params.len() && self@.params[index as int] is Obj),
            },
    {
        proof {
            lemma_json_view_list(self.parameters@);
        }
        if index < self.parameters.len() {
            self.parameters[index].as_object()
        } else {
            None
        }
    }

    /// Replace the parameter at an index by a string value; `false` when
    /// the index is out of range.
    pub fn set_string_param(&mut self, index: usize, value: &str) -> (r: bool)
        ensures
            r == (index < old(self)@.params.len()),
            r ==> final(self)@.params == old(self)@.params.update(index as int, Json::Str(value@))
                && final(self)@.code == old(self)@.code && final(self)@.indent == old(self)@.indent,
            !r ==> *final(self) == *old(self),
    {
        proof {
            lemma_json_view_list(self.parameters@);
        }
        if index < self.parameters.len() {
            self.parameters[index] = JsonValue::string_from(value);
            proof {
                lemma_json_view_list(self.parameters@);
                assert(final(self)@.params =~= old(self)@.params.update(
                    index as int,
                    Json::Str(value@),
                ));
            }
            true
        } else {
            false
        }
    }

    /// The speaker name a show-text header carries: parameter four, when
    /// the command is a 101 with at least five parameters and the name is
    /// non-empty.
    pub open spec fn spec_speaker_name(c: CmdModel) -> Option<Seq<char>> {
        if c.code == 101 && c.params.len() >= 5 && c.params[4] is Str && c.params[4]->Str_0.len()
            > 0 {
            Some(c.params[4]->Str_0)
        } else {
            None
        }
    }

    /// Extract the speaker name from a show-text header.
    pub fn get_speaker_name(&self) -> (r: Option<String>)
        ensures
            match r {
                Some(s) => Self::spec_speaker_name(self@) == Some(s@),
                None => Self::spec_speaker_name(self@) is None,
            },
    {
        proof {
            lemma_json_view_list(self.parameters@);
        }
        if self.code != 101 {
            return None;
        }
        if self.parameters.len() >= 5 {
            match self.get_string_param(4) {
                Some(speaker) => {
                    if speaker.as_str().unicode_len() > 0 {
                        return Some(speaker.clone());
                    }
                },
                None => {},
            }
        }
        None
    }

    /// The dialogue text of a body command: parameter zero of a 401.
    pub open spec fn spec_dialogue_text(c: CmdModel) -> Option<Seq<char>> {
        if c.code == 401 && c.params.len() >= 1 && c.params[0] is Str {
            Some(c.params[0]->Str_0)
        } else {
            None
        }
    }

    /// The dialogue text from a body command.
    pub fn get_dialogue_text(&self) -> (r: Option<&String>)
        ensures
            match r {
                Some(s) => Self::spec_dialogue_text(self@) == Some(s@),
                None => Self::spec_dialogue_text(self@) is None,
            },
    {
        if self.code != 401 {
            return None;
        }
        self.get_string_param(0)
    }

    /// The choice text repeated on a choice branch: parameter one of a
    /// 402.
    pub open spec fn spec_choice_text(c: CmdModel) -> Option<Seq<char>> {
        if c.code == 402 && c.params.len() >= 2 && c.params[1] is Str {
            Some(c.params[1]->Str_0)
        } else {
            None
        }
    }

    /// The choice text from a choice branch command.
    pub fn get_choice_text(&self) -> (r: Option<&String>)
        ensures
            match r {
                Some(s) => Self::spec_choice_text(self@) == Some(s@),
                None => Self::spec_choice_text(self@) is None,
            },
    {
        if self.code != 402 {
            return None;
        }
        self.get_string_param(1)
    }

    /// The comment text of a comment body: parameter zero of a 408.
    pub open spec fn spec_comment_text(c: CmdModel) -> Option<Seq<char>> {
        if c.code == 408 && c.params.len() >= 1 && c.params[0] is Str {
            Some(c.params[0]->Str_0)
        } else {
            None
        }
    }

    /// The comment text from a comment body command.
    pub fn get_comment_text(&self) -> (r: Option<&String>)
        ensures
            match r {
                Some(s) => Self::spec_comment_text(self@) == Some(s@),
                None => Self::spec_comment_text(self@) is None,
            },
    {
        if self.code != 408 {
            return None;
        }
        self.get_string_param(0)
    }

    /// The script special text of a 657 whose parameter zero starts with
    /// the prefix: the remainder after the prefix.
    pub open spec fn spec_script_special_text(c: CmdModel, prefix: Seq<char>) -> Option<Seq<char>> {
        if c.code == 657 && c.params.len() >= 1 && c.params[0] is Str && spec_starts_with(
            c.params[0]->Str_0,
            prefix,
        ) {
            Some(c.params[0]->Str_0.skip(prefix.len() as int))
        } else {
            None
        }
    }

    /// The script special text after the prefix, when present.
    pub fn get_script_special_text(&self, prefix: &str) -> (r: Option<String>)
        ensures
            match r {
                Some(s) => Self::spec_script_special_text(self@, prefix@) == Some(s@),
                None => Self::spec_script_special_text(self@, prefix@) is None,
            },
    {
        if self.code != 657 {
            return None;
        }
        match self.get_string_param(0) {
            Some(text) => {
                if str_starts_with(text.as_str(), prefix) {
                    let n = text.as_str().unicode_len();
                    let p = prefix.unicode_len();
                    let rest = text.as_str().substring_char(p, n);
                    proof {
                        assert(text@.subrange(p as int, n as int) =~= text@.skip(p as int));
                    }
                    Some(String::from_str(rest))
                } else {
                    None
                }
            },
            None => None,
        }
    }

    /// The empty end command (code 0).
    pub fn empty() -> (r: Self)
        ensures
            r@.code == 0,
            r@.indent == 0,
            r@.params.len() == 0,
    {
        let r = EventCommand { code: 0, indent: 0, parameters: Vec::new() };
        proof {
            lemma_json_view_list(r.parameters@);
        }
        r
    }

    /// A dialogue body command carrying one line of text.
    pub fn dialogue(indent: i32, text: &str) -> (r: Self)
        ensures
            r@.code == 401,
            r@.indent == indent,
            r@.params.len() == 1,
            r@.params[0] == Json::Str(text@),
    {
        let mut parameters: Vec<JsonValue> = Vec::new();
        parameters.push(JsonValue::string_from(text));
        let r = EventCommand { code: 401, indent, parameters };
        proof {
            lemma_json_view_list(r.parameters@);
        }
        r
    }

    /// A deep copy of the command.
    pub fn duplicate(&self) -> (r: Self)
        ensures
            r@ == self@,
    {
        let mut parameters: Vec<JsonValue> = Vec::new();
        let mut i: usize = 0;
        let n = self.parameters.len();
        while i < n
            invariant
                i <= n,
                n == self.parameters@.len(),
                parameters@.len() == i,
                forall|k: int|
                    0 <= k < i ==> crate::json::json_view(#[trigger] parameters@[k])
                        == crate::json::json_view(self.parameters@[k]),
            decreases n - i,
        {
            parameters.push(self.parameters[i].duplicate());
            i = i + 1;
        }
        let r = EventCommand { code: self.code, indent: self.indent, parameters };
        proof {
            lemma_json_view_list(r.parameters@);
            lemma_json_view_list(self.parameters@);
            assert(json_view_list(r.parameters@) =~= json_view_list(self.parameters@));
        }
        r
    }
}

/// The parts of a plugin command (357): the plugin name, the
/// sub-command, its display name and the arguments value.
#[derive(Debug)]
pub struct PluginCommandData {
    /// Name of the plugin.
    pub plugin_name: String,
    /// Command identifier.
    pub command: String,
    /// Display name for the command.
    pub display_name: String,
    /// Arguments value.
    pub arguments: JsonValue,
}

impl PluginCommandData {
    /// A string argument looked up by key.
    pub fn get_string_arg(&self, key: &str) -> (r: Option<&String>)
        ensures
            match r {
                Some(s) => self.arguments@ matches Json::Obj(fields)
                    && crate::json::spec_obj_get(fields, key@) == Some(Json::Str(s@)),
                None => true,
            },
    {
        match self.arguments.get_key(key) {
            Some(v) => v.as_str(),
            None => None,
        }
    }

    /// The value under a dotted path into the arguments, digits read as
    /// indices.
    pub fn get_by_path(&self, path: &str) -> (r: Option<&JsonValue>)
        ensures
            match r {
                Some(v) => crate::translation_path::spec_parse_path(path@) matches Some(segs)
                    && crate::translation_path::spec_get(self.arguments@, segs) == Some(v@),
                None => true,
            },
    {
        match crate::translation_path::TranslationPath::parse(path) {
            Ok(p) => p.get(&self.arguments),
            Err(_) => None,
        }
    }
}

impl EventCommand {
    /// The plugin data of a 357 command with at least four parameters
    /// whose first three are strings; `None` otherwise.
    pub fn get_plugin_data(&self) -> (r: Option<PluginCommandData>)
        ensures
            match r {
                Some(d) => {
                    &&& crate::handlers::plugin::spec_has_plugin_data(self@)
                    &&& self@.params[0] == Json::Str(d.plugin_name@)
                    &&& self@.params[1] == Json::Str(d.command@)
                    &&& self@.params[2] == Json::Str(d.display_name@)
                    &&& d.arguments@ == self@.params[3]
                },
                None => !crate::handlers::plugin::spec_has_plugin_data(self@),
            },
    {
        proof {
            lemma_json_view_list(self.parameters@);
        }
        if self.code != 357 {
            return None;
        }
        if self.parameters.len() < 4 {
            return None;
        }
        let plugin_name = match self.get_string_param(0) {
            Some(s) => s.clone(),
            None => {
                return None;
            },
        };
        let command = match self.get_string_param(1) {
            Some(s) => s.clone(),
            None => {
                return None;
            },
        };
        let display_name = match self.get_string_param(2) {
            Some(s) => s.clone(),
            None => {
                return None;
            },
        };
        let arguments = self.parameters[3].duplicate();
        Some(PluginCommandData { plugin_name, command, display_name, arguments })
    }
}

/// What one JSON value parses to as a command: an object with an integer
/// `code` that fits `i32`; `indent` defaults to zero and `parameters` to
/// the empty list.
pub open spec fn spec_parse_command(v: Json) -> Option<CmdModel> {
    match v {
        Json::Obj(fields) => match crate::json::spec_obj_get(fields, "code"@) {
            Some(Json::Int(code)) => if i32::MIN <= code <= i32::MAX {
                let indent = match crate::json::spec_obj_get(fields, "indent"@) {
                    Some(Json::Int(ind)) => if i32::MIN <= ind <= i32::MAX {
                        ind as i32
                    } else {
                        0
                    },
                    _ => 0,
                };
                let params = match crate::json::spec_obj_get(fields, "parameters"@) {
                    Some(Json::Arr(elems)) => elems,
                    _ => Seq::empty(),
                };
                Some(CmdModel { code: code as i32, indent, params })
            } else {
                None
            },
            _ => None,
        },
        _ => None,
    }
}

/// The commands a JSON list parses to: elements that are not commands are
/// left out.
pub open spec fn spec_parse_commands(v: Json) -> Seq<CmdModel>
    decreases (match v {
        Json::Arr(elems) => elems.len(),
        _ => 0,
    }),
{
    match v {
        Json::Arr(elems) => if elems.len() == 0 {
            Seq::empty()
        } else {
            let head = match spec_parse_command(elems[0]) {
                Some(c) => seq![c],
                None => Seq::empty(),
            };
            head + spec_parse_commands(Json::Arr(elems.drop_first()))
        },
        _ => Seq::empty(),
    }
}

/// Whether a command list's elements all parse as commands: the parse
/// then skips nothing and positions in the parsed list match positions
/// in the array.  A value that is not an array parses to no commands and
/// passes trivially.
pub open spec fn spec_list_fully_parses(l: Json) -> bool {
    match l {
        Json::Arr(elems) => forall|j: int|
            0 <= j < elems.len() ==> spec_parse_command(#[trigger] elems[j]) is Some,
        _ => true,
    }
}

/// When every element of an array parses as a command, the parsed list
/// aligns with the array position for position.
pub proof fn lemma_parse_commands_aligned(elems: Seq<Json>)
    requires
        forall|j: int| 0 <= j < elems.len() ==> spec_parse_command(#[trigger] elems[j]) is Some,
    ensures
        spec_parse_commands(Json::Arr(elems)).len() == elems.len(),
        forall|j: int|
            0 <= j < elems.len() ==> spec_parse_commands(Json::Arr(elems))[j]
                == spec_parse_command(#[trigger] elems[j])->Some_0,
    decreases elems.len(),
{
    if elems.len() > 0 {
        assert(elems[0] == elems[0]);
        assert(forall|j: int|
            0 <= j < elems.drop_first().len() ==> #[trigger] elems.drop_first()[j] == elems[
                j + 1
            ]);
        lemma_parse_commands_aligned(elems.drop_first());
        assert forall|j: int| 0 <= j < elems.len() implies spec_parse_commands(Json::Arr(elems))[j]
            == spec_parse_command(#[trigger] elems[j])->Some_0 by {
            if j > 0 {
                assert(spec_parse_commands(Json::Arr(elems))[j] == spec_parse_commands(
                    Json::Arr(elems.drop_first()),
                )[j - 1]);
                assert(elems.drop_first()[j - 1] == elems[j]);
            }
        };
    }
}

/// Parse event commands from a JSON array; elements that do not look like
/// commands are skipped, as are containers that are not arrays.
#[verifier::loop_isolation(false)]
pub fn parse_commands(list: &JsonValue) -> (r: Vec<EventCommand>)
    ensures
        r@.map_values(|c: EventCommand| c@) == spec_parse_commands(list@),
{
    let mut out: Vec<EventCommand> = Vec::new();
    let elems = match list.as_array() {
        Some(e) => e,
        None => {
            proof {
                assert(out@.map_values(|c: EventCommand| c@) =~= spec_parse_commands(list@));
            }
            return out;
        },
    };
    let ghost all = json_view_list(elems@);
    let mut i: usize = 0;
    let n = elems.len();
    proof {
        lemma_json_view_list(elems@);
        assert(all.skip(0) =~= all);
        assert(out@.map_values(|c: EventCommand| c@) =~= Seq::<CmdModel>::empty());
        assert(Seq::<CmdModel>::empty() + spec_parse_commands(Json::Arr(all))
            =~= spec_parse_commands(Json::Arr(all)));
    }
    while i < n
        invariant
            i <= n,
            n == elems@.len(),
            out@.map_values(|c: EventCommand| c@) + spec_parse_commands(
                Json::Arr(all.skip(i as int)),
            ) == spec_parse_commands(Json::Arr(all)),
        decreases n - i,
    {
        let ghost before = out@.map_values(|c: EventCommand| c@);
        proof {
            assert(all.skip(i as int)[0] == all[i as int]);
            assert(all.skip(i as int).drop_first() =~= all.skip(i as int + 1));
        }
        match parse_one_command(&elems[i]) {
            Some(cmd) => {
                out.push(cmd);
                proof {
                    assert(out@.map_values(|c: EventCommand| c@) =~= before.push(
                        out@.last()@,
                    ));
                    assert(before.push(out@.last()@) + spec_parse_commands(
                        Json::Arr(all.skip(i as int + 1)),
                    ) =~= before + (seq![out@.last()@] + spec_parse_commands(
                        Json::Arr(all.skip(i as int + 1)),
                    )));
                }
            },
            None => {},
        }
        i = i + 1;
    }
    proof {
        assert(all.skip(n as int) =~= Seq::<Json>::empty());
        assert(spec_parse_commands(Json::Arr(all.skip(n as int))) =~= Seq::<CmdModel>::empty());
        assert(out@.map_values(|c: EventCommand| c@) + Seq::<CmdModel>::empty()
            =~= out@.map_values(|c: EventCommand| c@));
    }
    out
}

/// Parse one JSON value as a command.
fn parse_one_command(v: &JsonValue) -> (r: Option<EventCommand>)
    ensures
        match r {
            Some(c) => spec_parse_command(v@) == Some(c@),
            None => spec_parse_command(v@) is None,
        },
{
    let code_v = match v.get_key("code") {
        Some(c) => c,
        None => {
            return None;
        },
    };
    let code64 = match code_v.as_i64() {
        Some(c) => c,
        None => {
            return None;
        },
    };
    if code64 < i32::MIN as i64 || code64 > i32::MAX as i64 {
        return None;
    }
    let code = code64 as i32;
    let indent: i32 = match v.get_key("indent") {
        Some(ind) => match ind.as_i64() {
            Some(iv) => {
                if i32::MIN as i64 <= iv && iv <= i32::MAX as i64 {
                    iv as i32
                } else {
                    0
                }
            },
            None => 0,
        },
        None => 0,
    };
    let parameters: Vec<JsonValue> = match v.get_key("parameters") {
        Some(p) => match p.as_array() {
            Some(arr) => {
                let mut out: Vec<JsonValue> = Vec::new();
                let mut i: usize = 0;
                let n = arr.len();
                proof {
                    lemma_json_view_list(arr@);
                }
                while i < n
                    invariant
                        i <= n,
                        n == arr@.len(),
                        out@.len() == i,
                        forall|k: int|
                            0 <= k < i ==> crate::json::json_view(#[trigger] out@[k])
                                == crate::json::json_view(arr@[k]),
                    decreases n - i,
                {
                    out.push(arr[i].duplicate());
                    i = i + 1;
                }
                proof {
                    lemma_json_view_list(out@);
                    lemma_json_view_list(arr@);
                    assert(json_view_list(out@) =~= json_view_list(arr@));
                }
                out
            },
            None => Vec::new(),
        },
        None => Vec::new(),
    };
    let cmd = EventCommand { code, indent, parameters };
    proof {
        lemma_json_view_list(cmd.parameters@);
        let parsed = spec_parse_command(v@);
        if parsed is Some {
            assert(cmd@.params =~= parsed.unwrap().params);
        }
    }
    Some(cmd)
}

/// The JSON object one command serialises to.
pub open spec fn spec_command_to_json(c: CmdModel) -> Json {
    Json::Obj(
        seq![
            ("code"@, Json::Int(c.code as i64)),
            ("indent"@, Json::Int(c.indent as i64)),
            ("parameters"@, Json::Arr(c.params)),
        ],
    )
}

/// The JSON array a command list serialises to.
pub open spec fn spec_commands_to_json(cs: Seq<CmdModel>) -> Json {
    Json::Arr(cs.map_values(|c: CmdModel| spec_command_to_json(c)))
}

/// Serialise commands back to a JSON array of `{code, indent, parameters}`
/// objects.
#[verifier::loop_isolation(false)]
pub fn commands_to_json(commands: &Vec<EventCommand>) -> (r: JsonValue)
    ensures
        r@ == spec_commands_to_json(commands@.map_values(|c: EventCommand| c@)),
{
    let ghost models = commands@.map_values(|c: EventCommand| c@);
    let mut out: Vec<JsonValue> = Vec::new();
    let mut i: usize = 0;
    let n = commands.len();
    while i < n
        invariant
            i <= n,
            n == commands@.len(),
            out@.len() == i,
            forall|k: int|
                0 <= k < i ==> crate::json::json_view(#[trigger] out@[k])
                    == spec_command_to_json(models[k]),
        decreases n - i,
    {
        let cmd = &commands[i];
        let mut params: Vec<JsonValue> = Vec::new();
        let mut j: usize = 0;
        let m = cmd.parameters.len();
        proof {
            lemma_json_view_list(cmd.parameters@);
        }
        while j < m
            invariant
                j <= m,
                m == cmd.parameters@.len(),
                params@.len() == j,
                forall|k: int|
                    0 <= k < j ==> crate::json::json_view(#[trigger] params@[k])
                        == crate::json::json_view(cmd.parameters@[k]),
            decreases m - j,
        {
            params.push(cmd.parameters[j].duplicate());
            j = j + 1;
        }
        let mut fields: Vec<(String, JsonValue)> = Vec::new();
        fields.push((String::from_str("code"), JsonValue::Int(cmd.code as i64)));
        fields.push((String::from_str("indent"), JsonValue::Int(cmd.indent as i64)));
        fields.push((String::from_str("parameters"), JsonValue::Array(params)));
        let obj = JsonValue::Object(fields);
        proof {
            crate::json::lemma_json_view_fields(obj->Object_0@);
            lemma_json_view_list(params@);
            lemma_json_view_list(cmd.parameters@);
            assert(json_view_list(params@) =~= json_view_list(cmd.parameters@));
            assert(crate::json::json_view(obj) matches Json::Obj(f) && f =~= seq![
                ("code"@, Json::Int(cmd.code as i64)),
                ("indent"@, Json::Int(cmd.indent as i64)),
                ("parameters"@, Json::Arr(models[i as int].params)),
            ]);
        }
        out.push(obj);
        i = i + 1;
    }
    let r = JsonValue::Array(out);
    proof {
        lemma_json_view_list(out@);
        assert(json_view_list(out@) =~= models.map_values(
            |c: CmdModel| spec_command_to_json(c),
        ));
    }
    r
}

} // verus!

//! Structural paths through a JSON tree: a path is a list of segments,
//! each an object key or an array index, serialised as a dotted string.
//! Patterns are paths with two wildcard markers and match paths segment by
//! segment.

use vstd::prelude::*;

use crate::json::{spec_obj_get, Json, JsonValue};
use crate::strutil::{
    append_decimal, append_str, parse_decimal_usize, spec_all_digits, spec_decimal,
    spec_digits_value, str_eq, string_push_char, usize_to_string,
};

verus! {

/// Model of one path segment.
pub enum Seg {
    Key(Seq<char>),
    Index(int),
}

/// A segment in a translation path.
#[derive(Debug)]
pub enum PathSegment {
    /// Object key access.
    Key(String),
    /// Array index access.
    Index(usize),
}

impl View for PathSegment {
    type V = Seg;

    open spec fn view(&self) -> Seg {
        match self {
            PathSegment::Key(k) => Seg::Key(k@),
            PathSegment::Index(i) => Seg::Index(*i as int),
        }
    }
}

impl PathSegment {
    /// Create a key segment.
    pub fn key(k: &str) -> (r: Self)
        ensures
            r@ == Seg::Key(k@),
    {
        PathSegment::Key(String::from_str(k))
    }

    /// Create an index segment.
    pub fn index(i: usize) -> (r: Self)
        ensures
            r@ == Seg::Index(i as int),
    {
        PathSegment::Index(i)
    }

    /// A copy of the segment.
    pub fn duplicate(&self) -> (r: Self)
        ensures
            r@ == self@,
    {
        match self {
            PathSegment::Key(k) => PathSegment::Key(k.clone()),
            PathSegment::Index(i) => PathSegment::Index(*i),
        }
    }

    /// The dotted-string form of one segment: the key itself, or the
    /// decimal index.
    pub open spec fn spec_string(s: Seg) -> Seq<char> {
        match s {
            Seg::Key(k) => k,
            Seg::Index(i) => spec_decimal(i as nat),
        }
    }

    /// The dotted-string form of this segment.
    pub fn to_segment_string(&self) -> (r: String)
        ensures
            r@ == Self::spec_string(self@),
    {
        match self {
            PathSegment::Key(k) => k.clone(),
            PathSegment::Index(i) => usize_to_string(*i),
        }
    }
}

/// Resolution of a path in a JSON tree: defined exactly when every segment
/// resolves against a container of the right kind.
pub open spec fn spec_get(j: Json, segs: Seq<Seg>) -> Option<Json>
    decreases segs.len(),
{
    if segs.len() == 0 {
        Some(j)
    } else {
        match segs[0] {
            Seg::Key(k) => match j {
                Json::Obj(fields) => match spec_obj_get(fields, k) {
                    Some(c) => spec_get(c, segs.drop_first()),
                    None => None,
                },
                _ => None,
            },
            Seg::Index(i) => match j {
                Json::Arr(elems) => if 0 <= i < elems.len() {
                    spec_get(elems[i], segs.drop_first())
                } else {
                    None
                },
                _ => None,
            },
        }
    }
}

/// Replace the value under `key` (first occurrence), or append the field
/// when the key is absent.
pub open spec fn spec_obj_set(
    fields: Seq<(Seq<char>, Json)>,
    key: Seq<char>,
    val: Json,
) -> Seq<(Seq<char>, Json)>
    decreases fields.len(),
{
    if fields.len() == 0 {
        seq![(key, val)]
    } else if fields[0].0 == key {
        fields.update(0, (key, val))
    } else {
        seq![fields[0]] + spec_obj_set(fields.drop_first(), key, val)
    }
}

/// Writing a value at a path: every intermediate segment must resolve; the
/// final segment may add a new object key, while an array index must be in
/// range.
pub open spec fn spec_set(j: Json, segs: Seq<Seg>, val: Json) -> Option<Json>
    decreases segs.len(),
{
    if segs.len() == 0 {
        Some(val)
    } else {
        match segs[0] {
            Seg::Key(k) => match j {
                Json::Obj(fields) => if segs.len() == 1 {
                    Some(Json::Obj(spec_obj_set(fields, k, val)))
                } else {
                    match spec_obj_get(fields, k) {
                        Some(c) => match spec_set(c, segs.drop_first(), val) {
                            Some(c2) => Some(Json::Obj(spec_obj_set(fields, k, c2))),
                            None => None,
                        },
                        None => None,
                    }
                },
                _ => None,
            },
            Seg::Index(i) => match j {
                Json::Arr(elems) => if 0 <= i < elems.len() {
                    if segs.len() == 1 {
                        Some(Json::Arr(elems.update(i, val)))
                    } else {
                        match spec_set(elems[i], segs.drop_first(), val) {
                            Some(c2) => Some(Json::Arr(elems.update(i, c2))),
                            None => None,
                        }
                    }
                } else {
                    None
                },
                _ => None,
            },
        }
    }
}

/// Looking up the key just set finds the value just set.
proof fn lemma_obj_set_get(fields: Seq<(Seq<char>, Json)>, key: Seq<char>, val: Json)
    ensures
        spec_obj_get(spec_obj_set(fields, key, val), key) == Some(val),
    decreases fields.len(),
{
    if fields.len() == 0 {
        assert(spec_obj_set(fields, key, val)[0] == (key, val));
    } else if fields[0].0 == key {
    } else {
        lemma_obj_set_get(fields.drop_first(), key, val);
        assert(spec_obj_set(fields, key, val).drop_first() =~= spec_obj_set(
            fields.drop_first(),
            key,
            val,
        ));
    }
}

/// Writing through a path and reading it back yields the written value,
/// for any tree in which the path resolves.
pub proof fn lemma_set_then_get(t: Json, segs: Seq<Seg>, val: Json)
    requires
        spec_get(t, segs) is Some,
    ensures
        spec_set(t, segs, val) is Some,
        spec_get(spec_set(t, segs, val).unwrap(), segs) == Some(val),
    decreases segs.len(),
{
    if segs.len() == 0 {
    } else {
        match segs[0] {
            Seg::Key(k) => {
                let fields = t->Obj_0;
                let c = spec_obj_get(fields, k).unwrap();
                if segs.len() == 1 {
                    lemma_obj_set_get(fields, k, val);
                    assert(segs.drop_first().len() == 0);
                    let t3 = spec_set(t, segs, val).unwrap();
                    assert(t3 == Json::Obj(spec_obj_set(fields, k, val)));
                    assert(spec_get(t3, segs) == spec_get(val, segs.drop_first()));
                } else {
                    lemma_set_then_get(c, segs.drop_first(), val);
                    let c2 = spec_set(c, segs.drop_first(), val).unwrap();
                    lemma_obj_set_get(fields, k, c2);
                    let t3 = spec_set(t, segs, val).unwrap();
                    assert(t3 == Json::Obj(spec_obj_set(fields, k, c2)));
                    assert(spec_get(t3, segs) == spec_get(c2, segs.drop_first()));
                }
            },
            Seg::Index(i) => {
                let elems = t->Arr_0;
                if segs.len() == 1 {
                    assert(segs.drop_first().len() == 0);
                    let t3 = spec_set(t, segs, val).unwrap();
                    assert(t3 == Json::Arr(elems.update(i, val)));
                    assert(elems.update(i, val)[i] == val);
                    assert(spec_get(t3, segs) == spec_get(val, segs.drop_first()));
                } else {
                    lemma_set_then_get(elems[i], segs.drop_first(), val);
                    let c2 = spec_set(elems[i], segs.drop_first(), val).unwrap();
                    let t3 = spec_set(t, segs, val).unwrap();
                    assert(t3 == Json::Arr(elems.update(i, c2)));
                    assert(elems.update(i, c2)[i] == c2);
                    assert(spec_get(t3, segs) == spec_get(c2, segs.drop_first()));
                }
            },
        }
    }
}

/// Splitting a character sequence on dots, with the current segment
/// accumulated so far.
pub open spec fn spec_split_acc(s: Seq<char>, cur: Seq<char>) -> Seq<Seq<char>>
    decreases s.len(),
{
    if s.len() == 0 {
        seq![cur]
    } else if s[0] == '.' {
        seq![cur] + spec_split_acc(s.drop_first(), Seq::empty())
    } else {
        spec_split_acc(s.drop_first(), cur.push(s[0]))
    }
}

/// The dot-separated segments of a string.
pub open spec fn spec_split_dots(s: Seq<char>) -> Seq<Seq<char>> {
    spec_split_acc(s, Seq::empty())
}

/// Split a string on `.` characters.
#[verifier::loop_isolation(false)]
pub fn split_dots(s: &str) -> (r: Vec<String>)
    ensures
        r@.map_values(|x: String| x@) == spec_split_dots(s@),
{
    let n = s.unicode_len();
    let mut out: Vec<String> = Vec::new();
    let mut seg_start: usize = 0;
    let mut i: usize = 0;
    proof {
        assert(s@.skip(0) =~= s@);
        assert(s@.subrange(0, 0) =~= Seq::<char>::empty());
        assert(out@.map_values(|x: String| x@) =~= Seq::<Seq<char>>::empty());
        assert(Seq::<Seq<char>>::empty() + spec_split_acc(s@, Seq::empty()) =~= spec_split_acc(
            s@,
            Seq::empty(),
        ));
    }
    while i < n
        invariant
            seg_start <= i <= n,
            out@.map_values(|x: String| x@) + spec_split_acc(
                s@.skip(i as int),
                s@.subrange(seg_start as int, i as int),
            ) == spec_split_dots(s@),
        decreases n - i,
    {
        let c = s.get_char(i);
        let ghost old_views = out@.map_values(|x: String| x@);
        let ghost cur = s@.subrange(seg_start as int, i as int);
        proof {
            assert(s@.skip(i as int)[0] == s@[i as int]);
            assert(s@.skip(i as int).drop_first() =~= s@.skip(i as int + 1));
        }
        if c == '.' {
            let seg = s.substring_char(seg_start, i);
            out.push(String::from_str(seg));
            proof {
                assert(out@.map_values(|x: String| x@) =~= old_views.push(cur));
                assert(spec_split_acc(s@.skip(i as int), cur) == seq![cur] + spec_split_acc(
                    s@.skip(i as int + 1),
                    Seq::empty(),
                ));
                assert(old_views.push(cur) + spec_split_acc(s@.skip(i as int + 1), Seq::empty())
                    =~= old_views + (seq![cur] + spec_split_acc(
                    s@.skip(i as int + 1),
                    Seq::empty(),
                )));
                assert(s@.subrange(i as int + 1, i as int + 1) =~= Seq::<char>::empty());
            }
            seg_start = i + 1;
        } else {
            proof {
                assert(cur.push(s@[i as int]) =~= s@.subrange(seg_start as int, i as int + 1));
            }
        }
        i = i + 1;
    }
    let seg = s.substring_char(seg_start, n);
    let ghost old_views = out@.map_values(|x: String| x@);
    let ghost cur = s@.subrange(seg_start as int, n as int);
    out.push(String::from_str(seg));
    proof {
        assert(s@.skip(n as int).len() == 0);
        assert(spec_split_acc(s@.skip(n as int), cur) == seq![cur]);
        assert(out@.map_values(|x: String| x@) =~= old_views.push(cur));
        assert(old_views.push(cur) =~= old_views + seq![cur]);
    }
    out
}

/// Error parsing a path string.
#[derive(Debug, Clone, Copy, PartialEq, Eq, Structural)]
pub enum PathParseError {
    /// A segment between two dots was empty.
    EmptySegment,
}

/// Error setting a value at a path.
#[derive(Debug, Clone, Copy, PartialEq, Eq, Structural)]
pub enum PathSetError {
    /// The path itself is unusable.
    InvalidPath,
    /// An intermediate segment did not resolve.
    ParentNotFound,
    /// The final segment is a key but its parent is not an object.
    NotAnObject,
    /// The final segment is an index but its parent is not an array.
    NotAnArray,
    /// The final segment is an index out of the array's bounds.
    IndexOutOfBounds,
}

/// The segment a split path part stands for: a pure decimal that fits an
/// index becomes an index, everything else a key.
pub open spec fn spec_part_seg(part: Seq<char>) -> Seg {
    if spec_all_digits(part) && spec_digits_value(part) <= usize::MAX {
        Seg::Index(spec_digits_value(part) as int)
    } else {
        Seg::Key(part)
    }
}

/// What parsing a path string yields: the empty string is the root path;
/// otherwise every dot-separated part must be non-empty.
pub open spec fn spec_parse_path(s: Seq<char>) -> Option<Seq<Seg>> {
    if s.len() == 0 {
        Some(Seq::empty())
    } else {
        let parts = spec_split_dots(s);
        if exists|i: int| 0 <= i < parts.len() && (#[trigger] parts[i]).len() == 0 {
            None
        } else {
            Some(parts.map_values(|p: Seq<char>| spec_part_seg(p)))
        }
    }
}

/// A structured path that can locate any value in a JSON tree.
#[derive(Debug)]
pub struct TranslationPath {
    segments: Vec<PathSegment>,
}

impl View for TranslationPath {
    type V = Seq<Seg>;

    closed spec fn view(&self) -> Seq<Seg> {
        Seq::new(self.segments@.len(), |i: int| self.segments@[i]@)
    }
}

impl TranslationPath {
    /// The empty (root) path.
    pub fn new() -> (r: Self)
        ensures
            r@ == Seq::<Seg>::empty(),
    {
        let r = TranslationPath { segments: Vec::new() };
        proof {
            assert(r@ =~= Seq::<Seg>::empty());
        }
        r
    }

    /// A path from a segment list.
    pub fn from_segments(segments: Vec<PathSegment>) -> (r: Self)
        ensures
            r@ == Seq::new(segments@.len(), |i: int| segments@[i]@),
    {
        TranslationPath { segments }
    }

    /// Parse a dotted path string; digits-only parts become indices.
    #[verifier::loop_isolation(false)]
    pub fn parse(s: &str) -> (r: Result<Self, PathParseError>)
        ensures
            match r {
                Ok(p) => spec_parse_path(s@) == Some(p@),
                Err(_) => spec_parse_path(s@) is None,
            },
    {
        if s.unicode_len() == 0 {
            return Ok(Self::new());
        }
        let parts = split_dots(s);
        let ghost part_views = parts@.map_values(|x: String| x@);
        let mut segments: Vec<PathSegment> = Vec::new();
        let mut i: usize = 0;
        let n = parts.len();
        while i < n
            invariant
                i <= n,
                n == parts@.len(),
                segments@.len() == i,
                forall|k: int| 0 <= k < i ==> part_views[k].len() != 0,
                forall|k: int| 0 <= k < i ==> (#[trigger] segments@[k])@ == spec_part_seg(
                    part_views[k],
                ),
            decreases n - i,
        {
            let part = &parts[i];
            if part.as_str().unicode_len() == 0 {
                assert(part_views[i as int].len() == 0);
                return Err(PathParseError::EmptySegment);
            }
            match parse_decimal_usize(part.as_str()) {
                Some(idx) => {
                    segments.push(PathSegment::Index(idx));
                },
                None => {
                    segments.push(PathSegment::Key(part.clone()));
                },
            }
            i = i + 1;
        }
        let r = TranslationPath { segments };
        proof {
            assert(forall|k: int|
                0 <= k < part_views.len() ==> (#[trigger] part_views[k]).len() != 0);
            assert(r@ =~= part_views.map_values(|p: Seq<char>| spec_part_seg(p)));
        }
        Ok(r)
    }

    /// The number of segments.
    pub fn len(&self) -> (r: usize)
        ensures
            r == self@.len(),
    {
        self.segments.len()
    }

    /// Whether the path is the root.
    pub fn is_empty(&self) -> (r: bool)
        ensures
            r == (self@.len() == 0),
    {
        self.segments.len() == 0
    }

    /// The segments.
    pub fn segments(&self) -> (r: &Vec<PathSegment>)
        ensures
            r@.len() == self@.len(),
            forall|i: int| 0 <= i < self@.len() ==> (#[trigger] r@[i])@ == self@[i],
    {
        &self.segments
    }

    /// A copy of the path.
    pub fn duplicate(&self) -> (r: Self)
        ensures
            r@ == self@,
    {
        let mut segments: Vec<PathSegment> = Vec::new();
        let mut i: usize = 0;
        let n = self.segments.len();
        while i < n
            invariant
                i <= n,
                n == self.segments@.len(),
                segments@.len() == i,
                forall|k: int| 0 <= k < i ==> (#[trigger] segments@[k])@ == self.segments@[k]@,
            decreases n - i,
        {
            segments.push(self.segments[i].duplicate());
            i = i + 1;
        }
        let r = TranslationPath { segments };
        proof {
            assert(r@ =~= self@);
        }
        r
    }

    /// This path with a key segment appended.
    pub fn append_key(&self, key: &str) -> (r: Self)
        ensures
            r@ == self@.push(Seg::Key(key@)),
    {
        let mut r = self.duplicate();
        r.segments.push(PathSegment::key(key));
        proof {
            assert(r@ =~= self@.push(Seg::Key(key@)));
        }
        r
    }

    /// This path with an index segment appended.
    pub fn append_index(&self, index: usize) -> (r: Self)
        ensures
            r@ == self@.push(Seg::Index(index as int)),
    {
        let mut r = self.duplicate();
        r.segments.push(PathSegment::Index(index));
        proof {
            assert(r@ =~= self@.push(Seg::Index(index as int)));
        }
        r
    }

    /// This path with another path appended.
    pub fn append(&self, other: &TranslationPath) -> (r: Self)
        ensures
            r@ == self@ + other@,
    {
        let mut r = self.duplicate();
        let mut i: usize = 0;
        let n = other.segments.len();
        while i < n
            invariant
                i <= n,
                n == other.segments@.len(),
                r@ == self@ + other@.subrange(0, i as int),
            decreases n - i,
        {
            let ghost before = r@;
            r.segments.push(other.segments[i].duplicate());
            proof {
                assert(r@ =~= before.push(other@[i as int]));
                assert(r@ =~= self@ + other@.subrange(0, i as int + 1));
            }
            i = i + 1;
        }
        proof {
            assert(other@.subrange(0, n as int) =~= other@);
        }
        r
    }

    /// The parent path: all segments but the last; `None` at the root.
    pub fn parent(&self) -> (r: Option<Self>)
        ensures
            match r {
                Some(p) => self@.len() > 0 && p@ == self@.drop_last(),
                None => self@.len() == 0,
            },
    {
        if self.segments.len() == 0 {
            None
        } else {
            let mut p = self.duplicate();
            p.segments.pop();
            proof {
                assert(p@ =~= self@.drop_last());
            }
            Some(p)
        }
    }

    /// The last segment, if any.
    pub fn last(&self) -> (r: Option<&PathSegment>)
        ensures
            match r {
                Some(s) => self@.len() > 0 && s@ == self@.last(),
                None => self@.len() == 0,
            },
    {
        if self.segments.len() == 0 {
            None
        } else {
            Some(&self.segments[self.segments.len() - 1])
        }
    }

    /// Resolve this path in a JSON tree.
    #[verifier::loop_isolation(false)]
    pub fn get<'a>(&self, json: &'a JsonValue) -> (r: Option<&'a JsonValue>)
        ensures
            match r {
                Some(v) => spec_get(json@, self@) == Some(v@),
                None => spec_get(json@, self@) is None,
            },
    {
        let mut cur: &JsonValue = json;
        let mut i: usize = 0;
        let n = self.segments.len();
        proof {
            assert(self@.skip(0) =~= self@);
        }
        while i < n
            invariant
                i <= n,
                spec_get(json@, self@) == spec_get(cur@, self@.skip(i as int)),
            decreases n - i,
        {
            let ghost segs = self@.skip(i as int);
            proof {
                assert(segs[0] == self@[i as int]);
                assert(segs.drop_first() =~= self@.skip(i as int + 1));
            }
            let next: Option<&JsonValue> = match &self.segments[i] {
                PathSegment::Key(k) => cur.get_key(k.as_str()),
                PathSegment::Index(idx) => cur.get_index(*idx),
            };
            match next {
                Some(v) => {
                    cur = v;
                },
                None => {
                    return None;
                },
            }
            i = i + 1;
        }
        proof {
            assert(self@.skip(n as int) =~= Seq::<Seg>::empty());
        }
        Some(cur)
    }

    /// Write `value` at this path, rebuilding along the way.  On failure
    /// the tree is unchanged.
    pub fn set(&self, json: &mut JsonValue, value: JsonValue) -> (r: Result<(), PathSetError>)
        ensures
            match r {
                Ok(_) => spec_set(old(json)@, self@, value@) == Some(final(json)@),
                Err(_) => spec_set(old(json)@, self@, value@) is None && final(json)@ == old(json)@,
            },
    {
        let r = Self::set_rec(json, &self.segments, 0, value);
        proof {
            assert(Seq::new(self.segments@.len(), |i: int| self.segments@[i]@).skip(0)
                =~= self@);
        }
        r
    }

    /// Recursive worker for `set`: writes `value` under the segments from
    /// `d` on.
    #[verifier::loop_isolation(false)]
    fn set_rec(v: &mut JsonValue, segs: &Vec<PathSegment>, d: usize, value: JsonValue) -> (r:
        Result<(), PathSetError>)
        requires
            d <= segs@.len(),
        ensures
            ({
                let model = Seq::new(segs@.len(), |i: int| segs@[i]@).skip(d as int);
                match r {
                    Ok(_) => spec_set(old(v)@, model, value@) == Some(final(v)@),
                    Err(_) => spec_set(old(v)@, model, value@) is None && final(v)@ == old(v)@,
                }
            }),
        decreases segs@.len() - d,
    {
        let ghost model = Seq::new(segs@.len(), |i: int| segs@[i]@).skip(d as int);
        if d == segs.len() {
            *v = value;
            return Ok(());
        }
        proof {
            assert(model[0] == segs@[d as int]@);
            assert(model.drop_first() =~= Seq::new(segs@.len(), |i: int| segs@[i]@).skip(
                d as int + 1,
            ));
        }
        let last = d + 1 == segs.len();
        proof {
            if last {
                assert(model.len() == 1);
            }
        }
        match &segs[d] {
            PathSegment::Key(k) => {
                match v {
                    JsonValue::Object(fields) => {
                        let ghost obj = crate::json::json_view_fields(fields@);
                        proof {
                            crate::json::lemma_json_view_fields(fields@);
                        }
                        // find the first field with this key
                        let mut i: usize = 0;
                        let n = fields.len();
                        let mut found = false;
                        while i < n && !found
                            invariant
                                i <= n,
                                n == fields@.len(),
                                !found ==> forall|j: int| 0 <= j < i ==> (#[trigger] obj[j]).0
                                    != k@,
                                found ==> i < n && obj[i as int].0 == k@ && forall|j: int|
                                    0 <= j < i ==> (#[trigger] obj[j]).0 != k@,
                            decreases n - i, (if found { 0int } else { 1int }),
                        {
                            if str_eq(fields[i].0.as_str(), k.as_str()) {
                                found = true;
                            } else {
                                i = i + 1;
                            }
                        }
                        if found {
                            proof {
                                lemma_obj_get_at(obj, k@, i as int);
                            }
                            let mut pair = fields.remove(i);
                            if last {
                                let old_key = pair.0;
                                fields.insert(i, (old_key, value));
                                proof {
                                    crate::json::lemma_json_view_fields(fields@);
                                    lemma_obj_set_at(obj, k@, i as int, value@);
                                    assert(crate::json::json_view_fields(fields@) =~= spec_obj_set(
                                        obj,
                                        k@,
                                        value@,
                                    ));
                                }
                                return Ok(());
                            } else {
                                let res = Self::set_rec(&mut pair.1, segs, d + 1, value);
                                let ghost new_child = pair.1@;
                                fields.insert(i, pair);
                                proof {
                                    crate::json::lemma_json_view_fields(fields@);
                                }
                                match res {
                                    Ok(_) => {
                                        proof {
                                            lemma_obj_set_at(obj, k@, i as int, new_child);
                                            assert(crate::json::json_view_fields(fields@)
                                                =~= spec_obj_set(obj, k@, new_child));
                                        }
                                        return Ok(());
                                    },
                                    Err(e) => {
                                        proof {
                                            assert(crate::json::json_view_fields(fields@)
                                                =~= obj);
                                        }
                                        return Err(e);
                                    },
                                }
                            }
                        } else {
                            proof {
                                lemma_obj_get_absent(obj, k@);
                            }
                            if last {
                                let new_key = k.clone();
                                fields.push((new_key, value));
                                proof {
                                    crate::json::lemma_json_view_fields(fields@);
                                    lemma_obj_set_absent(obj, k@, value@);
                                    assert(crate::json::json_view_fields(fields@) =~= spec_obj_set(
                                        obj,
                                        k@,
                                        value@,
                                    ));
                                }
                                return Ok(());
                            } else {
                                return Err(PathSetError::ParentNotFound);
                            }
                        }
                    },
                    _ => {
                        if last {
                            return Err(PathSetError::NotAnObject);
                        } else {
                            return Err(PathSetError::ParentNotFound);
                        }
                    },
                }
            },
            PathSegment::Index(idx) => {
                let idx = *idx;
                match v {
                    JsonValue::Array(elems) => {
                        let ghost arr = crate::json::json_view_list(elems@);
                        proof {
                            crate::json::lemma_json_view_list(elems@);
                        }
                        if idx >= elems.len() {
                            if last {
                                return Err(PathSetError::IndexOutOfBounds);
                            } else {
                                return Err(PathSetError::ParentNotFound);
                            }
                        }
                        let mut elem = elems.remove(idx);
                        if last {
                            elems.insert(idx, value);
                            proof {
                                crate::json::lemma_json_view_list(elems@);
                                assert(crate::json::json_view_list(elems@) =~= arr.update(
                                    idx as int,
                                    value@,
                                ));
                            }
                            return Ok(());
                        } else {
                            let res = Self::set_rec(&mut elem, segs, d + 1, value);
                            let ghost new_child = elem@;
                            elems.insert(idx, elem);
                            proof {
                                crate::json::lemma_json_view_list(elems@);
                            }
                            match res {
                                Ok(_) => {
                                    proof {
                                        assert(crate::json::json_view_list(elems@) =~= arr.update(
                                            idx as int,
                                            new_child,
                                        ));
                                    }
                                    return Ok(());
                                },
                                Err(e) => {
                                    proof {
                                        assert(crate::json::json_view_list(elems@) =~= arr);
                                    }
                                    return Err(e);
                                },
                            }
                        }
                    },
                    _ => {
                        if last {
                            return Err(PathSetError::NotAnArray);
                        } else {
                            return Err(PathSetError::ParentNotFound);
                        }
                    },
                }
            },
        }
    }

    /// The dotted string of a segment sequence.
    pub open spec fn spec_path_string(segs: Seq<Seg>) -> Seq<char>
        decreases segs.len(),
    {
        if segs.len() == 0 {
            Seq::empty()
        } else if segs.len() == 1 {
            PathSegment::spec_string(segs[0])
        } else {
            Self::spec_path_string(segs.drop_last()) + seq!['.'] + PathSegment::spec_string(
                segs.last(),
            )
        }
    }

    /// The dotted string form of this path.
    #[verifier::loop_isolation(false)]
    pub fn to_path_string(&self) -> (r: String)
        ensures
            r@ == Self::spec_path_string(self@),
    {
        let mut out = String::new();
        let mut i: usize = 0;
        let n = self.segments.len();
        while i < n
            invariant
                i <= n,
                out@ == Self::spec_path_string(self@.subrange(0, i as int)),
            decreases n - i,
        {
            if i > 0 {
                string_push_char(&mut out, '.');
            }
            let seg = self.segments[i].to_segment_string();
            append_str(&mut out, seg.as_str());
            proof {
                assert(self@.subrange(0, i as int + 1).drop_last() =~= self@.subrange(
                    0,
                    i as int,
                ));
                assert(self@.subrange(0, i as int + 1).last() == self@[i as int]);
                if i == 0 {
                    assert(out@ =~= Self::spec_path_string(self@.subrange(0, 1)));
                } else {
                    assert(out@ =~= Self::spec_path_string(self@.subrange(0, i as int))
                        + seq!['.'] + PathSegment::spec_string(self@[i as int]));
                }
            }
            i = i + 1;
        }
        proof {
            assert(self@.subrange(0, n as int) =~= self@);
        }
        out
    }

    /// The unit id this path yields: the dotted path, with `_suffix`
    /// appended when the suffix is non-empty.
    pub open spec fn spec_unit_id(segs: Seq<Seg>, suffix: Seq<char>) -> Seq<char> {
        if suffix.len() == 0 {
            Self::spec_path_string(segs)
        } else {
            Self::spec_path_string(segs) + seq!['_'] + suffix
        }
    }

    /// Build a stable translation-unit id from this path and a role
    /// suffix.
    pub fn to_unit_id(&self, suffix: &str) -> (r: String)
        ensures
            r@ == Self::spec_unit_id(self@, suffix@),
    {
        let mut out = self.to_path_string();
        if suffix.unicode_len() > 0 {
            string_push_char(&mut out, '_');
            append_str(&mut out, suffix);
        }
        out
    }
}

/// Model of one pattern segment.
pub enum PatSeg {
    /// Matches exactly this text.
    Lit(Seq<char>),
    /// `|ARY|`: matches any decimal integer segment.
    Ary,
    /// `|OBJ|`: matches any identifier segment that is not a number.
    Obj,
}

/// One segment of a path pattern.
#[derive(Debug)]
pub enum PatternSegment {
    /// Matches exactly this text.
    Lit(String),
    /// `|ARY|`: matches any decimal integer segment.
    AnyIndex,
    /// `|OBJ|`: matches any identifier segment that is not a number.
    AnyKey,
}

impl View for PatternSegment {
    type V = PatSeg;

    open spec fn view(&self) -> PatSeg {
        match self {
            PatternSegment::Lit(l) => PatSeg::Lit(l@),
            PatternSegment::AnyIndex => PatSeg::Ary,
            PatternSegment::AnyKey => PatSeg::Obj,
        }
    }
}

/// Whether a character may appear in an identifier segment.
pub open spec fn spec_is_word_char(c: char) -> bool {
    (48 <= c as u32 <= 57) || (65 <= c as u32 <= 90) || (97 <= c as u32 <= 122) || c as u32 == 95
}

/// Whether one pattern segment matches one path segment string.
pub open spec fn spec_seg_matches(p: PatSeg, s: Seq<char>) -> bool {
    match p {
        PatSeg::Lit(l) => s == l,
        PatSeg::Ary => spec_all_digits(s),
        PatSeg::Obj => s.len() > 0 && (forall|i: int|
            0 <= i < s.len() ==> spec_is_word_char(#[trigger] s[i])) && !spec_all_digits(s),
    }
}

/// Whether a pattern matches a split path: same number of segments, each
/// matching in place.
pub open spec fn spec_pattern_matches(pats: Seq<PatSeg>, parts: Seq<Seq<char>>) -> bool {
    pats.len() == parts.len() && forall|i: int|
        0 <= i < pats.len() ==> spec_seg_matches(#[trigger] pats[i], parts[i])
}

/// The pattern segment a split pattern part stands for.
pub open spec fn spec_pattern_seg_of(part: Seq<char>) -> PatSeg {
    if part == "|ARY|"@ {
        PatSeg::Ary
    } else if part == "|OBJ|"@ {
        PatSeg::Obj
    } else {
        PatSeg::Lit(part)
    }
}

/// The compiled form of a pattern string.
pub open spec fn spec_compile_pattern(p: Seq<char>) -> Seq<PatSeg> {
    spec_split_dots(p).map_values(|s: Seq<char>| spec_pattern_seg_of(s))
}

/// Decide whether a non-empty string is all decimal digits.
pub fn is_all_digits(s: &str) -> (r: bool)
    ensures
        r == spec_all_digits(s@),
{
    let n = s.unicode_len();
    if n == 0 {
        return false;
    }
    let mut i: usize = 0;
    while i < n
        invariant
            i <= n,
            n == s@.len(),
            forall|j: int| 0 <= j < i ==> crate::strutil::spec_is_digit(#[trigger] s@[j]),
        decreases n - i,
    {
        let cv = s.get_char(i) as u32;
        if cv < 48 || cv > 57 {
            return false;
        }
        i = i + 1;
    }
    true
}

/// Decide whether a string is a non-empty run of identifier characters.
fn is_word_segment(s: &str) -> (r: bool)
    ensures
        r == (s@.len() > 0 && forall|i: int|
            0 <= i < s@.len() ==> spec_is_word_char(#[trigger] s@[i])),
{
    let n = s.unicode_len();
    if n == 0 {
        return false;
    }
    let mut i: usize = 0;
    while i < n
        invariant
            i <= n,
            n == s@.len(),
            forall|j: int| 0 <= j < i ==> spec_is_word_char(#[trigger] s@[j]),
        decreases n - i,
    {
        let cv = s.get_char(i) as u32;
        if !((48 <= cv && cv <= 57) || (65 <= cv && cv <= 90) || (97 <= cv && cv <= 122) || cv
            == 95) {
            return false;
        }
        i = i + 1;
    }
    true
}

/// A pattern over dotted paths, with `|ARY|` and `|OBJ|` wildcards.
#[derive(Debug)]
pub struct PathPattern {
    pattern: String,
    segments: Vec<PatternSegment>,
}

impl PathPattern {
    /// The pattern's source text, as seen by specifications.
    pub closed spec fn pattern_spec(&self) -> Seq<char> {
        self.pattern@
    }

    /// The compiled segments, as seen by specifications.
    pub closed spec fn segs_spec(&self) -> Seq<PatSeg> {
        Seq::new(self.segments@.len(), |i: int| self.segments@[i]@)
    }

    /// A compiled pattern is faithful to its source text.
    pub open spec fn wf(&self) -> bool {
        self.segs_spec() == spec_compile_pattern(self.pattern_spec())
    }

    /// Compile a pattern: split on dots, turning `|ARY|` and `|OBJ|`
    /// parts into wildcards and everything else into literals.
    #[verifier::loop_isolation(false)]
    pub fn new(pattern: &str) -> (r: Self)
        ensures
            r.pattern_spec() == pattern@,
            r.wf(),
    {
        proof {
            reveal_strlit("|ARY|");
            reveal_strlit("|OBJ|");
        }
        let parts = split_dots(pattern);
        let ghost part_views = parts@.map_values(|x: String| x@);
        let mut segments: Vec<PatternSegment> = Vec::new();
        let mut i: usize = 0;
        let n = parts.len();
        while i < n
            invariant
                i <= n,
                n == parts@.len(),
                segments@.len() == i,
                forall|k: int| 0 <= k < i ==> (#[trigger] segments@[k])@ == spec_pattern_seg_of(
                    part_views[k],
                ),
            decreases n - i,
        {
            let part = &parts[i];
            if str_eq(part.as_str(), "|ARY|") {
                segments.push(PatternSegment::AnyIndex);
            } else if str_eq(part.as_str(), "|OBJ|") {
                segments.push(PatternSegment::AnyKey);
            } else {
                segments.push(PatternSegment::Lit(part.clone()));
            }
            i = i + 1;
        }
        let r = PathPattern { pattern: String::from_str(pattern), segments };
        proof {
            assert(r.segs_spec() =~= part_views.map_values(
                |s: Seq<char>| spec_pattern_seg_of(s),
            ));
        }
        r
    }

    /// Whether a dotted path string matches this pattern.
    #[verifier::loop_isolation(false)]
    pub fn matches(&self, path: &str) -> (r: bool)
        ensures
            r == spec_pattern_matches(self.segs_spec(), spec_split_dots(path@)),
    {
        let parts = split_dots(path);
        let ghost part_views = parts@.map_values(|x: String| x@);
        if parts.len() != self.segments.len() {
            return false;
        }
        let mut i: usize = 0;
        let n = parts.len();
        while i < n
            invariant
                i <= n,
                n == parts@.len(),
                n == self.segments@.len(),
                forall|k: int| 0 <= k < i ==> spec_seg_matches(
                    #[trigger] self.segs_spec()[k],
                    part_views[k],
                ),
            decreases n - i,
        {
            let part = &parts[i];
            let ok = match &self.segments[i] {
                PatternSegment::Lit(l) => str_eq(part.as_str(), l.as_str()),
                PatternSegment::AnyIndex => is_all_digits(part.as_str()),
                PatternSegment::AnyKey => {
                    let w = is_word_segment(part.as_str());
                    if w {
                        !is_all_digits(part.as_str())
                    } else {
                        false
                    }
                },
            };
            if !ok {
                assert(!spec_seg_matches(self.segs_spec()[i as int], part_views[i as int]));
                return false;
            }
            i = i + 1;
        }
        true
    }

    /// Whether a structured path matches this pattern.
    pub fn matches_path(&self, path: &TranslationPath) -> (r: bool)
        ensures
            r == spec_pattern_matches(
                self.segs_spec(),
                spec_split_dots(TranslationPath::spec_path_string(path@)),
            ),
    {
        let s = path.to_path_string();
        self.matches(s.as_str())
    }

    /// The pattern's source text.
    pub fn pattern(&self) -> (r: &str)
        ensures
            r@ == self.pattern_spec(),
    {
        self.pattern.as_str()
    }

    /// A copy of the pattern.
    pub fn duplicate(&self) -> (r: Self)
        ensures
            r.pattern_spec() == self.pattern_spec(),
            r.segs_spec() == self.segs_spec(),
    {
        let mut segments: Vec<PatternSegment> = Vec::new();
        let mut i: usize = 0;
        let n = self.segments.len();
        while i < n
            invariant
                i <= n,
                n == self.segments@.len(),
                segments@.len() == i,
                forall|k: int| 0 <= k < i ==> (#[trigger] segments@[k])@ == self.segments@[k]@,
            decreases n - i,
        {
            let seg = match &self.segments[i] {
                PatternSegment::Lit(l) => PatternSegment::Lit(l.clone()),
                PatternSegment::AnyIndex => PatternSegment::AnyIndex,
                PatternSegment::AnyKey => PatternSegment::AnyKey,
            };
            segments.push(seg);
            i = i + 1;
        }
        let r = PathPattern { pattern: self.pattern.clone(), segments };
        proof {
            assert(r.segs_spec() =~= self.segs_spec());
        }
        r
    }
}

/// In a matching path, an `|ARY|` wildcard position may be replaced by any
/// decimal segment and the path still matches.
pub proof fn lemma_pattern_ary_replacement(
    pats: Seq<PatSeg>,
    parts: Seq<Seq<char>>,
    i: int,
    digits: Seq<char>,
)
    requires
        spec_pattern_matches(pats, parts),
        0 <= i < pats.len(),
        pats[i] is Ary,
        spec_all_digits(digits),
    ensures
        spec_pattern_matches(pats, parts.update(i, digits)),
{
    assert forall|j: int| 0 <= j < pats.len() implies spec_seg_matches(
        #[trigger] pats[j],
        parts.update(i, digits)[j],
    ) by {
        if j != i {
            assert(parts.update(i, digits)[j] == parts[j]);
        }
    }
}

/// When the first `i` keys differ and field `i` carries the key, lookup
/// finds field `i` (public form).
pub proof fn lemma_obj_get_at_pub(fields: Seq<(Seq<char>, Json)>, key: Seq<char>, i: int)
    requires
        0 <= i < fields.len(),
        fields[i].0 == key,
        forall|j: int| 0 <= j < i ==> (#[trigger] fields[j]).0 != key,
    ensures
        spec_obj_get(fields, key) == Some(fields[i].1),
{
    lemma_obj_get_at(fields, key, i);
}

/// When the first `i` keys differ and field `i` carries the key, lookup
/// finds field `i`.
proof fn lemma_obj_get_at(fields: Seq<(Seq<char>, Json)>, key: Seq<char>, i: int)
    requires
        0 <= i < fields.len(),
        fields[i].0 == key,
        forall|j: int| 0 <= j < i ==> (#[trigger] fields[j]).0 != key,
    ensures
        spec_obj_get(fields, key) == Some(fields[i].1),
    decreases i,
{
    if i > 0 {
        lemma_obj_get_at(fields.drop_first(), key, i - 1);
    }
}

/// When no field carries the key, lookup fails (public form).
pub proof fn lemma_obj_get_absent_pub(fields: Seq<(Seq<char>, Json)>, key: Seq<char>)
    requires
        forall|j: int| 0 <= j < fields.len() ==> (#[trigger] fields[j]).0 != key,
    ensures
        spec_obj_get(fields, key) is None,
{
    lemma_obj_get_absent(fields, key);
}

/// When no field carries the key, lookup fails.
proof fn lemma_obj_get_absent(fields: Seq<(Seq<char>, Json)>, key: Seq<char>)
    requires
        forall|j: int| 0 <= j < fields.len() ==> (#[trigger] fields[j]).0 != key,
    ensures
        spec_obj_get(fields, key) is None,
    decreases fields.len(),
{
    if fields.len() > 0 {
        lemma_obj_get_absent(fields.drop_first(), key);
    }
}

/// Setting a key that first occurs at position `i` updates exactly that
/// field, keeping its key.
pub proof fn lemma_obj_set_at(fields: Seq<(Seq<char>, Json)>, key: Seq<char>, i: int, val: Json)
    requires
        0 <= i < fields.len(),
        fields[i].0 == key,
        forall|j: int| 0 <= j < i ==> (#[trigger] fields[j]).0 != key,
    ensures
        spec_obj_set(fields, key, val) == fields.update(i, (key, val)),
    decreases i,
{
    if i == 0 {
        assert(spec_obj_set(fields, key, val) =~= fields.update(0, (key, val)));
    } else {
        lemma_obj_set_at(fields.drop_first(), key, i - 1, val);
        assert(seq![fields[0]] + fields.drop_first().update(i - 1, (key, val)) =~= fields.update(
            i,
            (key, val),
        ));
    }
}

/// Setting an absent key appends the field.
proof fn lemma_obj_set_absent(fields: Seq<(Seq<char>, Json)>, key: Seq<char>, val: Json)
    requires
        forall|j: int| 0 <= j < fields.len() ==> (#[trigger] fields[j]).0 != key,
    ensures
        spec_obj_set(fields, key, val) == fields.push((key, val)),
    decreases fields.len(),
{
    if fields.len() == 0 {
        assert(spec_obj_set(fields, key, val) =~= fields.push((key, val)));
    } else {
        lemma_obj_set_absent(fields.drop_first(), key, val);
        assert(seq![fields[0]] + fields.drop_first().push((key, val)) =~= fields.push(
            (key, val),
        ));
    }
}

/// Resolution composes over concatenated paths: resolving `a + b` is
/// resolving `a`, then `b` from where it landed.
pub proof fn lemma_spec_get_append(j: Json, a: Seq<Seg>, b: Seq<Seg>)
    ensures
        spec_get(j, a + b) == (match spec_get(j, a) {
            Some(x) => spec_get(x, b),
            None => None::<Json>,
        }),
    decreases a.len(),
{
    if a.len() == 0 {
        assert(a + b =~= b);
    } else {
        assert((a + b).len() > 0);
        assert((a + b)[0] == a[0]);
        assert((a + b).drop_first() =~= a.drop_first() + b);
        match a[0] {
            Seg::Key(k) => match j {
                Json::Obj(fields) => match spec_obj_get(fields, k) {
                    Some(c) => {
                        lemma_spec_get_append(c, a.drop_first(), b);
                    },
                    None => {},
                },
                _ => {},
            },
            Seg::Index(i) => match j {
                Json::Arr(elems) => {
                    if 0 <= i < elems.len() {
                        lemma_spec_get_append(elems[i], a.drop_first(), b);
                    }
                },
                _ => {},
            },
        }
    }
}

} // verus!

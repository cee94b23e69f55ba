//! A small verified map from translation-unit ids to translated strings,
//! backed by an association list.  Injection looks translations up in one
//! of these.

use vstd::prelude::*;

use crate::strutil::str_eq;

verus! {

/// A map from unit ids to translations.
#[derive(Debug)]
pub struct TranslationMap {
    entries: Vec<(String, String)>,
}

/// First-match lookup in an association list of string pairs.
pub open spec fn spec_assoc_get(entries: Seq<(Seq<char>, Seq<char>)>, key: Seq<char>) -> Option<
    Seq<char>,
>
    decreases entries.len(),
{
    if entries.len() == 0 {
        None
    } else if entries[0].0 == key {
        Some(entries[0].1)
    } else {
        spec_assoc_get(entries.drop_first(), key)
    }
}

impl View for TranslationMap {
    type V = Seq<(Seq<char>, Seq<char>)>;

    closed spec fn view(&self) -> Seq<(Seq<char>, Seq<char>)> {
        Seq::new(self.entries@.len(), |i: int| (self.entries@[i].0@, self.entries@[i].1@))
    }
}

impl TranslationMap {
    /// What looking a key up in this map yields.
    pub open spec fn spec_get(&self, key: Seq<char>) -> Option<Seq<char>> {
        spec_assoc_get(self@, key)
    }

    /// An empty map.
    pub fn new() -> (r: Self)
        ensures
            r@.len() == 0,
    {
        let r = TranslationMap { entries: Vec::new() };
        proof {
            assert(r@ =~= Seq::<(Seq<char>, Seq<char>)>::empty());
        }
        r
    }

    /// The number of entries.
    pub fn len(&self) -> (r: usize)
        ensures
            r == self@.len(),
    {
        self.entries.len()
    }

    /// Add a translation at the end; an existing entry with the same id
    /// keeps precedence on lookup.
    pub fn insert(&mut self, id: &str, translation: &str)
        ensures
            final(self)@ == old(self)@.push((id@, translation@)),
    {
        self.entries.push((String::from_str(id), String::from_str(translation)));
        proof {
            assert(final(self)@ =~= old(self)@.push((id@, translation@)));
        }
    }

    /// Look a unit id up.
    #[verifier::loop_isolation(false)]
    pub fn get(&self, key: &str) -> (r: Option<&String>)
        ensures
            match r {
                Some(v) => self.spec_get(key@) == Some(v@),
                None => self.spec_get(key@) is None,
            },
    {
        let ghost model = self@;
        proof {
            assert(model.skip(0) =~= model);
        }
        let mut i: usize = 0;
        let n = self.entries.len();
        while i < n
            invariant
                i <= n,
                n == self.entries@.len(),
                spec_assoc_get(model.skip(i as int), key@) == spec_assoc_get(model, key@),
            decreases n - i,
        {
            proof {
                assert(model.skip(i as int)[0] == model[i as int]);
                assert(model.skip(i as int).drop_first() =~= model.skip(i as int + 1));
            }
            if str_eq(self.entries[i].0.as_str(), key) {
                return Some(&self.entries[i].1);
            }
            i = i + 1;
        }
        proof {
            assert(model.skip(n as int) =~= Seq::<(Seq<char>, Seq<char>)>::empty());
        }
        None
    }

    /// Whether the map holds no entries.
    pub fn is_empty(&self) -> (r: bool)
        ensures
            r == (self@.len() == 0),
    {
        self.entries.len() == 0
    }
}

/// An empty map never finds anything.
pub broadcast proof fn lemma_empty_map_get(entries: Seq<(Seq<char>, Seq<char>)>, key: Seq<char>)
    requires
        entries.len() == 0,
    ensures
        #[trigger] spec_assoc_get(entries, key) is None,
{
}

} // verus!

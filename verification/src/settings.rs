//! Resolved command settings: a map from setting names to texts.
use vstd::prelude::*;
use crate::text::same_text;

verus! {

/// The map that a list of entries describes; a later entry overrides an
/// earlier one with the same name.
pub open spec fn entries_map(s: Seq<(Seq<char>, Seq<char>)>) -> Map<Seq<char>, Seq<char>>
    decreases s.len(),
{
    if s.len() == 0 {
        Map::empty()
    } else {
        entries_map(s.drop_last()).insert(s.last().0, s.last().1)
    }
}

pub open spec fn entry_views(s: Seq<(String, String)>) -> Seq<(Seq<char>, Seq<char>)> {
    s.map_values(|e: (String, String)| (e.0@, e.1@))
}

/// Setting names and their values, as the flag parser resolved them.
#[derive(Debug, Clone)]
pub struct Settings {
    entries: Vec<(String, String)>,
}

impl View for Settings {
    type V = Map<Seq<char>, Seq<char>>;

    closed spec fn view(&self) -> Map<Seq<char>, Seq<char>> {
        entries_map(entry_views(self.entries@))
    }
}

proof fn lemma_lookup_tail(s: Seq<(Seq<char>, Seq<char>)>, i: int, key: Seq<char>)
    requires
        0 <= i <= s.len(),
        forall|j: int| i <= j < s.len() ==> (#[trigger] s[j]).0 != key,
    ensures
        entries_map(s).contains_key(key) == entries_map(s.take(i)).contains_key(key),
        entries_map(s)[key] == entries_map(s.take(i))[key],
    decreases s.len() - i,
{
    if i < s.len() {
        assert(s.drop_last().take(i) =~= s.take(i));
        lemma_lookup_tail(s.drop_last(), i, key);
    } else {
        assert(s.take(i) =~= s);
    }
}

impl Settings {
    /// No settings.
    pub fn new() -> (r: Settings)
        ensures
            r@ == Map::<Seq<char>, Seq<char>>::empty(),
    {
        let r = Settings { entries: Vec::new() };
        assert(entry_views(r.entries@) =~= Seq::empty());
        r
    }

    /// Sets `name` to `value`, replacing any earlier value.
    pub fn insert(&mut self, name: String, value: String)
        ensures
            final(self)@ == old(self)@.insert(name@, value@),
    {
        let ghost before = entry_views(self.entries@);
        self.entries.push((name, value));
        assert(entry_views(self.entries@).drop_last() =~= before);
    }

    /// The value of `name`, if it is set.
    pub fn get(&self, name: &str) -> (r: Option<&str>)
        ensures
            match r {
                Some(v) => self@.contains_key(name@) && self@[name@] == v@,
                None => !self@.contains_key(name@),
            },
    {
        let ghost s = entry_views(self.entries@);
        let mut i = self.entries.len();
        while i > 0
            invariant
                s == entry_views(self.entries@),
                i <= self.entries@.len(),
                forall|j: int| i <= j < s.len() ==> (#[trigger] s[j]).0 != name@,
            decreases i,
        {
            let entry = &self.entries[i - 1];
            if same_text(entry.0.as_str(), name) {
                proof {
                    lemma_lookup_tail(s, i as int, name@);
                    assert(s.take(i as int).drop_last() =~= s.take(i - 1));
                    assert(s.take(i as int).last() == s[i - 1]);
                }
                return Some(entry.1.as_str());
            }
            i = i - 1;
        }
        proof {
            lemma_lookup_tail(s, 0, name@);
            assert(s.take(0) =~= Seq::<(Seq<char>, Seq<char>)>::empty());
        }
        None
    }
}

} // verus!

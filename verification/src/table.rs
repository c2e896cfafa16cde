//! Small tables keyed by text: a map from text to text and a set of texts.
//!
//! Both are kept as vectors and searched in order.  The tables of this
//! crate hold a handful of entries: mount points and library paths.
use vstd::prelude::*;

verus! {

/// The map that a sequence of entries stands for.  Where a key occurs more
/// than once, the last entry counts.
pub open spec fn map_of(entries: Seq<(String, String)>) -> Map<Seq<char>, Seq<char>>
    decreases entries.len(),
{
    if entries.len() == 0 {
        Map::empty()
    } else {
        map_of(entries.drop_last()).insert(entries.last().0@, entries.last().1@)
    }
}

/// A map from text to text.
pub struct TextMap {
    entries: Vec<(String, String)>,
}

impl View for TextMap {
    type V = Map<Seq<char>, Seq<char>>;

    closed spec fn view(&self) -> Map<Seq<char>, Seq<char>> {
        map_of(self.entries@)
    }
}

impl TextMap {
    /// The empty map.
    pub fn new() -> (map: TextMap)
        ensures
            map@ == Map::<Seq<char>, Seq<char>>::empty(),
    {
        TextMap { entries: Vec::new() }
    }

    /// The value under `key`, if there is one.
    pub fn get(&self, key: &String) -> (value: Option<&String>)
        ensures
            match value {
                Some(v) => self@.contains_key(key@) && self@[key@] == v@,
                None => !self@.contains_key(key@),
            },
    {
        let mut i: usize = self.entries.len();
        assert(self.entries@.take(i as int) =~= self.entries@);
        while i > 0
            invariant
                i <= self.entries@.len(),
                self@.contains_key(key@) <==> map_of(self.entries@.take(i as int)).contains_key(
                    key@,
                ),
                self@.contains_key(key@) ==> self@[key@] == map_of(self.entries@.take(i as int))[key@],
            decreases i,
        {
            let ghost prefix = self.entries@.take(i as int);
            assert(prefix.drop_last() =~= self.entries@.take(i - 1));
            assert(prefix.last() == self.entries@[i - 1]);
            i -= 1;
            if self.entries[i].0 == *key {
                return Some(&self.entries[i].1);
            }
        }
        None
    }

    /// Puts `value` under `key`, in place of what was there.
    pub fn insert(&mut self, key: String, value: String)
        ensures
            final(self)@ == old(self)@.insert(key@, value@),
    {
        let ghost before = self.entries@;
        self.entries.push((key, value));
        assert(self.entries@.drop_last() =~= before);
    }

    /// Forgets every key that is not among `keys`.
    pub fn retain_keys(&mut self, keys: &TextSet)
        ensures
            final(self)@ == old(self)@.restrict(keys@),
    {
        let mut kept: Vec<(String, String)> = Vec::new();
        let mut i: usize = 0;
        assert(self.entries@.take(0) =~= Seq::empty());
        assert(map_of(kept@) =~= map_of(self.entries@.take(0)).restrict(keys@));
        while i < self.entries.len()
            invariant
                i <= self.entries@.len(),
                map_of(kept@) == map_of(self.entries@.take(i as int)).restrict(keys@),
            decreases self.entries@.len() - i,
        {
            let ghost prefix = self.entries@.take(i + 1);
            assert(prefix.drop_last() =~= self.entries@.take(i as int));
            assert(prefix.last() == self.entries@[i as int]);
            let ghost was = kept@;
            if keys.contains(&self.entries[i].0) {
                let key = self.entries[i].0.clone();
                let value = self.entries[i].1.clone();
                kept.push((key, value));
                assert(kept@.drop_last() =~= was);
                assert(map_of(kept@) =~= map_of(prefix).restrict(keys@));
            } else {
                assert(map_of(kept@) =~= map_of(prefix).restrict(keys@));
            }
            i += 1;
        }
        assert(self.entries@.take(i as int) =~= self.entries@);
        self.entries = kept;
    }
}

/// The set that a sequence of texts stands for.
pub open spec fn set_of(items: Seq<String>) -> Set<Seq<char>> {
    Set::new(|text: Seq<char>| exists|i: int| 0 <= i < items.len() && (#[trigger] items[i])@ == text)
}

/// A set of texts.
pub struct TextSet {
    items: Vec<String>,
}

impl View for TextSet {
    type V = Set<Seq<char>>;

    closed spec fn view(&self) -> Set<Seq<char>> {
        set_of(self.items@)
    }
}

impl TextSet {
    /// The empty set.
    pub fn new() -> (set: TextSet)
        ensures
            set@ == Set::<Seq<char>>::empty(),
    {
        let set = TextSet { items: Vec::new() };
        assert(set@ =~= Set::<Seq<char>>::empty());
        set
    }

    /// Whether `text` is in the set.
    pub fn contains(&self, text: &String) -> (found: bool)
        ensures
            found == self@.contains(text@),
    {
        let mut i: usize = 0;
        while i < self.items.len()
            invariant
                i <= self.items@.len(),
                forall|j: int| 0 <= j < i ==> (#[trigger] self.items@[j])@ != text@,
            decreases self.items@.len() - i,
        {
            if self.items[i] == *text {
                return true;
            }
            i += 1;
        }
        false
    }

    /// Puts `text` into the set.  Says whether it was new; a text that is
    /// in the set already is not put in again.
    pub fn insert(&mut self, text: String) -> (new: bool)
        ensures
            new == !old(self)@.contains(text@),
            final(self)@ == old(self)@.insert(text@),
    {
        if self.contains(&text) {
            assert(self@ =~= self@.insert(text@));
            return false;
        }
        let ghost before = self.items@;
        let ghost added = text@;
        self.items.push(text);
        assert(self@ =~= set_of(before).insert(added)) by {
            assert forall|t: Seq<char>| set_of(before).insert(added).contains(t) implies set_of(
                self.items@,
            ).contains(t) by {
                if t == added {
                    assert(self.items@[before.len() as int]@ == t);
                } else {
                    let i = choose|i: int| 0 <= i < before.len() && (#[trigger] before[i])@ == t;
                    assert(self.items@[i]@ == t);
                }
            }
            assert forall|t: Seq<char>| set_of(self.items@).contains(t) implies set_of(
                before,
            ).insert(added).contains(t) by {
                let i = choose|i: int|
                    0 <= i < self.items@.len() && (#[trigger] self.items@[i])@ == t;
                if i < before.len() {
                    assert(before[i]@ == t);
                }
            }
        }
        true
    }
}

} // verus!

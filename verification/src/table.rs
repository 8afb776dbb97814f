//! A table of values that are found by a text.
use crate::text;
use vstd::prelude::*;

verus! {

/// Values under texts, at most one under each.
#[derive(Debug)]
pub struct TextMap<V> {
    entries: Vec<(String, V)>,
}

/// What a run of entries says: the first with a key decides.
spec fn entries_map<V>(s: Seq<(String, V)>) -> Map<Seq<char>, V>
    decreases s.len(),
{
    if s.len() == 0 {
        Map::empty()
    } else {
        entries_map(s.drop_first()).insert(s[0].0@, s[0].1)
    }
}

impl<V> View for TextMap<V> {
    type V = Map<Seq<char>, V>;

    closed spec fn view(&self) -> Map<Seq<char>, V> {
        entries_map(self.entries@)
    }
}

spec fn first_at<V>(s: Seq<(String, V)>, key: Seq<char>, i: int) -> bool {
    &&& 0 <= i <= s.len()
    &&& i < s.len() ==> s[i].0@ == key
    &&& forall|k: int| 0 <= k < i ==> (#[trigger] s[k]).0@ != key
}

proof fn lemma_lookup<V>(s: Seq<(String, V)>, key: Seq<char>, i: int)
    requires
        first_at(s, key, i),
    ensures
        entries_map(s).contains_key(key) == (i < s.len()),
        i < s.len() ==> entries_map(s)[key] == s[i].1,
    decreases s.len(),
{
    if s.len() > 0 && i > 0 {
        let rest = s.drop_first();
        assert forall|k: int| 0 <= k < i - 1 implies (#[trigger] rest[k]).0@ != key by {
            assert(rest[k] == s[k + 1]);
        }
        assert(s[0].0@ != key);
        lemma_lookup(rest, key, i - 1);
    }
}

proof fn lemma_update<V>(s: Seq<(String, V)>, i: int, k: String, v: V)
    requires
        i < s.len(),
        first_at(s, k@, i),
    ensures
        entries_map(s.update(i, (k, v))) =~= entries_map(s).insert(k@, v),
    decreases s.len(),
{
    let t = s.update(i, (k, v));
    if i == 0 {
        assert(t.drop_first() =~= s.drop_first());
    } else {
        let rest = s.drop_first();
        assert forall|j: int| 0 <= j < i - 1 implies (#[trigger] rest[j]).0@ != k@ by {
            assert(rest[j] == s[j + 1]);
        }
        assert(s[0].0@ != k@);
        lemma_update(rest, i - 1, k, v);
        assert(t.drop_first() =~= rest.update(i - 1, (k, v)));
    }
}

proof fn lemma_push<V>(s: Seq<(String, V)>, k: String, v: V)
    requires
        first_at(s, k@, s.len() as int),
    ensures
        entries_map(s.push((k, v))) =~= entries_map(s).insert(k@, v),
    decreases s.len(),
{
    let t = s.push((k, v));
    if s.len() == 0 {
        assert(t.drop_first() =~= s);
    } else {
        let rest = s.drop_first();
        assert forall|j: int| 0 <= j < rest.len() implies (#[trigger] rest[j]).0@ != k@ by {
            assert(rest[j] == s[j + 1]);
        }
        assert(s[0].0@ != k@);
        lemma_push(rest, k, v);
        assert(t.drop_first() =~= rest.push((k, v)));
    }
}

proof fn lemma_remove<V>(s: Seq<(String, V)>, i: int)
    requires
        0 <= i < s.len(),
    ensures
        entries_map(s.remove(i)).remove(s[i].0@) =~= entries_map(s).remove(s[i].0@),
    decreases s.len(),
{
    let t = s.remove(i);
    if i == 0 {
        assert(t =~= s.drop_first());
    } else {
        let rest = s.drop_first();
        lemma_remove(rest, i - 1);
        assert(t.drop_first() =~= rest.remove(i - 1));
        assert(t[0] == s[0]);
        assert(rest[i - 1] == s[i]);
        let key = s[i].0@;
        let a = entries_map(rest.remove(i - 1));
        let b = entries_map(rest);
        let first = s[0].0@;
        let value = s[0].1;
        assert(a.remove(key) == b.remove(key));
        if first == key {
            assert(a.insert(first, value).remove(key) =~= a.remove(key));
            assert(b.insert(first, value).remove(key) =~= b.remove(key));
        } else {
            assert(a.insert(first, value).remove(key) =~= a.remove(key).insert(first, value));
            assert(b.insert(first, value).remove(key) =~= b.remove(key).insert(first, value));
        }
    }
}

impl<V> TextMap<V> {
    /// The table that holds nothing.
    pub fn new() -> (r: Self)
        ensures
            r@ == Map::<Seq<char>, V>::empty(),
    {
        TextMap { entries: Vec::new() }
    }

    fn find(&self, key: &str) -> (r: usize)
        ensures
            first_at(self.entries@, key@, r as int),
    {
        let mut i: usize = 0;
        while i < self.entries.len() && !text::same(self.entries[i].0.as_str(), key)
            invariant
                i <= self.entries.len(),
                forall|k: int| 0 <= k < i ==> (#[trigger] self.entries@[k]).0@ != key@,
            decreases self.entries.len() - i,
        {
            i += 1;
        }
        i
    }

    /// Whether something stands under a text.
    pub fn contains_key(&self, key: &str) -> (r: bool)
        ensures
            r == self@.contains_key(key@),
    {
        let i: usize = self.find(key);
        proof {
            lemma_lookup(self.entries@, key@, i as int);
        }
        i < self.entries.len()
    }

    /// What stands under a text.
    pub fn get(&self, key: &str) -> (r: Option<&V>)
        ensures
            match r {
                Some(v) => self@.contains_key(key@) && self@[key@] == *v,
                None => !self@.contains_key(key@),
            },
    {
        let i: usize = self.find(key);
        proof {
            lemma_lookup(self.entries@, key@, i as int);
        }
        if i < self.entries.len() {
            Some(&self.entries[i].1)
        } else {
            None
        }
    }

    /// What stands under a text, to be changed in place.
    pub fn get_mut(&mut self, key: &str) -> (r: Option<&mut V>)
        ensures
            match r {
                Some(v) => {
                    &&& old(self)@.contains_key(key@)
                    &&& *v == old(self)@[key@]
                    &&& final(self)@ == old(self)@.insert(key@, *final(v))
                },
                None => !old(self)@.contains_key(key@) && final(self)@ == old(self)@,
            },
    {
        let i: usize = self.find(key);
        proof {
            let s = self.entries@;
            lemma_lookup(s, key@, i as int);
            if i < s.len() {
                assert forall|v: V|
                    entries_map(#[trigger] s.update(i as int, (s[i as int].0, v))) == entries_map(
                        s,
                    ).insert(key@, v) by {
                    lemma_update(s, i as int, s[i as int].0, v);
                }
            }
        }
        if i < self.entries.len() {
            Some(&mut self.entries[i].1)
        } else {
            None
        }
    }

    /// Puts a value under a text, in place of what stood there.
    pub fn insert(&mut self, key: String, value: V)
        ensures
            final(self)@ == old(self)@.insert(key@, value),
    {
        let i: usize = self.find(key.as_str());
        if i < self.entries.len() {
            proof {
                lemma_update(self.entries@, i as int, key, value);
            }
            self.entries.set(i, (key, value));
        } else {
            proof {
                lemma_push(self.entries@, key, value);
            }
            self.entries.push((key, value));
        }
    }

    /// Takes away what stands under a text, and hands it out.
    pub fn remove(&mut self, key: &str) -> (r: Option<V>)
        ensures
            final(self)@ == old(self)@.remove(key@),
            match r {
                Some(v) => old(self)@.contains_key(key@) && old(self)@[key@] == v,
                None => !old(self)@.contains_key(key@),
            },
    {
        let ghost before = self.entries@;
        let i: usize = self.find(key);
        proof {
            lemma_lookup(self.entries@, key@, i as int);
        }
        if i == self.entries.len() {
            assert(entries_map(before).remove(key@) =~= entries_map(before));
            return None;
        }
        proof {
            lemma_remove(self.entries@, i as int);
        }
        let (_, value) = self.entries.remove(i);
        self.remove_rest(key);
        Some(value)
    }

    fn remove_rest(&mut self, key: &str)
        ensures
            final(self)@ == old(self)@.remove(key@),
        decreases old(self).entries@.len(),
    {
        let i: usize = self.find(key);
        proof {
            lemma_lookup(self.entries@, key@, i as int);
        }
        if i < self.entries.len() {
            proof {
                lemma_remove(self.entries@, i as int);
            }
            self.entries.remove(i);
            self.remove_rest(key);
        } else {
            assert(self@.remove(key@) =~= self@);
        }
    }
}

proof fn lemma_keys<V>(s: Seq<(String, V)>, key: Seq<char>)
    ensures
        entries_map(s).contains_key(key) <==> exists|i: int|
            0 <= i < s.len() && (#[trigger] s[i]).0@ == key,
    decreases s.len(),
{
    if s.len() > 0 {
        let rest = s.drop_first();
        lemma_keys(rest, key);
        if exists|i: int| 0 <= i < rest.len() && (#[trigger] rest[i]).0@ == key {
            let i = choose|i: int| 0 <= i < rest.len() && (#[trigger] rest[i]).0@ == key;
            assert(s[i + 1].0@ == key);
        }
        if exists|i: int| 0 <= i < s.len() && (#[trigger] s[i]).0@ == key {
            let i = choose|i: int| 0 <= i < s.len() && (#[trigger] s[i]).0@ == key;
            if i > 0 {
                assert(rest[i - 1].0@ == key);
            }
        }
    }
}

/// The characters of texts.
pub open spec fn texts(s: Seq<String>) -> Seq<Seq<char>> {
    s.map_values(|t: String| t@)
}

impl<V> TextMap<V> {
    /// The texts under which something stands, each once.
    pub fn keys(&self) -> (r: Vec<String>)
        ensures
            texts(r@).no_duplicates(),
            texts(r@).to_set() == self@.dom(),
    {
        let mut out: Vec<String> = Vec::new();
        let mut i: usize = 0;
        while i < self.entries.len()
            invariant
                i <= self.entries.len(),
                texts(out@).no_duplicates(),
                forall|k: int| 0 <= k < i ==> texts(out@).contains((#[trigger] self.entries@[k]).0@),
                forall|j: int|
                    0 <= j < out@.len() ==> exists|k: int|
                        0 <= k < i && (#[trigger] self.entries@[k]).0@ == (#[trigger] out@[j])@,
            decreases self.entries.len() - i,
        {
            let mut found = false;
            let mut j: usize = 0;
            while j < out.len()
                invariant
                    j <= out.len(),
                    i < self.entries.len(),
                    found ==> texts(out@).contains(self.entries@[i as int].0@),
                    !found ==> forall|k: int|
                        0 <= k < j ==> (#[trigger] out@[k])@ != self.entries@[i as int].0@,
                decreases out.len() - j,
            {
                if text::same(out[j].as_str(), self.entries[i].0.as_str()) {
                    found = true;
                    assert(texts(out@)[j as int] == self.entries@[i as int].0@);
                }
                j += 1;
            }
            let ghost before = out@;
            if !found {
                out.push(self.entries[i].0.clone());
                proof {
                    let t = texts(out@);
                    assert(t =~= texts(before).push(self.entries@[i as int].0@));
                    assert(t[before.len() as int] == self.entries@[i as int].0@);
                    assert forall|a: int, b: int| 0 <= a < b < t.len() implies t[a] != t[b] by {
                        if b < before.len() {
                            assert(texts(before)[a] != texts(before)[b]);
                        } else {
                            assert(before[a]@ != self.entries@[i as int].0@);
                        }
                    }
                    assert forall|k: int| 0 <= k < i implies t.contains(
                        (#[trigger] self.entries@[k]).0@,
                    ) by {
                        let a = choose|a: int|
                            0 <= a < before.len() && texts(before)[a] == self.entries@[k].0@;
                        assert(texts(before).contains(self.entries@[k].0@));
                        assert(t[a] == self.entries@[k].0@);
                    }
                }
            }
            i += 1;
        }
        proof {
            let keys = texts(out@).to_set();
            assert forall|k: Seq<char>| keys.contains(k) <==> self@.dom().contains(k) by {
                lemma_keys(self.entries@, k);
                if keys.contains(k) {
                    let j = choose|j: int| 0 <= j < texts(out@).len() && texts(out@)[j] == k;
                    assert(out@[j]@ == k);
                }
                if self@.contains_key(k) {
                    let i = choose|i: int|
                        0 <= i < self.entries@.len() && (#[trigger] self.entries@[i]).0@ == k;
                    assert(texts(out@).contains(self.entries@[i].0@));
                }
            }
            assert(keys =~= self@.dom());
        }
        out
    }
}

/// A set of texts.
#[derive(Debug)]
pub struct TextSet {
    members: TextMap<bool>,
}

impl View for TextSet {
    type V = Set<Seq<char>>;

    closed spec fn view(&self) -> Set<Seq<char>> {
        self.members@.dom()
    }
}

impl TextSet {
    /// The empty set.
    pub fn new() -> (r: Self)
        ensures
            r@ == Set::<Seq<char>>::empty(),
    {
        let r = TextSet { members: TextMap::new() };
        assert(r@ =~= Set::<Seq<char>>::empty());
        r
    }

    pub fn contains(&self, text: &str) -> (r: bool)
        ensures
            r == self@.contains(text@),
    {
        self.members.contains_key(text)
    }

    pub fn insert(&mut self, text: String)
        ensures
            final(self)@ == old(self)@.insert(text@),
    {
        self.members.insert(text, true);
        assert(self@ =~= old(self)@.insert(text@));
    }

    /// Empties the set, and hands out what was in it, each once.
    pub fn drain(&mut self) -> (r: Vec<String>)
        ensures
            final(self)@ == Set::<Seq<char>>::empty(),
            texts(r@).no_duplicates(),
            texts(r@).to_set() == old(self)@,
    {
        let keys = self.members.keys();
        self.members = TextMap::new();
        assert(self@ =~= Set::<Seq<char>>::empty());
        keys
    }

    /// Takes a text out of the set, and says whether it was there.
    pub fn remove(&mut self, text: &str) -> (r: bool)
        ensures
            final(self)@ == old(self)@.remove(text@),
            r == old(self)@.contains(text@),
    {
        let r = self.members.remove(text).is_some();
        assert(self@ =~= old(self)@.remove(text@));
        r
    }
}

} // verus!

use vstd::prelude::*;

verus! {

/// The map that a sequence of (name, specifier) pairs describes: a later pair
/// overrides an earlier one with the same name.
pub open spec fn pairs_to_map(s: Seq<(Seq<char>, Seq<char>)>) -> Map<Seq<char>, Seq<char>>
    decreases s.len(),
{
    if s.len() == 0 {
        Map::empty()
    } else {
        pairs_to_map(s.drop_last()).insert(s.last().0, s.last().1)
    }
}

/// No name occurs twice among the pairs.
pub open spec fn keys_unique(s: Seq<(Seq<char>, Seq<char>)>) -> bool {
    forall|i: int, j: int| 0 <= i < j < s.len() ==> s[i].0 != s[j].0
}

pub proof fn lemma_pairs_to_map_dom(s: Seq<(Seq<char>, Seq<char>)>, k: Seq<char>)
    ensures
        pairs_to_map(s).contains_key(k) <==> exists|i: int| 0 <= i < s.len() && s[i].0 == k,
    decreases s.len(),
{
    if s.len() > 0 {
        lemma_pairs_to_map_dom(s.drop_last(), k);
        if pairs_to_map(s).contains_key(k) && s.last().0 != k {
            let i = choose|i: int| 0 <= i < s.drop_last().len() && s.drop_last()[i].0 == k;
            assert(s[i].0 == k);
        }
        if exists|i: int| 0 <= i < s.len() && s[i].0 == k {
            let i = choose|i: int| 0 <= i < s.len() && s[i].0 == k;
            if i < s.len() - 1 {
                assert(s.drop_last()[i].0 == k);
            }
        }
    }
}

pub proof fn lemma_pairs_to_map_value(s: Seq<(Seq<char>, Seq<char>)>, i: int)
    requires
        keys_unique(s),
        0 <= i < s.len(),
    ensures
        pairs_to_map(s).contains_key(s[i].0),
        pairs_to_map(s)[s[i].0] == s[i].1,
    decreases s.len(),
{
    if i < s.len() - 1 {
        assert(s.drop_last()[i] == s[i]);
        lemma_pairs_to_map_value(s.drop_last(), i);
    }
}

/// A map from dependency name to version specifier. The names are unique and
/// the pairs keep the order in which their names were first inserted.
pub struct DepMap {
    entries: Vec<(String, String)>,
}

impl View for DepMap {
    type V = Map<Seq<char>, Seq<char>>;

    open spec fn view(&self) -> Map<Seq<char>, Seq<char>> {
        pairs_to_map(self.pairs())
    }
}

impl DepMap {
    /// The pairs in the order in which they are listed.
    pub closed spec fn pairs(&self) -> Seq<(Seq<char>, Seq<char>)> {
        self.entries@.map_values(|p: (String, String)| (p.0@, p.1@))
    }

    pub open spec fn wf(&self) -> bool {
        keys_unique(self.pairs())
    }

    /// Each listed pair is an entry of the map, and each entry is listed.
    pub proof fn lemma_pairs_view(&self)
        requires
            self.wf(),
        ensures
            forall|i: int|
                #![trigger self.pairs()[i]]
                0 <= i < self.pairs().len() ==> self@.contains_key(self.pairs()[i].0)
                    && self@[self.pairs()[i].0] == self.pairs()[i].1,
            forall|k: Seq<char>|
                #![trigger self@.contains_key(k)]
                self@.contains_key(k) ==> exists|i: int|
                    0 <= i < self.pairs().len() && self.pairs()[i].0 == k,
    {
        assert forall|i: int|
            #![trigger self.pairs()[i]]
            0 <= i < self.pairs().len() implies self@.contains_key(self.pairs()[i].0)
                && self@[self.pairs()[i].0] == self.pairs()[i].1 by {
            lemma_pairs_to_map_value(self.pairs(), i);
        }
        assert forall|k: Seq<char>|
            #![trigger self@.contains_key(k)]
            self@.contains_key(k) implies exists|i: int|
                0 <= i < self.pairs().len() && self.pairs()[i].0 == k by {
            lemma_pairs_to_map_dom(self.pairs(), k);
        }
    }

    pub fn new() -> (r: DepMap)
        ensures
            r.wf(),
            r.pairs().len() == 0,
            r@ == Map::<Seq<char>, Seq<char>>::empty(),
    {
        let r = DepMap { entries: Vec::new() };
        assert(r.pairs() =~= Seq::<(Seq<char>, Seq<char>)>::empty());
        r
    }

    pub fn len(&self) -> (r: usize)
        ensures
            r == self.pairs().len(),
    {
        self.entries.len()
    }

    pub fn key_at(&self, i: usize) -> (r: &String)
        requires
            i < self.pairs().len(),
        ensures
            r@ == self.pairs()[i as int].0,
    {
        &self.entries[i].0
    }

    pub fn value_at(&self, i: usize) -> (r: &String)
        requires
            i < self.pairs().len(),
        ensures
            r@ == self.pairs()[i as int].1,
    {
        &self.entries[i].1
    }

    /// The position of `key` among the pairs, if it is there.
    fn position(&self, key: &String) -> (r: Option<usize>)
        requires
            self.wf(),
        ensures
            match r {
                Some(i) => i < self.pairs().len() && self.pairs()[i as int].0 == key@,
                None => !self@.contains_key(key@),
            },
    {
        let n = self.entries.len();
        let mut i: usize = 0;
        while i < n
            invariant
                n == self.pairs().len(),
                i <= n,
                forall|j: int| 0 <= j < i ==> self.pairs()[j].0 != key@,
            decreases n - i,
        {
            if self.entries[i].0 == *key {
                return Some(i);
            }
            i = i + 1;
        }
        proof {
            lemma_pairs_to_map_dom(self.pairs(), key@);
        }
        None
    }

    pub fn contains_key(&self, key: &String) -> (r: bool)
        requires
            self.wf(),
        ensures
            r == self@.contains_key(key@),
    {
        proof {
            self.lemma_pairs_view();
        }
        self.position(key).is_some()
    }

    pub fn get(&self, key: &String) -> (r: Option<&String>)
        requires
            self.wf(),
        ensures
            match r {
                Some(v) => self@.contains_key(key@) && self@[key@] == v@,
                None => !self@.contains_key(key@),
            },
    {
        proof {
            self.lemma_pairs_view();
        }
        match self.position(key) {
            Some(i) => Some(&self.entries[i].1),
            None => None,
        }
    }

    /// Sets the specifier of `key`; a name already present keeps its place.
    pub fn insert(&mut self, key: String, value: String)
        requires
            old(self).wf(),
        ensures
            final(self).wf(),
            final(self)@ == old(self)@.insert(key@, value@),
    {
        let ghost old_pairs = self.pairs();
        proof {
            self.lemma_pairs_view();
        }
        match self.position(&key) {
            Some(i) => {
                let ghost k = key@;
                let ghost v = value@;
                self.entries.set(i, (key, value));
                assert(self.pairs() =~= old_pairs.update(i as int, (k, v)));
                proof {
                    let s = self.pairs();
                    assert(keys_unique(s));
                    assert forall|q: Seq<char>|
                        #![trigger pairs_to_map(s).contains_key(q)]
                        pairs_to_map(s).contains_key(q) == old_pairs_map_insert_dom(
                            old_pairs,
                            k,
                            q,
                        ) by {
                        lemma_pairs_to_map_dom(s, q);
                        lemma_pairs_to_map_dom(old_pairs, q);
                        assert(s[i as int].0 == k);
                        if q != k && old_pairs_map_insert_dom(old_pairs, k, q) {
                            let j = choose|j: int| 0 <= j < old_pairs.len() && old_pairs[j].0 == q;
                            assert(s[j].0 == q);
                        }
                        if pairs_to_map(s).contains_key(q) && q != k {
                            let j = choose|j: int| 0 <= j < s.len() && s[j].0 == q;
                            assert(old_pairs[j].0 == q);
                        }
                    }
                    assert forall|q: Seq<char>|
                        #![trigger pairs_to_map(s).contains_key(q)]
                        pairs_to_map(s).contains_key(q) implies pairs_to_map(s)[q] == pairs_to_map(
                            old_pairs,
                        ).insert(k, v)[q] by {
                        lemma_pairs_to_map_dom(s, q);
                        let j = choose|j: int| 0 <= j < s.len() && s[j].0 == q;
                        lemma_pairs_to_map_value(s, j);
                        if j != i {
                            lemma_pairs_to_map_value(old_pairs, j);
                        }
                    }
                    assert(pairs_to_map(s) =~= pairs_to_map(old_pairs).insert(k, v));
                }
            },
            None => {
                self.entries.push((key, value));
                assert(self.pairs() =~= old_pairs.push((key@, value@)));
                assert(self.pairs().drop_last() =~= old_pairs);
            },
        }
    }

    /// Removes `key` and its specifier, if the name is present.
    pub fn remove(&mut self, key: &String)
        requires
            old(self).wf(),
        ensures
            final(self).wf(),
            final(self)@ == old(self)@.remove(key@),
    {
        let ghost old_pairs = self.pairs();
        proof {
            self.lemma_pairs_view();
        }
        match self.position(key) {
            Some(i) => {
                self.entries.remove(i);
                assert(self.pairs() =~= old_pairs.remove(i as int));
                proof {
                    let s = self.pairs();
                    let k = key@;
                    assert(keys_unique(s)) by {
                        assert forall|a: int, b: int| 0 <= a < b < s.len() implies s[a].0 != s[b].0 by {
                            let a2 = if a < i { a } else { a + 1 };
                            let b2 = if b < i { b } else { b + 1 };
                            assert(s[a] == old_pairs[a2]);
                            assert(s[b] == old_pairs[b2]);
                        }
                    }
                    assert forall|q: Seq<char>|
                        #![trigger pairs_to_map(s).contains_key(q)]
                        pairs_to_map(s).contains_key(q) == (q != k && pairs_to_map(
                            old_pairs,
                        ).contains_key(q)) by {
                        lemma_pairs_to_map_dom(s, q);
                        lemma_pairs_to_map_dom(old_pairs, q);
                        if pairs_to_map(s).contains_key(q) {
                            let j = choose|j: int| 0 <= j < s.len() && s[j].0 == q;
                            let j2 = if j < i { j } else { j + 1 };
                            assert(old_pairs[j2] == s[j]);
                        }
                        if q != k && pairs_to_map(old_pairs).contains_key(q) {
                            let j = choose|j: int| 0 <= j < old_pairs.len() && old_pairs[j].0 == q;
                            let j2 = if j < i { j } else { j - 1 };
                            assert(s[j2] == old_pairs[j]);
                        }
                    }
                    assert forall|q: Seq<char>|
                        #![trigger pairs_to_map(s).contains_key(q)]
                        pairs_to_map(s).contains_key(q) implies pairs_to_map(s)[q] == pairs_to_map(
                            old_pairs,
                        )[q] by {
                        lemma_pairs_to_map_dom(s, q);
                        let j = choose|j: int| 0 <= j < s.len() && s[j].0 == q;
                        let j2 = if j < i { j } else { j + 1 };
                        assert(old_pairs[j2] == s[j]);
                        lemma_pairs_to_map_value(s, j);
                        lemma_pairs_to_map_value(old_pairs, j2);
                    }
                    assert(pairs_to_map(s) =~= pairs_to_map(old_pairs).remove(k));
                }
            },
            None => {
                assert(self@ =~= old(self)@.remove(key@));
            },
        }
    }

    /// Copies every entry of `other` in; on a shared name `other` wins.
    pub fn extend_from(&mut self, other: &DepMap)
        requires
            old(self).wf(),
            other.wf(),
        ensures
            final(self).wf(),
            final(self)@ == old(self)@.union_prefer_right(other@),
    {
        let ghost start = self@;
        let ghost s = other.pairs();
        let n = other.len();
        let mut j: usize = 0;
        while j < n
            invariant
                n == s.len(),
                s == other.pairs(),
                j <= n,
                self.wf(),
                self@ == start.union_prefer_right(pairs_to_map(s.take(j as int))),
            decreases n - j,
        {
            self.insert(other.key_at(j).clone(), other.value_at(j).clone());
            proof {
                assert(s.take(j + 1).drop_last() =~= s.take(j as int));
                assert(self@ =~= start.union_prefer_right(pairs_to_map(s.take(j + 1))));
            }
            j = j + 1;
        }
        assert(s.take(n as int) =~= s);
    }
}

spec fn old_pairs_map_insert_dom(s: Seq<(Seq<char>, Seq<char>)>, k: Seq<char>, q: Seq<char>) -> bool {
    q == k || pairs_to_map(s).contains_key(q)
}

} // verus!

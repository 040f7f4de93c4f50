//! A finite map from texts to texts, kept as a list of distinct keys with their
//! values in the order they were first inserted.

use vstd::prelude::*;

verus! {

/// The map that a list of key/value pairs denotes; a later pair wins.
pub open spec fn pairs_map(ps: Seq<(Seq<char>, Seq<char>)>) -> Map<Seq<char>, Seq<char>>
    decreases ps.len(),
{
    if ps.len() == 0 {
        Map::empty()
    } else {
        pairs_map(ps.drop_last()).insert(ps.last().0, ps.last().1)
    }
}

/// No key occurs twice in the list.
pub open spec fn distinct_keys(ps: Seq<(Seq<char>, Seq<char>)>) -> bool {
    forall|i: int, j: int| 0 <= i < j < ps.len() ==> #[trigger] ps[i].0 != #[trigger] ps[j].0
}

/// With distinct keys, the map holds exactly the listed keys, each with its value.
pub proof fn lemma_pairs_map(ps: Seq<(Seq<char>, Seq<char>)>)
    requires
        distinct_keys(ps),
    ensures
        forall|k: Seq<char>| #[trigger] pairs_map(ps).contains_key(k) <==> exists|i: int|
            0 <= i < ps.len() && ps[i].0 == k,
        forall|i: int| 0 <= i < ps.len() ==> #[trigger] pairs_map(ps)[ps[i].0] == ps[i].1,
        pairs_map(ps).dom().finite(),
        pairs_map(ps).dom().len() == ps.len(),
    decreases ps.len(),
{
    if ps.len() > 0 {
        let q = ps.drop_last();
        assert(distinct_keys(q));
        lemma_pairs_map(q);
        assert forall|k: Seq<char>| #[trigger] pairs_map(ps).contains_key(k) <==> exists|i: int|
            0 <= i < ps.len() && ps[i].0 == k by {
            if pairs_map(ps).contains_key(k) && k != ps.last().0 {
                let i = choose|i: int| 0 <= i < q.len() && q[i].0 == k;
                assert(ps[i].0 == k);
            }
            if exists|i: int| 0 <= i < ps.len() && ps[i].0 == k {
                let i = choose|i: int| 0 <= i < ps.len() && ps[i].0 == k;
                if i < q.len() {
                    assert(q[i].0 == k);
                }
            }
        }
        assert forall|i: int| 0 <= i < ps.len() implies #[trigger] pairs_map(ps)[ps[i].0]
            == ps[i].1 by {
            if i < q.len() {
                assert(q[i] == ps[i]);
                assert(ps[i].0 != ps.last().0);
            }
        }
        assert(!pairs_map(q).contains_key(ps.last().0)) by {
            if pairs_map(q).contains_key(ps.last().0) {
                let i = choose|i: int| 0 <= i < q.len() && q[i].0 == ps.last().0;
                assert(ps[i].0 == ps[ps.len() - 1].0);
            }
        }
    }
}

/// Holds of a pair whose key is not `key`.
pub open spec fn pair_key_is_not(key: Seq<char>) -> spec_fn((Seq<char>, Seq<char>)) -> bool {
    |p: (Seq<char>, Seq<char>)| p.0 != key
}

/// Holds of a key other than `key`.
pub open spec fn key_is_not(key: Seq<char>) -> spec_fn(Seq<char>) -> bool {
    |k: Seq<char>| k != key
}

/// The texts of a list of string pairs.
pub open spec fn pairs_of(es: Seq<(String, String)>) -> Seq<(Seq<char>, Seq<char>)> {
    es.map_values(|e: (String, String)| (e.0@, e.1@))
}

/// A text-keyed map whose keys keep their first-insertion order.
pub struct TextMap {
    entries: Vec<(String, String)>,
}

impl TextMap {
    /// The pairs, as texts, in their order.
    pub closed spec fn pairs(&self) -> Seq<(Seq<char>, Seq<char>)> {
        pairs_of(self.entries@)
    }

    /// The keys in their order.
    pub closed spec fn key_order(&self) -> Seq<Seq<char>> {
        self.pairs().map_values(|p: (Seq<char>, Seq<char>)| p.0)
    }

    #[verifier::type_invariant]
    closed spec fn keys_distinct(&self) -> bool {
        distinct_keys(self.pairs())
    }
}

impl View for TextMap {
    type V = Map<Seq<char>, Seq<char>>;

    closed spec fn view(&self) -> Map<Seq<char>, Seq<char>> {
        pairs_map(self.pairs())
    }
}

impl TextMap {
    /// What the view and the key order say of each other.
    proof fn lemma_view(&self)
        requires
            distinct_keys(self.pairs()),
        ensures
            forall|k: Seq<char>| #[trigger] self@.contains_key(k) <==> self.key_order().contains(k),
            self.key_order().no_duplicates(),
            self@.dom().finite(),
            self@.dom().len() == self.key_order().len(),
    {
        lemma_pairs_map(self.pairs());
        assert forall|k: Seq<char>| #[trigger] self@.contains_key(k) <==> self.key_order().contains(
            k,
        ) by {
            if self@.contains_key(k) {
                let i = choose|i: int| 0 <= i < self.pairs().len() && self.pairs()[i].0 == k;
                assert(self.key_order()[i] == k);
            }
            if self.key_order().contains(k) {
                let i = choose|i: int| 0 <= i < self.key_order().len() && self.key_order()[i] == k;
                assert(self.pairs()[i].0 == k);
            }
        }
        assert forall|i: int, j: int|
            0 <= i < self.key_order().len() && 0 <= j < self.key_order().len() && i != j implies #[trigger] self.key_order()[i]
            != #[trigger] self.key_order()[j] by {
            if i < j {
                assert(self.pairs()[i].0 != self.pairs()[j].0);
            } else {
                assert(self.pairs()[j].0 != self.pairs()[i].0);
            }
        }
    }

    /// The empty map.
    pub fn new() -> (m: TextMap)
        ensures
            m@ == Map::<Seq<char>, Seq<char>>::empty(),
            m.key_order() == Seq::<Seq<char>>::empty(),
    {
        let m = TextMap { entries: Vec::new() };
        assert(m.pairs() =~= Seq::empty());
        assert(m.key_order() =~= Seq::empty());
        m
    }

    /// Number of keys.
    pub fn len(&self) -> (n: usize)
        ensures
            n == self@.dom().len(),
            n == self.key_order().len(),
            self@.dom().finite(),
            forall|k: Seq<char>| #[trigger] self@.contains_key(k) <==> self.key_order().contains(k),
            self.key_order().no_duplicates(),
    {
        proof {
            use_type_invariant(self);
            self.lemma_view();
        }
        self.entries.len()
    }

    /// Whether the map has no keys.
    pub fn is_empty(&self) -> (b: bool)
        ensures
            b == (self@.dom().len() == 0),
            b == (self.key_order().len() == 0),
    {
        self.len() == 0
    }

    fn index_of(&self, key: &String) -> (r: Option<usize>)
        ensures
            match r {
                Some(i) => i < self.pairs().len() && self.pairs()[i as int].0 == key@,
                None => !self@.contains_key(key@),
            },
    {
        proof {
            use_type_invariant(self);
            lemma_pairs_map(self.pairs());
        }
        let mut i: usize = 0;
        while i < self.entries.len()
            invariant
                i <= self.entries@.len(),
                self.pairs().len() == self.entries@.len(),
                forall|j: int| 0 <= j < i ==> self.pairs()[j].0 != key@,
            decreases self.entries@.len() - i,
        {
            if self.entries[i].0 == *key {
                return Some(i);
            }
            i = i + 1;
        }
        None
    }

    /// The value stored under `key`, if any.
    pub fn get(&self, key: &str) -> (r: Option<&String>)
        ensures
            match r {
                Some(v) => self@.contains_key(key@) && v@ == self@[key@],
                None => !self@.contains_key(key@),
            },
    {
        let k = String::from_str(key);
        self.get_string(&k)
    }

    /// The value stored under `key`, if any.
    pub fn get_string(&self, key: &String) -> (r: Option<&String>)
        ensures
            match r {
                Some(v) => self@.contains_key(key@) && v@ == self@[key@],
                None => !self@.contains_key(key@),
            },
    {
        proof {
            use_type_invariant(self);
            lemma_pairs_map(self.pairs());
        }
        match self.index_of(key) {
            Some(i) => {
                assert(self.pairs()[i as int].1 == self.entries@[i as int].1@);
                Some(&self.entries[i].1)
            },
            None => None,
        }
    }

    /// Whether `key` is stored.
    pub fn contains_key(&self, key: &String) -> (b: bool)
        ensures
            b == self@.contains_key(key@),
    {
        self.get_string(key).is_some()
    }

    /// The key and value at position `i` of the key order.
    pub fn entry_at(&self, i: usize) -> (r: (&String, &String))
        requires
            i < self.key_order().len(),
        ensures
            r.0@ == self.key_order()[i as int],
            self@.contains_key(r.0@),
            r.1@ == self@[r.0@],
    {
        proof {
            use_type_invariant(self);
            lemma_pairs_map(self.pairs());
            self.lemma_view();
            assert(self.key_order().contains(self.key_order()[i as int]));
        }
        (&self.entries[i].0, &self.entries[i].1)
    }

    /// The keys, in their order.
    pub fn keys(&self) -> (ks: Vec<String>)
        ensures
            ks@.map_values(|k: String| k@) == self.key_order(),
            forall|k: Seq<char>| #[trigger] self@.contains_key(k) <==> self.key_order().contains(k),
            self.key_order().no_duplicates(),
    {
        proof {
            use_type_invariant(self);
            self.lemma_view();
        }
        let mut ks: Vec<String> = Vec::new();
        let mut i: usize = 0;
        while i < self.entries.len()
            invariant
                i <= self.entries@.len(),
                self.key_order().len() == self.entries@.len(),
                ks@.len() == i,
                ks@.map_values(|k: String| k@) == self.key_order().take(i as int),
            decreases self.entries@.len() - i,
        {
            assert(self.key_order()[i as int] == self.entries@[i as int].0@);
            let ghost before = ks@;
            let c = self.entries[i].0.clone();
            ks.push(c);
            assert(ks@ == before.push(c));
            assert(ks@.map_values(|k: String| k@)[i as int] == self.key_order()[i as int]);
            i = i + 1;
            assert(ks@.map_values(|k: String| k@) =~= self.key_order().take(i as int));
        }
        assert(self.key_order().take(i as int) =~= self.key_order());
        ks
    }

    /// Stores `value` under `key`, replacing what was there. A new key goes last.
    pub fn insert(&mut self, key: String, value: String)
        ensures
            final(self)@ == old(self)@.insert(key@, value@),
            old(self)@.contains_key(key@) ==> final(self).key_order() == old(self).key_order(),
            !old(self)@.contains_key(key@) ==> final(self).key_order() == old(
                self,
            ).key_order().push(key@),
    {
        proof {
            use_type_invariant(&*self);
            lemma_pairs_map(self.pairs());
        }
        let ghost old_pairs = self.pairs();
        match self.index_of(&key) {
            Some(i) => {
                let ghost k = key@;
                let mut es: Vec<(String, String)> = Vec::new();
                std::mem::swap(&mut es, &mut self.entries);
                es.set(i, (key, value));
                proof {
                    assert(pairs_of(es@) =~= old_pairs.update(i as int, (k, value@)));
                    lemma_update_pairs(old_pairs, i as int, value@);
                }
                self.entries = es;
                proof {
                    assert(self.key_order() =~= old(self).key_order());
                }
            },
            None => {
                let ghost k = key@;
                let mut es: Vec<(String, String)> = Vec::new();
                std::mem::swap(&mut es, &mut self.entries);
                es.push((key, value));
                proof {
                    assert(pairs_of(es@) =~= old_pairs.push((k, value@)));
                    assert(pairs_of(es@).drop_last() =~= old_pairs);
                    assert forall|a: int, b: int| 0 <= a < b < pairs_of(es@).len() implies #[trigger] pairs_of(es@)[a].0
                        != #[trigger] pairs_of(es@)[b].0 by {
                        if b == pairs_of(es@).len() - 1 {
                            assert(old_pairs[a].0 != k);
                        }
                    }
                }
                self.entries = es;
                proof {
                    assert(self.key_order() =~= old(self).key_order().push(k));
                }
            },
        }
    }

    /// Removes `key` and its value; the other keys keep their order.
    pub fn remove(&mut self, key: &String)
        ensures
            final(self)@ == old(self)@.remove(key@),
            final(self).key_order() == old(self).key_order().filter(key_is_not(key@)),
    {
        proof {
            use_type_invariant(&*self);
            lemma_pairs_map(self.pairs());
        }
        let ghost old_pairs = self.pairs();
        let ghost keep = pair_key_is_not(key@);
        let mut kept: Vec<(String, String)> = Vec::new();
        let mut i: usize = 0;
        while i < self.entries.len()
            invariant
                i <= self.entries@.len(),
                old_pairs == self.pairs(),
                old_pairs.len() == self.entries@.len(),
                distinct_keys(old_pairs),
                keep == pair_key_is_not(key@),
                pairs_of(kept@) == old_pairs.take(i as int).filter(keep),
            decreases self.entries@.len() - i,
        {
            let ghost before = kept@;
            if self.entries[i].0 != *key {
                let k = self.entries[i].0.clone();
                let v = self.entries[i].1.clone();
                kept.push((k, v));
                proof {
                    assert(pairs_of(kept@) =~= pairs_of(before).push(old_pairs[i as int]));
                }
            }
            proof {
                assert(old_pairs.take(i + 1) =~= old_pairs.take(i as int).push(old_pairs[i as int]));
                old_pairs.take(i as int).lemma_filter_push(old_pairs[i as int], keep);
                assert(old_pairs[i as int] == (self.entries@[i as int].0@, self.entries@[i as int].1@));
                assert(keep(old_pairs[i as int]) == (self.entries@[i as int].0@ != key@));
                if keep(old_pairs[i as int]) {
                    assert(pairs_of(kept@) == pairs_of(before).push(old_pairs[i as int]));
                } else {
                    assert(pairs_of(kept@) == pairs_of(before));
                }
                assert(pairs_of(kept@) =~= old_pairs.take(i + 1).filter(keep));
            }
            i = i + 1;
        }
        proof {
            assert(old_pairs.take(i as int) =~= old_pairs);
            lemma_filter_pairs(old_pairs, key@);
        }
        self.entries = kept;
        proof {
            lemma_filter_keys(old_pairs, key@);
        }
    }
}

proof fn lemma_update_pairs(ps: Seq<(Seq<char>, Seq<char>)>, i: int, v: Seq<char>)
    requires
        distinct_keys(ps),
        0 <= i < ps.len(),
    ensures
        distinct_keys(ps.update(i, (ps[i].0, v))),
        pairs_map(ps.update(i, (ps[i].0, v))) == pairs_map(ps).insert(ps[i].0, v),
    decreases ps.len(),
{
    let qs = ps.update(i, (ps[i].0, v));
    assert forall|a: int, b: int| 0 <= a < b < qs.len() implies #[trigger] qs[a].0 != #[trigger] qs[b].0 by {
        assert(qs[a].0 == ps[a].0 && qs[b].0 == ps[b].0);
    }
    lemma_pairs_map(ps);
    lemma_pairs_map(qs);
    assert(pairs_map(qs) =~= pairs_map(ps).insert(ps[i].0, v)) by {
        assert forall|k: Seq<char>| #[trigger] pairs_map(qs).contains_key(k) <==> pairs_map(ps).insert(ps[i].0, v).contains_key(k) by {
            if exists|j: int| 0 <= j < qs.len() && qs[j].0 == k {
                let j = choose|j: int| 0 <= j < qs.len() && qs[j].0 == k;
                assert(ps[j].0 == k);
            }
            if exists|j: int| 0 <= j < ps.len() && ps[j].0 == k {
                let j = choose|j: int| 0 <= j < ps.len() && ps[j].0 == k;
                assert(qs[j].0 == k);
            }
            assert(qs[i].0 == ps[i].0);
        }
        assert forall|k: Seq<char>| #[trigger] pairs_map(qs).contains_key(k) implies pairs_map(qs)[k] == pairs_map(ps).insert(ps[i].0, v)[k] by {
            let j = choose|j: int| 0 <= j < qs.len() && qs[j].0 == k;
            assert(pairs_map(qs)[qs[j].0] == qs[j].1);
            if j != i {
                assert(ps[j].0 == k);
                assert(pairs_map(ps)[ps[j].0] == ps[j].1);
            }
        }
    }
}

proof fn lemma_filter_pairs(ps: Seq<(Seq<char>, Seq<char>)>, key: Seq<char>)
    requires
        distinct_keys(ps),
    ensures
        distinct_keys(ps.filter(pair_key_is_not(key))),
        pairs_map(ps.filter(pair_key_is_not(key))) == pairs_map(ps).remove(key),
    decreases ps.len(),
{
    reveal_with_fuel(Seq::filter, 1);
    let keep = pair_key_is_not(key);
    if ps.len() > 0 {
        let q = ps.drop_last();
        assert(distinct_keys(q));
        lemma_filter_pairs(q, key);
        let fq = q.filter(keep);
        assert(ps.filter(keep) == if keep(ps.last()) { fq.push(ps.last()) } else { fq });
        lemma_pairs_map(q);
        if keep(ps.last()) {
            assert(fq.push(ps.last()).drop_last() =~= fq);
            assert forall|a: int, b: int| 0 <= a < b < fq.push(ps.last()).len() implies #[trigger] fq.push(ps.last())[a].0
                != #[trigger] fq.push(ps.last())[b].0 by {
                if b == fq.len() {
                    let x = fq[a];
                    assert(fq.contains(x));
                    q.lemma_filter_contains_rev(keep, x);
                    let j = choose|j: int| 0 <= j < q.len() && q[j] == x;
                    assert(ps[j].0 != ps[ps.len() - 1].0);
                }
            }
            assert(pairs_map(fq.push(ps.last())) =~= pairs_map(ps).remove(key));
        } else {
            assert(pairs_map(fq) =~= pairs_map(ps).remove(key)) by {
                assert(!pairs_map(q).contains_key(key)) by {
                    if pairs_map(q).contains_key(key) {
                        let i = choose|i: int| 0 <= i < q.len() && q[i].0 == key;
                        assert(ps[i].0 == ps[ps.len() - 1].0);
                    }
                }
            }
        }
    } else {
        assert(ps.filter(keep) =~= ps);
        assert(pairs_map(ps) =~= pairs_map(ps).remove(key));
    }
}

proof fn lemma_filter_keys(ps: Seq<(Seq<char>, Seq<char>)>, key: Seq<char>)
    ensures
        ps.filter(pair_key_is_not(key)).map_values(|p: (Seq<char>, Seq<char>)| p.0)
            == ps.map_values(|p: (Seq<char>, Seq<char>)| p.0).filter(key_is_not(key)),
    decreases ps.len(),
{
    reveal_with_fuel(Seq::filter, 1);
    let keep = pair_key_is_not(key);
    let fst = |p: (Seq<char>, Seq<char>)| p.0;
    let kk = key_is_not(key);
    if ps.len() > 0 {
        let q = ps.drop_last();
        lemma_filter_keys(q, key);
        assert(ps.map_values(fst).drop_last() =~= q.map_values(fst));
        assert(ps.filter(keep) == if keep(ps.last()) { q.filter(keep).push(ps.last()) } else { q.filter(keep) });
        assert(ps.map_values(fst).filter(kk) == if kk(ps.map_values(fst).last()) { ps.map_values(fst).drop_last().filter(kk).push(ps.map_values(fst).last()) } else { ps.map_values(fst).drop_last().filter(kk) });
        if keep(ps.last()) {
            assert(q.filter(keep).push(ps.last()).map_values(fst) =~= q.filter(keep).map_values(fst).push(fst(ps.last())));
        }
    } else {
        assert(ps.filter(keep).map_values(fst) =~= ps.map_values(fst).filter(kk));
    }
}

} // verus!

use vstd::prelude::*;

use crate::text::{str_eq, strings_view};

verus! {

broadcast use vstd::seq_lib::group_seq_properties;

/// A set of strings, kept in insertion order without duplicates.
#[derive(Debug)]
pub struct StrSet {
    items: Vec<String>,
}

impl StrSet {
    /// The members, in the order in which they were inserted.
    pub closed spec fn elems(&self) -> Seq<Seq<char>> {
        strings_view(self.items@)
    }

    /// Well-formedness: no key (member) is stored twice.
    pub closed spec fn wf(&self) -> bool {
        self.elems().no_duplicates()
    }

    pub fn new() -> (res: StrSet)
        ensures
            res.wf(),
            res@ == Set::<Seq<char>>::empty(),
            res.elems() == Seq::<Seq<char>>::empty(),
    {
        let res = StrSet { items: Vec::new() };
        assert(res.elems() =~= Seq::<Seq<char>>::empty());
        assert(res@ =~= Set::<Seq<char>>::empty());
        res
    }

    /// Members listed in insertion order; no member is listed twice.
    pub fn items(&self) -> (res: &Vec<String>)
        requires
            self.wf(),
        ensures
            strings_view(res@) == self.elems(),
            self.elems().no_duplicates(),
            self.elems().to_set() == self@,
    {
        proof {
        }
        &self.items
    }

    proof fn lemma_view(&self)
        requires
            self.wf(),
        ensures
            self.elems().no_duplicates(),
            self.elems().to_set() == self@,
            self@.finite(),
            self@.len() == self.elems().len(),
    {
        broadcast use vstd::seq_lib::seq_to_set_is_finite;

        self.elems().unique_seq_to_set();
    }

    pub fn len(&self) -> (res: usize)
        requires
            self.wf(),
        ensures
            res == self@.len(),
    {
        proof {
            self.lemma_view();
        }
        self.items.len()
    }

    pub fn is_empty(&self) -> (res: bool)
        requires
            self.wf(),
        ensures
            res == (self@ == Set::<Seq<char>>::empty()),
    {
        proof {
            self.lemma_view();
            if self.items.len() > 0 {
                assert(self@.contains(self.elems()[0]));
            }
            if self.items.len() == 0 {
                assert(self@ =~= Set::<Seq<char>>::empty());
            }
        }
        self.items.len() == 0
    }

    fn find(&self, s: &str) -> (res: Option<usize>)
        ensures
            match res {
                Some(i) => i < self.elems().len() && self.elems()[i as int] == s@,
                None => !self.elems().contains(s@),
            },
    {
        let mut i: usize = 0;
        while i < self.items.len()
            invariant
                i <= self.items@.len(),
                forall|j: int| 0 <= j < i ==> self.elems()[j] != s@,
            decreases self.items@.len() - i,
        {
            if str_eq(self.items[i].as_str(), s) {
                return Some(i);
            }
            i = i + 1;
        }
        None
    }

    pub fn contains(&self, s: &str) -> (res: bool)
        requires
            self.wf(),
        ensures
            res == self@.contains(s@),
    {
        proof {
            self.lemma_view();
        }
        self.find(s).is_some()
    }

    /// Add `s`; returns whether it was absent. A present member is kept as is.
    pub fn insert(&mut self, s: String) -> (res: bool)
        requires
            old(self).wf(),
        ensures
            final(self).wf(),
            res == !old(self)@.contains(s@),
            final(self)@ == old(self)@.insert(s@),
            res ==> final(self).elems() == old(self).elems().push(s@),
            !res ==> final(self).elems() == old(self).elems(),
    {
        proof {
            self.lemma_view();
        }
        if self.find(s.as_str()).is_some() {
            assert(self@.insert(s@) =~= self@);
            false
        } else {
            let ghost old_elems = self.elems();
            self.items.push(s);
            proof {
                assert(self.elems() =~= old_elems.push(s@));
                assert(self.elems().to_set() =~= old_elems.to_set().insert(s@));
                self.lemma_view();
            }
            true
        }
    }

    /// Remove `s`; returns whether it was present.
    pub fn remove(&mut self, s: &str) -> (res: bool)
        requires
            old(self).wf(),
        ensures
            final(self).wf(),
            res == old(self)@.contains(s@),
            final(self)@ == old(self)@.remove(s@),
    {
        proof {
            self.lemma_view();
        }
        match self.find(s) {
            Some(i) => {
                let ghost old_elems = self.elems();
                self.items.remove(i);
                proof {
                    assert(self.elems() =~= old_elems.remove(i as int));
                    assert forall|x: Seq<char>| self.elems().contains(x) <==> (
                    old_elems.contains(x) && x != s@) by {
                        if self.elems().contains(x) {
                            let k = choose|k: int|
                                0 <= k < self.elems().len() && self.elems()[k] == x;
                            if k < i {
                                assert(old_elems[k] == x);
                            } else {
                                assert(old_elems[k + 1] == x);
                            }
                        }
                        if old_elems.contains(x) && x != s@ {
                            let k = choose|k: int| 0 <= k < old_elems.len() && old_elems[k] == x;
                            if k < i {
                                assert(self.elems()[k] == x);
                            } else {
                                assert(self.elems()[k - 1] == x);
                            }
                        }
                    }
                    assert(self.elems().to_set() =~= old_elems.to_set().remove(s@));
                    self.lemma_view();
                }
                true
            },
            None => {
                assert(self@.remove(s@) =~= self@);
                false
            },
        }
    }
}

impl View for StrSet {
    type V = Set<Seq<char>>;

    closed spec fn view(&self) -> Set<Seq<char>> {
        self.elems().to_set()
    }
}

/// A map from strings to values, kept in insertion order of its keys.
#[derive(Debug)]
pub struct StrMap<V> {
    keys: Vec<String>,
    vals: Vec<V>,
}

impl<V> StrMap<V> {
    /// The keys, in insertion order.
    pub closed spec fn key_seq(&self) -> Seq<Seq<char>> {
        strings_view(self.keys@)
    }

    /// The values, parallel to `key_seq`.
    pub closed spec fn val_seq(&self) -> Seq<V> {
        self.vals@
    }

    /// Well-formedness: no key (member) is stored twice.
    pub closed spec fn wf(&self) -> bool {
        &&& self.key_seq().no_duplicates()
        &&& self.keys@.len() == self.vals@.len()
    }

    proof fn lemma_view(&self)
        requires
            self.wf(),
        ensures
            self.key_seq().no_duplicates(),
            self.key_seq().len() == self.val_seq().len(),
            forall|k: Seq<char>| #[trigger]
                self@.contains_key(k) <==> self.key_seq().contains(k),
            forall|i: int|
                0 <= i < self.key_seq().len() ==> #[trigger] self@[self.key_seq()[i]]
                    == self.val_seq()[i],
    {
        assert forall|i: int| 0 <= i < self.key_seq().len() implies #[trigger] self@[self.key_seq()[i]]
            == self.val_seq()[i] by {
            let k = self.key_seq()[i];
            assert(self.key_seq().contains(k));
            let j = self.key_seq().index_of(k);
            assert(self.key_seq()[j] == k);
        }
    }

    pub fn new() -> (res: StrMap<V>)
        ensures
            res.wf(),
            res@ == Map::<Seq<char>, V>::empty(),
    {
        let res = StrMap { keys: Vec::new(), vals: Vec::new() };
        assert(res.key_seq() =~= Seq::<Seq<char>>::empty());
        assert(res@ =~= Map::<Seq<char>, V>::empty());
        res
    }

    /// Values, in the insertion order of their keys.
    pub fn values(&self) -> (res: &Vec<V>)
        requires
            self.wf(),
        ensures
            res@ == self.val_seq(),
            res@.len() == self.key_seq().len(),
    {
        &self.vals
    }

    /// Keys in insertion order; no key is listed twice.
    pub fn keys(&self) -> (res: &Vec<String>)
        requires
            self.wf(),
        ensures
            strings_view(res@) == self.key_seq(),
            self.key_seq().no_duplicates(),
            self.key_seq().to_set() == self@.dom(),
    {
        proof {
            self.lemma_view();
            assert(self.key_seq().to_set() =~= self@.dom());
        }
        &self.keys
    }

    fn find(&self, k: &str) -> (res: Option<usize>)
        ensures
            match res {
                Some(i) => i < self.key_seq().len() && self.key_seq()[i as int] == k@,
                None => !self.key_seq().contains(k@),
            },
    {
        let mut i: usize = 0;
        while i < self.keys.len()
            invariant
                i <= self.keys@.len(),
                forall|j: int| 0 <= j < i ==> self.key_seq()[j] != k@,
            decreases self.keys@.len() - i,
        {
            if str_eq(self.keys[i].as_str(), k) {
                return Some(i);
            }
            i = i + 1;
        }
        None
    }

    pub fn contains_key(&self, k: &str) -> (res: bool)
        requires
            self.wf(),
        ensures
            res == self@.contains_key(k@),
    {
        proof {
            self.lemma_view();
        }
        self.find(k).is_some()
    }

    pub fn get(&self, k: &str) -> (res: Option<&V>)
        requires
            self.wf(),
        ensures
            match res {
                Some(v) => self@.contains_key(k@) && *v == self@[k@],
                None => !self@.contains_key(k@),
            },
    {
        proof {
            self.lemma_view();
        }
        match self.find(k) {
            Some(i) => Some(&self.vals[i]),
            None => None,
        }
    }

    /// Remove the entry of `k` and hand back its value.
    pub fn take(&mut self, k: &str) -> (res: Option<V>)
        requires
            old(self).wf(),
        ensures
            final(self).wf(),
            match res {
                Some(v) => old(self)@.contains_key(k@) && v == old(self)@[k@],
                None => !old(self)@.contains_key(k@),
            },
            final(self)@ == old(self)@.remove(k@),
    {
        proof {
            self.lemma_view();
        }
        match self.find(k) {
            Some(i) => {
                let ghost old_keys = self.key_seq();
                let ghost old_vals = self.val_seq();
                let ghost old_map = self@;
                let ghost ii = i as int;
                let v = self.vals.remove(i);
                self.keys.remove(i);
                proof {
                    assert(self.key_seq() =~= old_keys.remove(ii));
                    assert(self.val_seq() =~= old_vals.remove(ii));
                    self.lemma_view();
                    assert forall|x: Seq<char>| self.key_seq().contains(x) <==> (
                    old_keys.contains(x) && x != k@) by {
                        if self.key_seq().contains(x) {
                            let j = choose|j: int|
                                0 <= j < self.key_seq().len() && self.key_seq()[j] == x;
                            if j < ii {
                                assert(old_keys[j] == x);
                            } else {
                                assert(old_keys[j + 1] == x);
                            }
                        }
                        if old_keys.contains(x) && x != k@ {
                            let j = choose|j: int| 0 <= j < old_keys.len() && old_keys[j] == x;
                            if j < ii {
                                assert(self.key_seq()[j] == x);
                            } else {
                                assert(self.key_seq()[j - 1] == x);
                            }
                        }
                    }
                    assert forall|x: Seq<char>| #[trigger]
                        self@.contains_key(x) implies self@[x] == old_map[x] by {
                        let j = choose|j: int|
                            0 <= j < self.key_seq().len() && self.key_seq()[j] == x;
                        assert(self@[self.key_seq()[j]] == self.val_seq()[j]);
                        if j < ii {
                            assert(old_map[old_keys[j]] == old_vals[j]);
                        } else {
                            assert(old_map[old_keys[j + 1]] == old_vals[j + 1]);
                        }
                    }
                    assert(self@ =~= old_map.remove(k@));
                }
                Some(v)
            },
            None => {
                assert(self@.remove(k@) =~= self@);
                None
            },
        }
    }

    /// Set the value of `k`, adding the key when absent.
    pub fn insert(&mut self, k: String, v: V)
        requires
            old(self).wf(),
        ensures
            final(self).wf(),
            final(self)@ == old(self)@.insert(k@, v),
    {
        let ghost old_map = self@;
        let _ = self.take(k.as_str());
        let ghost mid_map = self@;
        proof {
            self.lemma_view();
            assert(!mid_map.contains_key(k@));
        }
        let ghost old_keys = self.key_seq();
        assert(!old_keys.contains(k@));
        let ghost old_vals = self.val_seq();
        self.keys.push(k);
        self.vals.push(v);
        proof {
            assert(self.key_seq() =~= old_keys.push(k@));
            assert(self.val_seq() =~= old_vals.push(v));
            assert(self.key_seq().no_duplicates()) by {
                assert forall|i: int, j: int|
                    0 <= i < self.key_seq().len() && 0 <= j < self.key_seq().len() && i != j
                    implies self.key_seq()[i] != self.key_seq()[j] by {
                    if i < old_keys.len() && j < old_keys.len() {
                        assert(old_keys[i] != old_keys[j]);
                    } else if i < old_keys.len() {
                        assert(old_keys.contains(old_keys[i]));
                    } else {
                        assert(old_keys.contains(old_keys[j]));
                    }
                }
            }
            self.lemma_view();
            let n = old_keys.len() as int;
            assert(self.key_seq()[n] == k@);
            assert(self@[self.key_seq()[n]] == self.val_seq()[n]);
            assert forall|x: Seq<char>| #[trigger] self@.contains_key(x) <==> mid_map.contains_key(x)
                || x == k@ by {
                if self@.contains_key(x) && x != k@ {
                    let j = choose|j: int|
                        0 <= j < self.key_seq().len() && self.key_seq()[j] == x;
                    assert(j < n);
                    assert(old_keys[j] == x);
                }
                if mid_map.contains_key(x) {
                    let j = choose|j: int| 0 <= j < old_keys.len() && old_keys[j] == x;
                    assert(self.key_seq()[j] == x);
                }
            }
            assert forall|x: Seq<char>| #[trigger]
                self@.contains_key(x) && x != k@ implies self@[x] == mid_map[x] by {
                let j = choose|j: int| 0 <= j < self.key_seq().len() && self.key_seq()[j] == x;
                assert(j < n);
                assert(self@[self.key_seq()[j]] == self.val_seq()[j]);
                assert(mid_map[old_keys[j]] == old_vals[j]);
            }
            assert(self@ =~= old_map.insert(k@, v));
        }
    }
}

impl<V> View for StrMap<V> {
    type V = Map<Seq<char>, V>;

    closed spec fn view(&self) -> Map<Seq<char>, V> {
        Map::new(
            |k: Seq<char>| self.key_seq().contains(k),
            |k: Seq<char>| self.val_seq()[self.key_seq().index_of(k)],
        )
    }
}

} // verus!

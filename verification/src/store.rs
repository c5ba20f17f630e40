//! A map from string keys to values, kept as a vector of entries in insertion
//! order. No key occurs twice; the view is the map from each key to its value.
use vstd::prelude::*;

use crate::text::to_owned_string;

verus! {

/// String-keyed map. Iteration order is the order in which keys were first inserted.
pub struct Store<T: View> {
    keys: Vec<String>,
    vals: Vec<T>,
    model: Ghost<Map<Seq<char>, T>>,
}

impl<T: View> Store<T> {
    #[verifier::type_invariant]
    spec fn inv(&self) -> bool {
        Self::entries_ok(self.keys@, self.vals@, self.model@)
    }

    spec fn entries_ok(keys: Seq<String>, vals: Seq<T>, model: Map<Seq<char>, T>) -> bool {
        &&& keys.len() == vals.len()
        &&& forall|i: int, j: int|
            0 <= i < keys.len() && 0 <= j < keys.len() && i != j ==> #[trigger] keys[i]@
                != #[trigger] keys[j]@
        &&& forall|i: int|
            0 <= i < keys.len() ==> #[trigger] model.contains_key(keys[i]@) && model[keys[i]@]
                == vals[i]
        &&& forall|k: Seq<char>|
            #[trigger] model.contains_key(k) ==> exists|i: int| 0 <= i < keys.len() && keys[i]@ == k
    }

    /// The map from keys to values.
    pub closed spec fn map(&self) -> Map<Seq<char>, T> {
        self.model@
    }

    /// The map from keys to the views of the values.
    pub open spec fn view_map(&self) -> Map<Seq<char>, T::V> {
        self.map().map_values(|v: T| v@)
    }

    /// The keys, in iteration order.
    pub closed spec fn key_seq(&self) -> Seq<Seq<char>> {
        self.keys@.map_values(|k: String| k@)
    }

    /// The values, in iteration order.
    pub closed spec fn val_seq(&self) -> Seq<T> {
        self.vals@
    }

    /// An empty store.
    pub fn new() -> (r: Self)
        ensures
            r.map() == Map::<Seq<char>, T>::empty(),
            r.view_map() == Map::<Seq<char>, T::V>::empty(),
            r.key_seq().len() == 0,
            r.val_seq().len() == 0,
    {
        Store { keys: Vec::new(), vals: Vec::new(), model: Ghost(Map::empty()) }
    }

    /// Number of entries.
    pub fn len(&self) -> (r: usize)
        ensures
            r == self.key_seq().len(),
            r == self.val_seq().len(),
            r == self.map().dom().len(),
    {
        proof {
            use_type_invariant(self);
            self.lemma_dom_len();
        }
        self.keys.len()
    }

    proof fn lemma_dom_len(&self)
        requires
            Self::entries_ok(self.keys@, self.vals@, self.model@),
        ensures
            self.model@.dom() == self.keys@.map_values(|k: String| k@).to_set(),
            self.model@.dom().len() == self.keys@.len(),
    {
        let ks = self.keys@.map_values(|k: String| k@);
        assert forall|k: Seq<char>| self.model@.dom().contains(k) <==> ks.to_set().contains(k) by {
            if self.model@.dom().contains(k) {
                let i = choose|i: int| 0 <= i < self.keys@.len() && self.keys@[i]@ == k;
                assert(ks[i] == k);
            }
            if ks.to_set().contains(k) {
                let i = choose|i: int| 0 <= i < ks.len() && ks[i] == k;
                assert(self.model@.contains_key(self.keys@[i]@));
            }
        }
        assert(self.model@.dom() =~= ks.to_set());
        assert(ks.no_duplicates()) by {
            assert forall|i: int, j: int| 0 <= i < ks.len() && 0 <= j < ks.len() && i != j implies ks[i]
                != ks[j] by {
                assert(self.keys@[i]@ != self.keys@[j]@);
            }
        }
        ks.unique_seq_to_set();
    }

    /// Position of `k` in iteration order.
    fn position(&self, k: &String) -> (r: Option<usize>)
        ensures
            r matches Some(i) ==> i < self.keys@.len() && self.keys@[i as int]@ == k@,
            r is None ==> !self.model@.contains_key(k@),
    {
        proof {
            use_type_invariant(self);
        }
        let mut i: usize = 0;
        while i < self.keys.len()
            invariant
                i <= self.keys@.len(),
                Self::entries_ok(self.keys@, self.vals@, self.model@),
                forall|j: int| 0 <= j < i ==> self.keys@[j]@ != k@,
            decreases self.keys.len() - i,
        {
            if self.keys[i] == *k {
                return Some(i);
            }
            i = i + 1;
        }
        proof {
            if self.model@.contains_key(k@) {
                let j = choose|j: int| 0 <= j < self.keys@.len() && self.keys@[j]@ == k@;
                assert(self.keys@[j]@ == k@);
            }
        }
        None
    }

    /// Whether `k` has an entry.
    pub fn contains(&self, k: &str) -> (r: bool)
        ensures
            r == self.map().contains_key(k@),
            r == self.view_map().contains_key(k@),
    {
        proof {
            use_type_invariant(self);
        }
        let key = to_owned_string(k);
        match self.position(&key) {
            Some(i) => {
                proof {
                    assert(self.model@.contains_key(self.keys@[i as int]@));
                }
                true
            },
            None => false,
        }
    }

    /// The value stored under `k`.
    pub fn get(&self, k: &str) -> (r: Option<&T>)
        ensures
            self.map().contains_key(k@) ==> r == Some(&self.map()[k@]),
            !self.map().contains_key(k@) ==> r is None,
            self.view_map().contains_key(k@) ==> r is Some && r->0@ == self.view_map()[k@],
    {
        proof {
            use_type_invariant(self);
        }
        let key = to_owned_string(k);
        match self.position(&key) {
            Some(i) => Some(&self.vals[i]),
            None => None,
        }
    }

    /// The `i`-th key in iteration order.
    pub fn key_at(&self, i: usize) -> (r: &String)
        requires
            i < self.key_seq().len(),
        ensures
            r@ == self.key_seq()[i as int],
    {
        proof {
            use_type_invariant(self);
        }
        &self.keys[i]
    }

    /// The `i`-th value in iteration order.
    pub fn val_at(&self, i: usize) -> (r: &T)
        requires
            i < self.key_seq().len(),
        ensures
            *r == self.val_seq()[i as int],
    {
        proof {
            use_type_invariant(self);
        }
        &self.vals[i]
    }

    /// Stores `v` under `k`, replacing any earlier value (which keeps its position).
    pub fn insert(&mut self, k: String, v: T)
        ensures
            final(self).map() == old(self).map().insert(k@, v),
            final(self).view_map() == old(self).view_map().insert(k@, v@),
            old(self).map().contains_key(k@) ==> final(self).key_seq() == old(self).key_seq(),
            !old(self).map().contains_key(k@) ==> final(self).key_seq() == old(self).key_seq().push(
                k@,
            ),
            !old(self).map().contains_key(k@) ==> final(self).val_seq() == old(self).val_seq().push(v),
    {
        proof {
            use_type_invariant(&*self);
        }
        let ghost old_model = self.model@;
        let ghost kv = k@;
        let ghost vv = v;
        match self.position(&k) {
            Some(i) => {
                let mut whole = Store::new();
                std::mem::swap(&mut whole, self);
                proof {
                    use_type_invariant(&whole);
                }
                let Store { keys, mut vals, model: _ } = whole;
                let ghost old_keys = keys@;
                vals.set(i, v);
                let ghost new_model = old_model.insert(kv, v);
                proof {
                    assert forall|j: int| 0 <= j < old_keys.len() implies #[trigger] new_model.contains_key(
                        old_keys[j]@,
                    ) && new_model[old_keys[j]@] == vals@[j] by {
                        assert(old_model.contains_key(old_keys[j]@));
                        if j != i {
                            assert(old_keys[j]@ != old_keys[i as int]@);
                        }
                    }
                    assert forall|kk: Seq<char>| #[trigger] new_model.contains_key(kk) implies exists|
                        j: int,
                    | 0 <= j < old_keys.len() && old_keys[j]@ == kk by {
                        if kk == kv {
                            assert(old_keys[i as int]@ == kk);
                        } else {
                            assert(old_model.contains_key(kk));
                        }
                    }
                }
                *self = Store { keys, vals, model: Ghost(new_model) };
            },
            None => {
                let mut whole = Store::new();
                std::mem::swap(&mut whole, self);
                proof {
                    use_type_invariant(&whole);
                }
                let Store { mut keys, mut vals, model: _ } = whole;
                let ghost old_keys = keys@;
                keys.push(k);
                vals.push(v);
                let ghost new_model = old_model.insert(kv, v);
                proof {
                    assert forall|a: int, b: int|
                        0 <= a < keys@.len() && 0 <= b < keys@.len() && a != b implies #[trigger] keys@[a]@
                        != #[trigger] keys@[b]@ by {
                        if a == old_keys.len() as int {
                            assert(old_model.contains_key(keys@[b]@));
                        } else if b == old_keys.len() as int {
                            assert(old_model.contains_key(keys@[a]@));
                        } else {
                            assert(keys@[a] == old_keys[a]);
                            assert(keys@[b] == old_keys[b]);
                        }
                    }
                    assert forall|j: int| 0 <= j < keys@.len() implies #[trigger] new_model.contains_key(
                        keys@[j]@,
                    ) && new_model[keys@[j]@] == vals@[j] by {
                        if j < old_keys.len() {
                            assert(keys@[j] == old_keys[j]);
                            assert(old_model.contains_key(old_keys[j]@));
                        }
                    }
                    assert forall|kk: Seq<char>| #[trigger] new_model.contains_key(kk) implies exists|
                        j: int,
                    | 0 <= j < keys@.len() && keys@[j]@ == kk by {
                        if kk == kv {
                            assert(keys@[old_keys.len() as int]@ == kk);
                        } else {
                            let j = choose|j: int| 0 <= j < old_keys.len() && old_keys[j]@ == kk;
                            assert(keys@[j] == old_keys[j]);
                        }
                    }
                }
                *self = Store { keys, vals, model: Ghost(new_model) };
            },
        }
        proof {
            assert(self.model@ == old_model.insert(kv, vv));
            assert(self.view_map() =~= old(self).view_map().insert(kv, vv@));
            if !old_model.contains_key(kv) {
                assert(self.key_seq() =~= old(self).key_seq().push(kv));
                assert(self.val_seq() =~= old(self).val_seq().push(vv));
            } else {
                assert(self.key_seq() =~= old(self).key_seq());
            }
        }
    }

    /// Removes the entry under `k` and returns its value.
    pub fn remove(&mut self, k: &str) -> (r: Option<T>)
        ensures
            final(self).map() == old(self).map().remove(k@),
            old(self).map().contains_key(k@) ==> r == Some(old(self).map()[k@]),
            !old(self).map().contains_key(k@) ==> r is None,
            final(self).view_map() == old(self).view_map().remove(k@),
    {
        proof {
            use_type_invariant(&*self);
        }
        let key = to_owned_string(k);
        let ghost old_model = self.model@;
        match self.position(&key) {
            Some(i) => {
                let mut whole = Store::new();
                std::mem::swap(&mut whole, self);
                proof {
                    use_type_invariant(&whole);
                }
                let Store { mut keys, mut vals, model: _ } = whole;
                let ghost ok = keys@;
                let ghost ov = vals@;
                proof {
                    assert(old_model.contains_key(ok[i as int]@));
                }
                keys.remove(i);
                let v = vals.remove(i);
                let ghost new_model = old_model.remove(key@);
                proof {
                    assert forall|j: int| 0 <= j < keys@.len() implies keys@[j] == (if j < i {
                        ok[j]
                    } else {
                        ok[j + 1]
                    }) && vals@[j] == (if j < i {
                        ov[j]
                    } else {
                        ov[j + 1]
                    }) by {}
                    assert forall|a: int, b: int|
                        0 <= a < keys@.len() && 0 <= b < keys@.len() && a != b implies #[trigger] keys@[a]@
                        != #[trigger] keys@[b]@ by {
                        let oa = if a < i { a } else { a + 1 };
                        let ob = if b < i { b } else { b + 1 };
                        assert(ok[oa]@ != ok[ob]@);
                    }
                    assert forall|j: int| 0 <= j < keys@.len() implies #[trigger] new_model.contains_key(
                        keys@[j]@,
                    ) && new_model[keys@[j]@] == vals@[j] by {
                        let oj = if j < i { j } else { j + 1 };
                        assert(ok[oj]@ != ok[i as int]@);
                        assert(old_model.contains_key(ok[oj]@));
                    }
                    assert forall|kk: Seq<char>| #[trigger] new_model.contains_key(kk) implies exists|
                        j: int,
                    | 0 <= j < keys@.len() && keys@[j]@ == kk by {
                        let oj = choose|j: int| 0 <= j < ok.len() && ok[j]@ == kk;
                        assert(oj != i);
                        let j = if oj < i { oj } else { oj - 1 };
                        assert(keys@[j]@ == kk);
                    }
                    assert(keys@.len() == vals@.len());
                    assert(Self::entries_ok(keys@, vals@, new_model));
                }
                *self = Store { keys, vals, model: Ghost(new_model) };
                proof {
                    assert(self.view_map() =~= old(self).view_map().remove(key@));
                }
                Some(v)
            },
            None => {
                proof {
                    assert(old_model.remove(key@) =~= old_model);
                    assert(self.view_map() =~= old(self).view_map().remove(key@));
                }
                None
            },
        }
    }
}

} // verus!

verus! {

/// Request parameters (a query string or a form): each name has one value.
pub type Params = Store<String>;

impl Store<String> {
    /// The value under `k`, copied.
    pub fn get_string(&self, k: &str) -> (r: Option<String>)
        ensures
            self.view_map().contains_key(k@) ==> r is Some && r->0@ == self.view_map()[k@],
            !self.view_map().contains_key(k@) ==> r is None,
    {
        match self.get(k) {
            Some(v) => Some(v.clone()),
            None => None,
        }
    }

    /// A copy of the parameters, in the same order.
    pub fn copy(&self) -> (r: Params)
        ensures
            r.view_map() == self.view_map(),
            r.key_seq() == self.key_seq(),
            crate::oauth::string_views(r.val_seq()) == crate::oauth::string_views(self.val_seq()),
    {
        proof {
            use_type_invariant(self);
        }
        let mut out: Params = Store::new();
        let mut i: usize = 0;
        proof {
            assert(self.vals@.take(0) =~= Seq::<String>::empty());
            assert(out.val_seq() =~= Seq::<String>::empty());
            assert(self.key_seq().take(0) =~= out.key_seq());
        }
        while i < self.keys.len()
            invariant
                i <= self.keys@.len(),
                Self::entries_ok(self.keys@, self.vals@, self.model@),
                out.key_seq() == self.key_seq().take(i as int),
                crate::oauth::string_views(out.val_seq()) == crate::oauth::string_views(
                    self.vals@.take(i as int),
                ),
                forall|k: Seq<char>|
                    #[trigger] out.map().contains_key(k) <==> exists|j: int|
                        0 <= j < i && self.keys@[j]@ == k,
                forall|j: int| 0 <= j < i ==> #[trigger] out.map()[self.keys@[j]@]@ == self.vals@[j]@,
            decreases self.keys.len() - i,
        {
            let k = self.keys[i].clone();
            let v = self.vals[i].clone();
            proof {
                if out.map().contains_key(k@) {
                    let j = choose|j: int| 0 <= j < i && self.keys@[j]@ == k@;
                    assert(self.keys@[j]@ != self.keys@[i as int]@);
                }
            }
            let ghost prev = out.map();
            let ghost pv = out.val_seq();
            let ghost vv = v;
            out.insert(k, v);
            proof {
                assert(self.key_seq().take(i + 1) =~= self.key_seq().take(i as int).push(
                    self.keys@[i as int]@,
                ));
                assert(self.vals@.take(i + 1) =~= self.vals@.take(i as int).push(self.vals@[i as int]));
                assert(out.val_seq() == pv.push(vv));
                assert(crate::oauth::string_views(pv.push(vv)) =~= crate::oauth::string_views(pv).push(vv@));
                assert(crate::oauth::string_views(self.vals@.take(i as int).push(self.vals@[i as int]))
                    =~= crate::oauth::string_views(self.vals@.take(i as int)).push(self.vals@[i as int]@));
                assert(crate::oauth::string_views(out.val_seq()) =~= crate::oauth::string_views(
                    self.vals@.take(i + 1),
                ));
                assert forall|kk: Seq<char>| #[trigger] out.map().contains_key(kk) <==> exists|j: int|
                    0 <= j < i + 1 && self.keys@[j]@ == kk by {
                    if kk == self.keys@[i as int]@ {
                        assert(0 <= i < i + 1 && self.keys@[i as int]@ == kk);
                    } else if prev.contains_key(kk) {
                        let j = choose|j: int| 0 <= j < i && self.keys@[j]@ == kk;
                        assert(0 <= j < i + 1 && self.keys@[j]@ == kk);
                    }
                }
                assert forall|j: int| 0 <= j < i + 1 implies #[trigger] out.map()[self.keys@[j]@]@
                    == self.vals@[j]@ by {
                    if j < i {
                        assert(self.keys@[j]@ != self.keys@[i as int]@);
                        assert(prev[self.keys@[j]@]@ == self.vals@[j]@);
                    }
                }
            }
            i = i + 1;
        }
        proof {
            assert(self.key_seq().take(i as int) =~= self.key_seq());
            assert(self.vals@.take(i as int) =~= self.vals@);
            assert forall|k: Seq<char>| #[trigger] out.view_map().contains_key(k) <==> self.view_map().contains_key(k) by {
                if self.model@.contains_key(k) {
                    let j = choose|j: int| 0 <= j < self.keys@.len() && self.keys@[j]@ == k;
                    assert(out.map().contains_key(self.keys@[j]@));
                }
                if out.map().contains_key(k) {
                    let j = choose|j: int| 0 <= j < i && self.keys@[j]@ == k;
                    assert(self.model@.contains_key(self.keys@[j]@));
                }
            }
            assert forall|k: Seq<char>| #[trigger] out.view_map().contains_key(k) implies out.view_map()[k]
                == self.view_map()[k] by {
                let j = choose|j: int| 0 <= j < i && self.keys@[j]@ == k;
                assert(out.map()[self.keys@[j]@]@ == self.vals@[j]@);
                assert(self.model@[self.keys@[j]@] == self.vals@[j]);
            }
            assert(out.view_map() =~= self.view_map());
        }
        out
    }

    /// Sets parameter `k` to `v`.
    pub fn set(&mut self, k: &str, v: &str)
        ensures
            final(self).view_map() == old(self).view_map().insert(k@, v@),
    {
        let ghost before = self.map();
        self.insert(String::from_str(k), String::from_str(v));
        proof {
            assert(self.view_map() =~= before.map_values(|s: String| s@).insert(k@, v@));
        }
    }
}

} // verus!

//! Association map from string keys to values, backed by parallel vectors
//! with unique keys and a `Map` view. Both the fleet registry and the
//! command tracker store their keyed state in this shape, which keeps the
//! iteration order deterministic (first-insertion order).
use vstd::prelude::*;

verus! {

use vstd::map::*;
use vstd::pervasive::VecAdditionalExecFns;

#[derive(Debug)]
pub struct SMap<V> {
    pub keys: Vec<String>,
    pub vals: Vec<V>,
}

/// The map denoted by parallel key and value sequences; a later entry for
/// the same key wins.
pub open spec fn kv_map<V>(ks: Seq<Seq<char>>, vs: Seq<V>) -> Map<Seq<char>, V>
    decreases ks.len(),
{
    if ks.len() == 0 || vs.len() == 0 {
        Map::empty()
    } else {
        kv_map(ks.drop_last(), vs.drop_last()).insert(ks.last(), vs.last())
    }
}

pub proof fn lemma_kv_dom<V>(ks: Seq<Seq<char>>, vs: Seq<V>, k: Seq<char>)
    requires
        ks.len() == vs.len(),
    ensures
        kv_map(ks, vs).contains_key(k) <==> ks.contains(k),
    decreases ks.len(),
{
    if ks.len() > 0 {
        lemma_kv_dom(ks.drop_last(), vs.drop_last(), k);
        if ks.contains(k) {
            let i = choose|i: int| 0 <= i < ks.len() && ks[i] == k;
            if i < ks.len() - 1 {
                assert(ks.drop_last().contains(k)) by {
                    assert(ks.drop_last()[i] == k);
                }
            }
        } else {
            assert(!ks.drop_last().contains(k)) by {
                assert(forall|i: int|
                    0 <= i < ks.len() - 1 ==> ks.drop_last()[i] == ks[i] && ks[i] != k);
            }
        }
    }
}

pub proof fn lemma_kv_index<V>(ks: Seq<Seq<char>>, vs: Seq<V>, i: int)
    requires
        ks.len() == vs.len(),
        0 <= i < ks.len(),
        forall|p: int, q: int| 0 <= p < q < ks.len() ==> ks[p] != ks[q],
    ensures
        kv_map(ks, vs).contains_key(ks[i]),
        kv_map(ks, vs)[ks[i]] == vs[i],
    decreases ks.len(),
{
    lemma_kv_dom(ks, vs, ks[i]);
    if i == ks.len() - 1 {
    } else {
        assert(ks[i] != ks.last());
        lemma_kv_index(ks.drop_last(), vs.drop_last(), i);
    }
}

pub proof fn lemma_kv_len<V>(ks: Seq<Seq<char>>, vs: Seq<V>)
    requires
        ks.len() == vs.len(),
        forall|p: int, q: int| 0 <= p < q < ks.len() ==> ks[p] != ks[q],
    ensures
        kv_map(ks, vs).dom().finite(),
        kv_map(ks, vs).dom().len() == ks.len(),
    decreases ks.len(),
{
    if ks.len() == 0 {
        assert(kv_map(ks, vs).dom() =~= Set::<Seq<char>>::empty());
    } else {
        lemma_kv_len(ks.drop_last(), vs.drop_last());
        lemma_kv_dom(ks.drop_last(), vs.drop_last(), ks.last());
        assert(!ks.drop_last().contains(ks.last())) by {
            assert(forall|i: int|
                0 <= i < ks.len() - 1 ==> ks.drop_last()[i] == ks[i] && ks[i] != ks.last());
        }
        assert(kv_map(ks, vs).dom() =~= kv_map(ks.drop_last(), vs.drop_last()).dom().insert(
            ks.last(),
        ));
        vstd::set::axiom_set_insert_len(kv_map(ks.drop_last(), vs.drop_last()).dom(), ks.last());
    }
}

impl<V> SMap<V> {
    /// The key views, in storage order.
    pub open spec fn kseq(self) -> Seq<Seq<char>> {
        self.keys@.map_values(|k: String| k@)
    }

    /// The values, in storage order.
    pub open spec fn vseq(self) -> Seq<V> {
        self.vals@
    }

    /// Parallel vectors of equal length, with no key stored twice.
    pub open spec fn wf(self) -> bool {
        &&& self.keys@.len() == self.vals@.len()
        &&& forall|p: int, q: int| 0 <= p < q < self.kseq().len() ==> self.kseq()[p] != self.kseq()[q]
    }

    pub open spec fn view(self) -> Map<Seq<char>, V> {
        kv_map(self.kseq(), self.vseq())
    }

    pub open spec fn spec_contains(self, k: Seq<char>) -> bool {
        self.kseq().contains(k)
    }

    /// The unique storage index of key `k`, when present.
    pub open spec fn key_index(self, k: Seq<char>) -> int {
        choose|i: int| 0 <= i < self.kseq().len() && self.kseq()[i] == k
    }

    pub proof fn lemma_view_at(self, i: int)
        requires
            self.wf(),
            0 <= i < self.kseq().len(),
        ensures
            self@.contains_key(self.kseq()[i]),
            self@[self.kseq()[i]] == self.vseq()[i],
            self.spec_contains(self.kseq()[i]),
        decreases 0int,
    {
        lemma_kv_index(self.kseq(), self.vseq(), i);
    }

    pub proof fn lemma_contains(self, k: Seq<char>)
        requires
            self.wf(),
        ensures
            self@.contains_key(k) <==> self.spec_contains(k),
            self.spec_contains(k) ==> {
                &&& 0 <= self.key_index(k) < self.kseq().len()
                &&& self.kseq()[self.key_index(k)] == k
                &&& self@[k] == self.vseq()[self.key_index(k)]
            },
        decreases 0int,
    {
        lemma_kv_dom(self.kseq(), self.vseq(), k);
        if self.spec_contains(k) {
            let i = self.key_index(k);
            assert(0 <= i < self.kseq().len() && self.kseq()[i] == k);
            lemma_kv_index(self.kseq(), self.vseq(), i);
        }
    }

    pub proof fn lemma_len(self)
        requires
            self.wf(),
        ensures
            self@.dom().finite(),
            self@.dom().len() == self.kseq().len(),
        decreases 0int,
    {
        lemma_kv_len(self.kseq(), self.vseq());
    }

    pub fn new() -> (r: SMap<V>)
        ensures
            r.wf(),
            r@ == Map::<Seq<char>, V>::empty(),
            r.kseq() == Seq::<Seq<char>>::empty(),
            r.vseq() == Seq::<V>::empty(),
    {
        let r = SMap { keys: Vec::new(), vals: Vec::new() };
        proof {
            assert(r.kseq() =~= Seq::<Seq<char>>::empty());
        }
        r
    }

    pub fn len(&self) -> (r: usize)
        requires
            self.wf(),
        ensures
            r == self.kseq().len(),
            r == self.vseq().len(),
    {
        self.keys.len()
    }

    pub fn key_at(&self, i: usize) -> (r: &String)
        requires
            self.wf(),
            i < self.kseq().len(),
        ensures
            r@ == self.kseq()[i as int],
    {
        &self.keys[i]
    }

    pub fn val_at(&self, i: usize) -> (r: &V)
        requires
            self.wf(),
            i < self.kseq().len(),
        ensures
            *r == self.vseq()[i as int],
    {
        &self.vals[i]
    }

    /// The storage index of `k`, scanning in order.
    pub fn find(&self, k: &str) -> (r: Option<usize>)
        requires
            self.wf(),
        ensures
            match r {
                Some(i) => self.spec_contains(k@) && i == self.key_index(k@) && i
                    < self.kseq().len() && self.kseq()[i as int] == k@,
                None => !self.spec_contains(k@) && !self@.contains_key(k@),
            },
    {
        let n = self.keys.len();
        let mut i: usize = 0;
        while i < n
            invariant
                self.wf(),
                n == self.kseq().len(),
                i <= n,
                forall|j: int| 0 <= j < i ==> self.kseq()[j] != k@,
            decreases n - i,
        {
            if crate::strutil::str_eq(self.keys[i].as_str(), k) {
                proof {
                    assert(self.kseq()[i as int] == k@);
                    assert(self.key_index(k@) == i) by {
                        let j = self.key_index(k@);
                        assert(0 <= j < self.kseq().len() && self.kseq()[j] == k@);
                    }
                }
                return Some(i);
            }
            i = i + 1;
        }
        proof {
            assert(!self.spec_contains(k@));
            self.lemma_contains(k@);
        }
        None
    }

    pub fn get<'a>(&'a self, k: &str) -> (r: Option<&'a V>)
        requires
            self.wf(),
        ensures
            match r {
                Some(v) => {
                    &&& self.spec_contains(k@)
                    &&& self@.contains_key(k@)
                    &&& *v == self@[k@]
                    &&& *v == self.vseq()[self.key_index(k@)]
                },
                None => !self.spec_contains(k@) && !self@.contains_key(k@),
            },
    {
        match self.find(k) {
            Some(i) => {
                proof {
                    self.lemma_contains(k@);
                }
                Some(&self.vals[i])
            },
            None => None,
        }
    }

    pub fn contains(&self, k: &str) -> (r: bool)
        requires
            self.wf(),
        ensures
            r == self.spec_contains(k@),
            r == self@.contains_key(k@),
    {
        proof {
            self.lemma_contains(k@);
        }
        self.find(k).is_some()
    }

    /// Inserts or replaces; a present key keeps its storage position, a new
    /// key goes to the end.
    pub fn insert(&mut self, k: String, v: V)
        requires
            old(self).wf(),
        ensures
            final(self).wf(),
            final(self)@ == old(self)@.insert(k@, v),
            old(self).spec_contains(k@) ==> {
                &&& final(self).kseq() == old(self).kseq()
                &&& final(self).vseq() == old(self).vseq().update(old(self).key_index(k@), v)
            },
            !old(self).spec_contains(k@) ==> {
                &&& final(self).kseq() == old(self).kseq().push(k@)
                &&& final(self).vseq() == old(self).vseq().push(v)
            },
    {
        let ghost pre = *self;
        match self.find(k.as_str()) {
            Some(i) => {
                self.vals.set(i, v);
                proof {
                    let ghost post = *final(self);
                    assert(post.kseq() =~= pre.kseq());
                    assert(post.wf());
                    pre.lemma_contains(k@);
                    assert_maps_equal!(post.view(), pre.view().insert(k@, v), k2 => {
                        lemma_kv_dom(post.kseq(), post.vseq(), k2);
                        lemma_kv_dom(pre.kseq(), pre.vseq(), k2);
                        if pre.kseq().contains(k2) {
                            let j = choose|j: int|
                                0 <= j < pre.kseq().len() && pre.kseq()[j] == k2;
                            post.lemma_view_at(j);
                            pre.lemma_view_at(j);
                            if k2 != k@ {
                                assert(j != i as int);
                            } else {
                                assert(j == i as int);
                            }
                        }
                    });
                }
            },
            None => {
                self.keys.push(k);
                self.vals.push(v);
                proof {
                    assert(final(self).kseq() =~= pre.kseq().push(k@));
                    assert(final(self).vseq() =~= pre.vseq().push(v));
                    let ghost post = *final(self);
                    assert(forall|p: int, q: int|
                        0 <= p < q < post.kseq().len() ==> post.kseq()[p] != post.kseq()[q]) by {
                        assert(forall|p: int|
                            0 <= p < pre.kseq().len() ==> post.kseq()[p] == pre.kseq()[p]
                                && pre.kseq()[p] != k@);
                    }
                    assert(final(self).kseq().drop_last() =~= pre.kseq());
                    assert(final(self).vseq().drop_last() =~= pre.vseq());
                    assert(final(self)@ == pre@.insert(k@, v));
                }
            },
        }
    }

    /// Removes `k` when present, shifting later entries down; no effect when
    /// absent.
    pub fn remove(&mut self, k: &str)
        requires
            old(self).wf(),
        ensures
            final(self).wf(),
            final(self)@ == old(self)@.remove(k@),
            old(self).spec_contains(k@) ==> {
                &&& final(self).kseq() == old(self).kseq().remove(old(self).key_index(k@))
                &&& final(self).vseq() == old(self).vseq().remove(old(self).key_index(k@))
            },
            !old(self).spec_contains(k@) ==> *final(self) == *old(self),
    {
        let ghost pre = *self;
        match self.find(k) {
            Some(i) => {
                self.keys.remove(i);
                self.vals.remove(i);
                proof {
                    assert(final(self).kseq() =~= pre.kseq().remove(i as int)) by {
                        assert forall|j: int|
                            0 <= j < final(self).kseq().len() implies final(self).kseq()[j]
                            == pre.kseq().remove(i as int)[j] by {
                            if j < i as int {
                                assert(final(self).keys@[j] == pre.keys@[j]);
                            } else {
                                assert(final(self).keys@[j] == pre.keys@[j + 1]);
                            }
                        }
                    }
                    assert(final(self).wf()) by {
                        let ks = pre.kseq().remove(i as int);
                        assert forall|p: int, q: int|
                            0 <= p < q < ks.len() implies ks[p] != ks[q] by {
                            let p0 = if p < i as int {
                                p
                            } else {
                                p + 1
                            };
                            let q0 = if q < i as int {
                                q
                            } else {
                                q + 1
                            };
                            assert(ks[p] == pre.kseq()[p0] && ks[q] == pre.kseq()[q0]);
                        }
                    }
                    let ghost post = *final(self);
                    assert(post.vseq() =~= pre.vseq().remove(i as int));
                    pre.lemma_contains(k@);
                    assert_maps_equal!(post.view(), pre.view().remove(k@), k2 => {
                        lemma_kv_dom(post.kseq(), post.vseq(), k2);
                        lemma_kv_dom(pre.kseq(), pre.vseq(), k2);
                        if post.kseq().contains(k2) {
                            let j = choose|j: int|
                                0 <= j < post.kseq().len() && post.kseq()[j] == k2;
                            post.lemma_view_at(j);
                            let j0 = if j < i as int { j } else { j + 1 };
                            assert(pre.kseq()[j0] == k2 && pre.vseq()[j0] == post.vseq()[j]);
                            pre.lemma_view_at(j0);
                            assert(k2 != k@);
                        } else if pre.kseq().contains(k2) && k2 != k@ {
                            let j0 = choose|j0: int|
                                0 <= j0 < pre.kseq().len() && pre.kseq()[j0] == k2;
                            assert(j0 != i as int);
                            let j = if j0 < i as int { j0 } else { j0 - 1 };
                            assert(post.kseq()[j] == k2);
                            assert(post.kseq().contains(k2));
                        }
                    });
                }
            },
            None => {
                proof {
                    pre.lemma_contains(k@);
                    assert(final(self)@ =~= pre@.remove(k@));
                }
            },
        }
    }
}

} // verus!

//! The routing pool: entries that pair an alias with a delivery endpoint,
//! keyed for lookup by alias and for removal by id.
//!
//! Several entries may share an alias; a lookup then finds the one that was
//! registered first.

use vstd::prelude::*;

verus! {

/// One registered connection: its id, its alias and its delivery endpoint.
pub struct PoolEntry<E> {
    pub id: u64,
    pub alias: String,
    pub endpoint: E,
}

impl<E> PoolEntry<E> {
    /// The id of the entry.
    pub fn get_id(&self) -> (r: u64)
        ensures
            r == self.id,
    {
        self.id
    }

    /// The alias of the entry.
    pub fn get_alias(&self) -> (r: &String)
        ensures
            r == self.alias,
    {
        &self.alias
    }
}

/// A collection of entries in the order they were registered.
pub struct RoutingPool<E> {
    entries: Vec<PoolEntry<E>>,
}

/// `i` is the first entry of `es` registered under the alias `a`.
pub open spec fn first_alias_at<E>(es: Seq<PoolEntry<E>>, a: Seq<char>, i: int) -> bool {
    &&& 0 <= i < es.len()
    &&& es[i].alias@ == a
    &&& forall|j: int| 0 <= j < i ==> es[j].alias@ != a
}

/// Some entry of `es` is registered under the alias `a`.
pub open spec fn has_alias<E>(es: Seq<PoolEntry<E>>, a: Seq<char>) -> bool {
    exists|i: int| first_alias_at(es, a, i)
}

/// The endpoint that a lookup of `a` finds in `es`: that of the first entry
/// registered under `a`.
pub open spec fn routes_to<E>(es: Seq<PoolEntry<E>>, a: Seq<char>) -> Option<E> {
    if has_alias(es, a) {
        Some(es[choose|i: int| first_alias_at(es, a, i)].endpoint)
    } else {
        None
    }
}

/// The ids of `es` grow strictly in the order of registration.
pub open spec fn ids_increasing<E>(es: Seq<PoolEntry<E>>) -> bool {
    forall|i: int, j: int| 0 <= i < j < es.len() ==> es[i].id < es[j].id
}

/// Every id in `es` is below `bound`.
pub open spec fn ids_below<E>(es: Seq<PoolEntry<E>>, bound: int) -> bool {
    forall|i: int| 0 <= i < es.len() ==> es[i].id < bound
}

/// The entry that registering `id`, `alias`, `endpoint` adds.
pub open spec fn new_entry<E>(id: u64, alias: String, endpoint: E) -> PoolEntry<E> {
    PoolEntry { id, alias, endpoint }
}

/// Only one entry can be the first one under an alias.
proof fn lemma_first_alias_unique<E>(es: Seq<PoolEntry<E>>, a: Seq<char>, i: int, j: int)
    requires
        first_alias_at(es, a, i),
        first_alias_at(es, a, j),
    ensures
        i == j,
{
    if i < j {
        assert(es[i].alias@ != a);
    } else if j < i {
        assert(es[j].alias@ != a);
    }
}

/// An exact first entry pins down `routes_to`.
proof fn lemma_routes_to_at<E>(es: Seq<PoolEntry<E>>, a: Seq<char>, i: int)
    requires
        first_alias_at(es, a, i),
    ensures
        routes_to(es, a) == Some(es[i].endpoint),
{
    assert(has_alias(es, a));
    let k = choose|k: int| first_alias_at(es, a, k);
    lemma_first_alias_unique(es, a, i, k);
}

impl<E> View for RoutingPool<E> {
    type V = Seq<PoolEntry<E>>;

    closed spec fn view(&self) -> Seq<PoolEntry<E>> {
        self.entries@
    }
}

impl<E> RoutingPool<E> {
    /// The pool is well formed: ids grow strictly in registration order, so
    /// no two entries share one.
    pub open spec fn wf(&self) -> bool {
        ids_increasing(self@)
    }

    /// An empty pool.
    pub fn new() -> (r: RoutingPool<E>)
        ensures
            r@ == Seq::<PoolEntry<E>>::empty(),
            r.wf(),
    {
        RoutingPool { entries: Vec::new() }
    }

    /// The number of entries.
    pub fn len(&self) -> (r: usize)
        ensures
            r == self@.len(),
    {
        self.entries.len()
    }

    /// Adds an entry under an id larger than every id in the pool.
    pub fn register(&mut self, id: u64, alias: String, endpoint: E)
        requires
            old(self).wf(),
            ids_below(old(self)@, id as int),
        ensures
            final(self)@ == old(self)@.push(new_entry(id, alias, endpoint)),
            final(self).wf(),
    {
        self.entries.push(PoolEntry { id, alias, endpoint });
    }

    /// The endpoint of the first entry registered under `alias`, if any.
    pub fn lookup(&self, alias: &String) -> (r: Option<&E>)
        ensures
            match r {
                Some(e) => routes_to(self@, alias@) == Some(*e),
                None => routes_to(self@, alias@) is None,
            },
    {
        let mut i: usize = 0;
        while i < self.entries.len()
            invariant
                i <= self@.len(),
                self@ == self.entries@,
                forall|j: int| 0 <= j < i ==> self@[j].alias@ != alias@,
            decreases self@.len() - i,
        {
            if self.entries[i].alias == *alias {
                proof {
                    lemma_routes_to_at(self@, alias@, i as int);
                }
                return Some(&self.entries[i].endpoint);
            }
            i += 1;
        }
        assert(!has_alias(self@, alias@)) by {
            if has_alias(self@, alias@) {
                let k = choose|k: int| first_alias_at(self@, alias@, k);
                assert(self@[k].alias@ == alias@);
            }
        }
        None
    }

    /// Removes the entry with the given id and hands it back; the other
    /// entries keep their order. `None`, and no change, when no entry has
    /// that id.
    pub fn remove(&mut self, id: u64) -> (r: Option<PoolEntry<E>>)
        requires
            old(self).wf(),
        ensures
            final(self).wf(),
            match r {
                Some(e) => exists|i: int|
                    0 <= i < old(self)@.len() && old(self)@[i].id == id && e == old(self)@[i]
                        && final(self)@ == old(self)@.remove(i),
                None => final(self)@ == old(self)@ && forall|i: int|
                    0 <= i < old(self)@.len() ==> old(self)@[i].id != id,
            },
    {
        let mut i: usize = 0;
        while i < self.entries.len()
            invariant
                i <= self@.len(),
                self@ == old(self)@,
                ids_increasing(old(self)@),
                forall|j: int| 0 <= j < i ==> self@[j].id != id,
            decreases self@.len() - i,
        {
            if self.entries[i].id == id {
                let e = self.entries.remove(i);
                assert forall|a: int, b: int|
                    0 <= a < b < self@.len() implies self@[a].id < self@[b].id by {
                    let oa = if a < i { a } else { a + 1 };
                    let ob = if b < i { b } else { b + 1 };
                    assert(self@[a] == old(self)@[oa]);
                    assert(self@[b] == old(self)@[ob]);
                }
                return Some(e);
            }
            i += 1;
        }
        None
    }
}

/// After a registration, a lookup of its alias finds the new endpoint unless
/// an entry registered earlier under that alias is still there; lookups of
/// every other alias are unchanged.
pub proof fn lemma_register_then_lookup<E>(
    es: Seq<PoolEntry<E>>,
    id: u64,
    alias: String,
    endpoint: E,
    other: Seq<char>,
)
    ensures
        routes_to(es.push(new_entry(id, alias, endpoint)), alias@) == if has_alias(es, alias@) {
            routes_to(es, alias@)
        } else {
            Some(endpoint)
        },
        other != alias@ ==> routes_to(es.push(new_entry(id, alias, endpoint)), other) == routes_to(
            es,
            other,
        ),
{
    let after = es.push(new_entry(id, alias, endpoint));
    if has_alias(es, alias@) {
        let k = choose|k: int| first_alias_at(es, alias@, k);
        assert(first_alias_at(after, alias@, k));
        lemma_routes_to_at(after, alias@, k);
        lemma_routes_to_at(es, alias@, k);
    } else {
        assert forall|j: int| 0 <= j < es.len() implies after[j].alias@ != alias@ by {
            if es[j].alias@ == alias@ {
                assert(first_alias_at(es, alias@, j)) by {
                    assert forall|l: int| 0 <= l < j implies es[l].alias@ != alias@ by {
                        if es[l].alias@ == alias@ {
                            lemma_no_alias_no_entry(es, alias@, l);
                        }
                    }
                }
            }
        }
        assert(first_alias_at(after, alias@, es.len() as int));
        lemma_routes_to_at(after, alias@, es.len() as int);
    }
    if other != alias@ {
        if has_alias(es, other) {
            let k = choose|k: int| first_alias_at(es, other, k);
            assert(first_alias_at(after, other, k));
            lemma_routes_to_at(after, other, k);
            lemma_routes_to_at(es, other, k);
        } else {
            assert(!has_alias(after, other)) by {
                if has_alias(after, other) {
                    let k = choose|k: int| first_alias_at(after, other, k);
                    assert(after[es.len() as int].alias@ == alias@);
                    assert(k < es.len());
                    assert forall|j: int| 0 <= j <= k implies after[j] == es[j] by {}
                    assert(first_alias_at(es, other, k));
                }
            }
        }
    }
}

/// Without any first entry under `a`, no entry at all carries `a`.
proof fn lemma_no_alias_no_entry<E>(es: Seq<PoolEntry<E>>, a: Seq<char>, i: int)
    requires
        !has_alias(es, a),
        0 <= i < es.len(),
    ensures
        es[i].alias@ != a,
    decreases i,
{
    if es[i].alias@ == a {
        assert forall|j: int| 0 <= j < i implies es[j].alias@ != a by {
            lemma_no_alias_no_entry(es, a, j);
        }
        assert(first_alias_at(es, a, i));
    }
}

/// Removing one entry leaves the lookup of every other alias unchanged.
pub proof fn lemma_remove_keeps_other_routes<E>(es: Seq<PoolEntry<E>>, i: int, a: Seq<char>)
    requires
        0 <= i < es.len(),
        es[i].alias@ != a,
    ensures
        routes_to(es.remove(i), a) == routes_to(es, a),
{
    let after = es.remove(i);
    if has_alias(es, a) {
        let k = choose|k: int| first_alias_at(es, a, k);
        let nk = if k < i { k } else { k - 1 };
        assert(k != i);
        assert(after[nk] == es[k]);
        assert forall|j: int| 0 <= j < nk implies after[j].alias@ != a by {
            let oj = if j < i { j } else { j + 1 };
            assert(after[j] == es[oj]);
        }
        assert(first_alias_at(after, a, nk));
        lemma_routes_to_at(after, a, nk);
        lemma_routes_to_at(es, a, k);
    } else {
        assert(!has_alias(after, a)) by {
            if has_alias(after, a) {
                let k = choose|k: int| first_alias_at(after, a, k);
                let ok = if k < i { k } else { k + 1 };
                assert(after[k] == es[ok]);
                lemma_no_alias_no_entry(es, a, ok);
            }
        }
    }
}

} // verus!

use vstd::prelude::*;
use dashmap::DashMap;
use crate::model::Namespace;

verus! {

/// The map behind `NamespaceStore`.
pub type NamespaceMap = DashMap<String, Namespace>;

/// What the namespace map holds, by namespace id.
pub uninterp spec fn namespace_entries(m: NamespaceMap) -> Map<Seq<char>, Namespace>;

/// Relies on DashMap::new: a new map is empty.
#[verifier::external_body]
fn namespace_map_new() -> (r: NamespaceMap)
    ensures
        namespace_entries(r).dom() == Set::<Seq<char>>::empty(),
{
    DashMap::new()
}

/// Relies on DashMap::insert: stores `v` under `k` and hands back the value it replaced.
#[verifier::external_body]
fn namespace_map_insert(m: &mut NamespaceMap, k: String, v: Namespace) -> (r: Option<Namespace>)
    ensures
        namespace_entries(*final(m)) == namespace_entries(*old(m)).insert(k@, v),
        r == (if namespace_entries(*old(m)).contains_key(k@) {
            Some(namespace_entries(*old(m))[k@])
        } else {
            None
        }),
{
    m.insert(k, v)
}

/// Relies on DashMap::get: the entry stored under `k`, if any, copied out.
#[verifier::external_body]
fn namespace_map_get(m: &NamespaceMap, k: &str) -> (r: Option<Namespace>)
    ensures
        r == (if namespace_entries(*m).contains_key(k@) {
            Some(namespace_entries(*m)[k@])
        } else {
            None
        }),
{
    m.get(k).map(|e| e.value().copied())
}

/// Relies on DashMap::remove: takes out the entry under `k` and hands back its value.
#[verifier::external_body]
fn namespace_map_remove(m: &mut NamespaceMap, k: &str) -> (r: Option<Namespace>)
    ensures
        namespace_entries(*final(m)) == namespace_entries(*old(m)).remove(k@),
        r == (if namespace_entries(*old(m)).contains_key(k@) {
            Some(namespace_entries(*old(m))[k@])
        } else {
            None
        }),
{
    m.remove(k).map(|e| e.1)
}

/// Relies on DashMap::iter: visits every entry once, in an unspecified order.
#[verifier::external_body]
fn namespace_map_entries(m: &NamespaceMap) -> (r: Vec<(String, Namespace)>)
    ensures
        forall|i: int| 0 <= i < r@.len() ==> {
            &&& namespace_entries(*m).contains_key((#[trigger] r@[i]).0@)
            &&& namespace_entries(*m)[r@[i].0@] == r@[i].1
        },
        forall|k: Seq<char>| #[trigger] namespace_entries(*m).contains_key(k)
            ==> exists|i: int| 0 <= i < r@.len() && r@[i].0@ == k,
        forall|i: int, j: int| 0 <= i < j < r@.len() ==> r@[i].0@ != r@[j].0@,
{
    m.iter().map(|e| (e.key().clone(), e.value().copied())).collect()
}

/// Namespace metadata, keyed by namespace id.
pub struct NamespaceStore {
    map: NamespaceMap,
}

impl View for NamespaceStore {
    type V = Map<Seq<char>, Namespace>;

    closed spec fn view(&self) -> Map<Seq<char>, Namespace> {
        namespace_entries(self.map)
    }
}

impl NamespaceStore {
    /// Every namespace is stored under its own id.
    pub open spec fn wf(&self) -> bool {
        forall|k: Seq<char>| #[trigger] self@.contains_key(k) ==> self@[k].id@ == k
    }

    pub fn new() -> (r: NamespaceStore)
        ensures
            r@ == Map::<Seq<char>, Namespace>::empty(),
            r.wf(),
    {
        NamespaceStore { map: namespace_map_new() }
    }

    /// Stores `ns` under its id, replacing any namespace with that id.
    pub fn create(&mut self, ns: Namespace)
        requires
            old(self).wf(),
        ensures
            final(self).wf(),
            final(self)@ == old(self)@.insert(ns.id@, ns),
    {
        let k = ns.id.clone();
        let _ = namespace_map_insert(&mut self.map, k, ns);
    }

    /// Replaces the namespace with the id of `ns`; returns whether one
    /// existed. The replacement is stored either way.
    pub fn update(&mut self, ns: Namespace) -> (r: bool)
        requires
            old(self).wf(),
        ensures
            final(self).wf(),
            r == old(self)@.contains_key(ns.id@),
            final(self)@ == old(self)@.insert(ns.id@, ns),
    {
        let k = ns.id.clone();
        let ghost id = ns.id@;
        let replaced = namespace_map_insert(&mut self.map, k, ns);
        proof {
            assert forall|j: Seq<char>| #[trigger] self@.contains_key(j) implies self@[j].id@ == j by {
                if j != id {
                    assert(old(self)@.contains_key(j));
                }
            }
        }
        replaced.is_some()
    }

    /// Removes the namespace `id`; returns whether it existed.
    pub fn delete(&mut self, id: &str) -> (r: bool)
        requires
            old(self).wf(),
        ensures
            final(self).wf(),
            r == old(self)@.contains_key(id@),
            final(self)@ == old(self)@.remove(id@),
    {
        let removed = namespace_map_remove(&mut self.map, id);
        proof {
            assert forall|j: Seq<char>| #[trigger] self@.contains_key(j) implies self@[j].id@ == j by {
                assert(old(self)@.contains_key(j));
            }
        }
        removed.is_some()
    }

    /// The namespace `id`, if it exists.
    pub fn get(&self, id: &str) -> (r: Option<Namespace>)
        ensures
            r == (if self@.contains_key(id@) {
                Some(self@[id@])
            } else {
                None
            }),
    {
        namespace_map_get(&self.map, id)
    }

    /// Every namespace once, in no particular order.
    pub fn list(&self) -> (r: Vec<Namespace>)
        requires
            self.wf(),
        ensures
            forall|i: int| 0 <= i < r@.len() ==> {
                &&& self@.contains_key((#[trigger] r@[i]).id@)
                &&& self@[r@[i].id@] == r@[i]
            },
            forall|k: Seq<char>| #[trigger] self@.contains_key(k) ==> exists|i: int|
                0 <= i < r@.len() && r@[i].id@ == k,
            forall|i: int, j: int| 0 <= i < j < r@.len() ==> r@[i].id@ != r@[j].id@,
    {
        let entries = namespace_map_entries(&self.map);
        let mut out: Vec<Namespace> = Vec::new();
        let mut i: usize = 0;
        while i < entries.len()
            invariant
                i <= entries.len(),
                self.wf(),
                forall|t: int| 0 <= t < entries@.len() ==> {
                    &&& self@.contains_key((#[trigger] entries@[t]).0@)
                    &&& self@[entries@[t].0@] == entries@[t].1
                },
                forall|a: int, b: int| 0 <= a < b < entries@.len() ==> entries@[a].0@ != entries@[b].0@,
                out@.len() == i,
                forall|t: int| 0 <= t < i ==> #[trigger] out@[t] == entries@[t].1,
            decreases entries.len() - i,
        {
            out.push(entries[i].1.copied());
            i = i + 1;
        }
        proof {
            assert forall|a: int, b: int| 0 <= a < b < out@.len() implies out@[a].id@
                != out@[b].id@ by {
                assert(out@[a] == entries@[a].1);
                assert(out@[b] == entries@[b].1);
                assert(entries@[a].0@ != entries@[b].0@);
            }
            assert forall|k: Seq<char>| #[trigger] self@.contains_key(k) implies exists|i: int|
                0 <= i < out@.len() && out@[i].id@ == k by {
                let u = choose|u: int| 0 <= u < entries@.len() && entries@[u].0@ == k;
                assert(out@[u] == entries@[u].1);
            }
        }
        out
    }
}

} // verus!

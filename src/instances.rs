use vstd::prelude::*;
use dashmap::DashMap;
use crate::clock::now_secs;
use crate::model::{Instance, InstanceId, ServiceName};

verus! {

/// An instance as the registry sees it.
pub struct InstanceView {
    pub id: Seq<char>,
    pub ip: Seq<char>,
    pub port: u16,
    pub service: Seq<char>,
    pub group: Seq<char>,
    pub cluster: Seq<char>,
    pub weight_bits: u64,
    pub healthy: bool,
    pub metadata: Seq<(Seq<char>, Seq<char>)>,
    pub last_beat_at: i64,
}

impl View for Instance {
    type V = InstanceView;

    open spec fn view(&self) -> InstanceView {
        InstanceView {
            id: self.id.0@,
            ip: self.ip@,
            port: self.port,
            service: self.service.0@,
            group: self.group@,
            cluster: self.cluster@,
            weight_bits: self.weight_bits,
            healthy: self.healthy,
            metadata: self.metadata@.map_values(|p: (String, String)| (p.0@, p.1@)),
            last_beat_at: self.last_beat_at,
        }
    }
}

/// The map behind `InstanceStore`.
pub type InstanceMap = DashMap<String, Instance>;

/// What the instance map holds, by instance id.
pub uninterp spec fn instance_entries(m: InstanceMap) -> Map<Seq<char>, InstanceView>;

/// Relies on DashMap::new: a new map is empty.
#[verifier::external_body]
fn instance_map_new() -> (r: InstanceMap)
    ensures
        instance_entries(r).dom() == Set::<Seq<char>>::empty(),
{
    DashMap::new()
}

/// Relies on DashMap::insert: stores `v` under `k`, replacing any earlier value.
#[verifier::external_body]
fn instance_map_insert(m: &mut InstanceMap, k: String, v: Instance)
    ensures
        instance_entries(*final(m)) == instance_entries(*old(m)).insert(k@, v@),
{
    m.insert(k, v);
}

/// Relies on DashMap::get: the entry stored under `k`, if any, copied out.
#[verifier::external_body]
fn instance_map_get(m: &InstanceMap, k: &String) -> (r: Option<Instance>)
    ensures
        r.is_some() == instance_entries(*m).contains_key(k@),
        r.is_some() ==> r.unwrap()@ == instance_entries(*m)[k@],
{
    m.get(k).map(|e| e.value().copied())
}

/// Relies on DashMap::remove: takes out the entry under `k` and hands back its value.
#[verifier::external_body]
fn instance_map_remove(m: &mut InstanceMap, k: &String) -> (r: Option<Instance>)
    ensures
        instance_entries(*final(m)) == instance_entries(*old(m)).remove(k@),
        r.is_some() == instance_entries(*old(m)).contains_key(k@),
        r.is_some() ==> r.unwrap()@ == instance_entries(*old(m))[k@],
{
    m.remove(k).map(|e| e.1)
}

/// Relies on DashMap::iter: visits every entry once, in an unspecified order.
#[verifier::external_body]
fn instance_map_entries(m: &InstanceMap) -> (r: Vec<(String, Instance)>)
    ensures
        forall|i: int| 0 <= i < r@.len() ==> {
            &&& instance_entries(*m).contains_key((#[trigger] r@[i]).0@)
            &&& instance_entries(*m)[r@[i].0@] == r@[i].1@
        },
        forall|k: Seq<char>| #[trigger] instance_entries(*m).contains_key(k)
            ==> exists|i: int| 0 <= i < r@.len() && r@[i].0@ == k,
        forall|i: int, j: int| 0 <= i < j < r@.len() ==> r@[i].0@ != r@[j].0@,
{
    m.iter().map(|e| (e.key().clone(), e.value().copied())).collect()
}

/// No two metadata entries share a key.
pub open spec fn keys_distinct(m: Seq<(Seq<char>, Seq<char>)>) -> bool {
    forall|i: int, j: int| 0 <= i < j < m.len() ==> m[i].0 != m[j].0
}

/// `v` after a heartbeat at `now`.
pub open spec fn beaten(v: InstanceView, now: i64) -> InstanceView {
    InstanceView { last_beat_at: now, healthy: true, ..v }
}

/// `v` is flagged healthy but its last heartbeat is more than `ttl` seconds
/// before `now`.
pub open spec fn is_stale(v: InstanceView, now: i64, ttl: i64) -> bool {
    v.healthy && now - v.last_beat_at > ttl
}

/// `v` after a sweep at `now`: stale instances are flagged unhealthy, and
/// nothing else changes.
pub open spec fn swept(v: InstanceView, now: i64, ttl: i64) -> InstanceView {
    if is_stale(v, now, ttl) {
        InstanceView { healthy: false, ..v }
    } else {
        v
    }
}

/// `v` passes the optional service filter.
pub open spec fn in_service(v: InstanceView, service: Option<Seq<char>>) -> bool {
    match service {
        Some(s) => v.service == s,
        None => true,
    }
}

/// The live instances, keyed by instance id.
pub struct InstanceStore {
    map: InstanceMap,
}

impl View for InstanceStore {
    type V = Map<Seq<char>, InstanceView>;

    closed spec fn view(&self) -> Map<Seq<char>, InstanceView> {
        instance_entries(self.map)
    }
}

impl InstanceStore {
    /// Every instance is stored under its own id, and its metadata names
    /// each key once.
    pub open spec fn wf(&self) -> bool {
        forall|k: Seq<char>| #[trigger] self@.contains_key(k) ==> self@[k].id == k && keys_distinct(
            self@[k].metadata,
        )
    }

    pub fn new() -> (r: InstanceStore)
        ensures
            r@ == Map::<Seq<char>, InstanceView>::empty(),
            r.wf(),
    {
        InstanceStore { map: instance_map_new() }
    }

    /// Stores `ins` under its id; an id already present is overwritten.
    pub fn register(&mut self, ins: Instance)
        requires
            old(self).wf(),
            keys_distinct(ins@.metadata),
        ensures
            final(self).wf(),
            final(self)@ == old(self)@.insert(ins.id.0@, ins@),
    {
        let k = ins.id.0.clone();
        let ghost v = ins@;
        instance_map_insert(&mut self.map, k, ins);
        proof {
            assert forall|j: Seq<char>| #[trigger] self@.contains_key(j) implies self@[j].id == j
                && keys_distinct(self@[j].metadata) by {
                if j != v.id {
                    assert(old(self)@.contains_key(j));
                }
            }
        }
    }

    /// Removes the instance `id`, whatever `service` says; returns whether it
    /// was present. Other instances are untouched.
    pub fn deregister(&mut self, service: &ServiceName, id: &InstanceId) -> (r: bool)
        requires
            old(self).wf(),
        ensures
            final(self).wf(),
            r == old(self)@.contains_key(id.0@),
            final(self)@ == old(self)@.remove(id.0@),
    {
        let removed = instance_map_remove(&mut self.map, &id.0);
        proof {
            assert forall|j: Seq<char>| #[trigger] self@.contains_key(j) implies self@[j].id == j
                && keys_distinct(self@[j].metadata) by {
                assert(old(self)@.contains_key(j));
            }
        }
        removed.is_some()
    }

    /// Records a heartbeat of `id` at `now` (healthy again); `service` is not
    /// checked. Returns whether the instance exists; an unknown id changes nothing.
    pub fn beat_at(&mut self, service: &ServiceName, id: &InstanceId, now: i64) -> (r: bool)
        requires
            old(self).wf(),
        ensures
            final(self).wf(),
            r == old(self)@.contains_key(id.0@),
            r ==> final(self)@ == old(self)@.insert(id.0@, beaten(old(self)@[id.0@], now)),
            !r ==> final(self)@ == old(self)@,
    {
        match instance_map_get(&self.map, &id.0) {
            Some(mut ins) => {
                ins.last_beat_at = now;
                ins.healthy = true;
                proof {
                    assert(ins@ == beaten(old(self)@[id.0@], now));
                }
                instance_map_insert(&mut self.map, id.0.clone(), ins);
                true
            },
            None => false,
        }
    }

    /// `beat_at` with the current wall-clock time.
    pub fn beat(&mut self, service: &ServiceName, id: &InstanceId) -> (r: bool)
        requires
            old(self).wf(),
        ensures
            final(self).wf(),
            r == old(self)@.contains_key(id.0@),
            r ==> exists|now: i64|
                final(self)@ == old(self)@.insert(id.0@, beaten(old(self)@[id.0@], now)),
            !r ==> final(self)@ == old(self)@,
    {
        let now = now_secs();
        self.beat_at(service, id, now)
    }

    /// One heartbeat sweep at `now`: every instance flagged healthy whose last
    /// heartbeat is more than `ttl` seconds old is flagged unhealthy. No
    /// instance is added or removed, and nothing else changes. The stale ids
    /// are collected from a snapshot first and then flagged one at a time.
    pub fn sweep_at(&mut self, now: i64, ttl: i64)
        requires
            old(self).wf(),
        ensures
            final(self).wf(),
            final(self)@.dom() == old(self)@.dom(),
            forall|k: Seq<char>| #[trigger] old(self)@.contains_key(k) ==> final(self)@[k] == swept(
                old(self)@[k],
                now,
                ttl,
            ),
    {
        let ghost m = self@;
        let entries = instance_map_entries(&self.map);
        let mut stale: Vec<String> = Vec::new();
        let mut i: usize = 0;
        while i < entries.len()
            invariant
                i <= entries.len(),
                m == self@,
                forall|t: int| 0 <= t < entries@.len() ==> {
                    &&& m.contains_key((#[trigger] entries@[t]).0@)
                    &&& m[entries@[t].0@] == entries@[t].1@
                },
                forall|k: Seq<char>| #[trigger] m.contains_key(k)
                    ==> exists|t: int| 0 <= t < entries@.len() && entries@[t].0@ == k,
                forall|t: int| 0 <= t < stale@.len() ==> {
                    &&& m.contains_key((#[trigger] stale@[t])@)
                    &&& is_stale(m[stale@[t]@], now, ttl)
                },
                forall|u: int| 0 <= u < i && is_stale((#[trigger] entries@[u]).1@, now, ttl)
                    ==> exists|t: int| 0 <= t < stale@.len() && stale@[t]@ == entries@[u].0@,
            decreases entries.len() - i,
        {
            let v = &entries[i].1;
            if v.healthy && (now as i128 - v.last_beat_at as i128) > ttl as i128 {
                let ghost before = stale@;
                stale.push(entries[i].0.clone());
                proof {
                    assert forall|u: int| 0 <= u < i + 1 && is_stale((#[trigger] entries@[u]).1@, now, ttl)
                        implies exists|t: int| 0 <= t < stale@.len() && stale@[t]@ == entries@[u].0@ by {
                        if u < i {
                            let t = choose|t: int| 0 <= t < before.len() && before[t]@ == entries@[u].0@;
                            assert(stale@[t] == before[t]);
                        } else {
                            assert(stale@[before.len() as int]@ == entries@[u].0@);
                        }
                    }
                }
            }
            i = i + 1;
        }
        let mut j: usize = 0;
        while j < stale.len()
            invariant
                j <= stale@.len(),
                self.wf(),
                self@.dom() == m.dom(),
                forall|t: int| 0 <= t < stale@.len() ==> {
                    &&& m.contains_key((#[trigger] stale@[t])@)
                    &&& is_stale(m[stale@[t]@], now, ttl)
                },
                forall|k: Seq<char>| #[trigger] m.contains_key(k) ==> (self@[k] == m[k] || self@[k]
                    == swept(m[k], now, ttl)),
                forall|t: int| 0 <= t < j ==> self@[(#[trigger] stale@[t])@] == swept(
                    m[stale@[t]@],
                    now,
                    ttl,
                ),
            decreases stale@.len() - j,
        {
            let ghost before = self@;
            match instance_map_get(&self.map, &stale[j]) {
                Some(mut ins) => {
                    ins.healthy = false;
                    proof {
                        assert(m.contains_key(stale@[j as int]@));
                        assert(ins@ == swept(m[stale@[j as int]@], now, ttl));
                    }
                    instance_map_insert(&mut self.map, stale[j].clone(), ins);
                    proof {
                        assert forall|k: Seq<char>| #[trigger] self@.contains_key(k) implies self@[k].id
                            == k by {
                            assert(before.contains_key(k));
                        }
                        assert(self@.dom() =~= m.dom());
                    }
                },
                None => {},
            }
            j = j + 1;
        }
        proof {
            assert forall|k: Seq<char>| #[trigger] m.contains_key(k) implies self@[k] == swept(
                m[k],
                now,
                ttl,
            ) by {
                if is_stale(m[k], now, ttl) {
                    let u = choose|u: int| 0 <= u < entries@.len() && entries@[u].0@ == k;
                    assert(is_stale(entries@[u].1@, now, ttl));
                    let t = choose|t: int| 0 <= t < stale@.len() && stale@[t]@ == entries@[u].0@;
                    assert(self@[stale@[t]@] == swept(m[stale@[t]@], now, ttl));
                } else {
                    assert(swept(m[k], now, ttl) == m[k]);
                }
            }
        }
    }

    /// All instances, or those of `service` when one is given, each once, in
    /// no particular order.
    pub fn list(&self, service: Option<&ServiceName>) -> (r: Vec<Instance>)
        requires
            self.wf(),
        ensures
            forall|i: int| 0 <= i < r@.len() ==> {
                &&& self@.contains_key((#[trigger] r@[i])@.id)
                &&& self@[r@[i]@.id] == r@[i]@
                &&& in_service(r@[i]@, service_view(service))
            },
            forall|k: Seq<char>| #[trigger] self@.contains_key(k) && in_service(self@[k], service_view(service))
                ==> exists|i: int| 0 <= i < r@.len() && r@[i]@.id == k,
            forall|i: int, j: int| 0 <= i < j < r@.len() ==> r@[i]@.id != r@[j]@.id,
    {
        let entries = instance_map_entries(&self.map);
        let ghost m = self@;
        let mut out: Vec<Instance> = Vec::new();
        let mut i: usize = 0;
        while i < entries.len()
            invariant
                i <= entries.len(),
                m == self@,
                self.wf(),
                forall|t: int| 0 <= t < entries@.len() ==> {
                    &&& m.contains_key((#[trigger] entries@[t]).0@)
                    &&& m[entries@[t].0@] == entries@[t].1@
                },
                forall|k: Seq<char>| #[trigger] m.contains_key(k)
                    ==> exists|t: int| 0 <= t < entries@.len() && entries@[t].0@ == k,
                forall|a: int, b: int| 0 <= a < b < entries@.len() ==> entries@[a].0@ != entries@[b].0@,
                forall|t: int| 0 <= t < out@.len() ==> {
                    &&& m.contains_key((#[trigger] out@[t])@.id)
                    &&& m[out@[t]@.id] == out@[t]@
                    &&& in_service(out@[t]@, service_view(service))
                    &&& exists|u: int| 0 <= u < i && entries@[u].0@ == out@[t]@.id
                },
                forall|u: int| 0 <= u < i && in_service((#[trigger] entries@[u]).1@, service_view(service))
                    ==> exists|t: int| 0 <= t < out@.len() && out@[t]@.id == entries@[u].0@,
                forall|a: int, b: int| 0 <= a < b < out@.len() ==> out@[a]@.id != out@[b]@.id,
            decreases entries.len() - i,
        {
            let keep = match service {
                Some(s) => entries[i].1.service.0 == s.0,
                None => true,
            };
            if keep {
                let ghost old_out = out@;
                proof {
                    assert(m.contains_key(entries@[i as int].0@));
                    assert forall|t: int| 0 <= t < old_out.len() implies old_out[t]@.id
                        != entries@[i as int].0@ by {
                        let u = choose|u: int| 0 <= u < i && entries@[u].0@ == old_out[t]@.id;
                    }
                }
                out.push(entries[i].1.copied());
                proof {
                    let n = out@[out@.len() - 1];
                    assert(n@ == entries@[i as int].1@);
                    assert forall|t: int| 0 <= t < out@.len() implies exists|u: int|
                        0 <= u < i + 1 && entries@[u].0@ == (#[trigger] out@[t])@.id by {
                        if t < old_out.len() {
                            assert(old_out[t] == out@[t]);
                        } else {
                            assert(entries@[i as int].0@ == out@[t]@.id);
                        }
                    }
                    assert forall|u: int| 0 <= u < i + 1 && in_service(
                        (#[trigger] entries@[u]).1@,
                        service_view(service),
                    ) implies exists|t: int| 0 <= t < out@.len() && out@[t]@.id == entries@[u].0@ by {
                        if u < i {
                            let t = choose|t: int| 0 <= t < old_out.len() && old_out[t]@.id == entries@[u].0@;
                            assert(out@[t] == old_out[t]);
                        } else {
                            assert(out@[old_out.len() as int]@.id == entries@[u].0@);
                        }
                    }
                }
            }
            i = i + 1;
        }
        proof {
            assert forall|k: Seq<char>| #[trigger] m.contains_key(k) && in_service(m[k], service_view(service))
                implies exists|t: int| 0 <= t < out@.len() && out@[t]@.id == k by {
                let u = choose|u: int| 0 <= u < entries@.len() && entries@[u].0@ == k;
                assert(in_service(entries@[u].1@, service_view(service)));
            }
        }
        out
    }
}

/// The view of an optional service filter.
pub open spec fn service_view(s: Option<&ServiceName>) -> Option<Seq<char>> {
    match s {
        Some(n) => Some(n.0@),
        None => None,
    }
}

} // verus!

use vstd::prelude::*;
use dashmap::DashMap;
use crate::codec::{key_of, key_seq, lemma_key_seq_injective};
use crate::listing::{enumerates, is_listing, listed, opt_view, sort_listing};
use crate::model::{ConfigItem, ConfigKey};
use crate::paging::{page_of, select_page};
use crate::text::str_contains;
use vstd::string::StringExecFns;

verus! {

broadcast use vstd::seq_lib::group_to_multiset_ensures;

/// The map behind `ConfigStore`.
pub type ConfigMap = DashMap<String, ConfigItem>;

/// What the configuration map holds, by key string.
pub uninterp spec fn config_entries(m: ConfigMap) -> Map<Seq<char>, ConfigItem>;

/// Relies on DashMap::new: a new map is empty.
#[verifier::external_body]
fn config_map_new() -> (r: ConfigMap)
    ensures
        config_entries(r).dom() == Set::<Seq<char>>::empty(),
{
    DashMap::new()
}

/// Relies on DashMap::get: the entry stored under `k`, if any, copied out.
#[verifier::external_body]
fn config_map_get(m: &ConfigMap, k: &String) -> (r: Option<ConfigItem>)
    ensures
        r == (if config_entries(*m).contains_key(k@) {
            Some(config_entries(*m)[k@])
        } else {
            None
        }),
{
    m.get(k).map(|e| e.value().copied())
}

/// Relies on DashMap::insert: stores `v` under `k`, replacing any earlier value.
#[verifier::external_body]
fn config_map_insert(m: &mut ConfigMap, k: String, v: ConfigItem)
    ensures
        config_entries(*final(m)) == config_entries(*old(m)).insert(k@, v),
{
    m.insert(k, v);
}

/// Relies on DashMap::remove: takes out the entry under `k` and hands back its value.
#[verifier::external_body]
fn config_map_remove(m: &mut ConfigMap, k: &String) -> (r: Option<ConfigItem>)
    ensures
        config_entries(*final(m)) == config_entries(*old(m)).remove(k@),
        r == (if config_entries(*old(m)).contains_key(k@) {
            Some(config_entries(*old(m))[k@])
        } else {
            None
        }),
{
    m.remove(k).map(|e| e.1)
}

/// Relies on DashMap::iter: visits every entry once, in an unspecified order.
#[verifier::external_body]
fn config_map_entries(m: &ConfigMap) -> (r: Vec<(String, ConfigItem)>)
    ensures
        forall|i: int| 0 <= i < r@.len() ==> {
            &&& config_entries(*m).contains_key((#[trigger] r@[i]).0@)
            &&& config_entries(*m)[r@[i].0@] == r@[i].1
        },
        forall|k: Seq<char>| #[trigger] config_entries(*m).contains_key(k)
            ==> exists|i: int| 0 <= i < r@.len() && r@[i].0@ == k,
        forall|i: int, j: int| 0 <= i < j < r@.len() ==> r@[i].0@ != r@[j].0@,
{
    m.iter().map(|e| (e.key().clone(), e.value().copied())).collect()
}

/// The current value of every configuration entry, keyed by its canonical key.
pub struct ConfigStore {
    map: ConfigMap,
}

impl View for ConfigStore {
    type V = Map<Seq<char>, ConfigItem>;

    closed spec fn view(&self) -> Map<Seq<char>, ConfigItem> {
        config_entries(self.map)
    }
}

impl ConfigStore {
    /// Every entry is stored under the canonical key of its own `ConfigKey`.
    pub open spec fn wf(&self) -> bool {
        forall|k: Seq<char>| #[trigger] self@.contains_key(k) ==> key_seq(self@[k].key) == k
    }

    pub fn new() -> (r: ConfigStore)
        ensures
            r@ == Map::<Seq<char>, ConfigItem>::empty(),
            r.wf(),
    {
        ConfigStore { map: config_map_new() }
    }

    /// The live item for `key`, if one exists; its own key names the same
    /// namespace, group and data id.
    pub fn get(&self, key: &ConfigKey) -> (r: Option<ConfigItem>)
        requires
            self.wf(),
        ensures
            r == (if self@.contains_key(key_seq(*key)) {
                Some(self@[key_seq(*key)])
            } else {
                None
            }),
            r.is_some() ==> r.unwrap().key.namespace@ == key.namespace@ && r.unwrap().key.group@
                == key.group@ && r.unwrap().key.data_id@ == key.data_id@,
    {
        let k = key_of(key);
        let r = config_map_get(&self.map, &k);
        proof {
            if r.is_some() {
                lemma_key_seq_injective(r.unwrap().key, *key);
            }
        }
        r
    }

    /// Stores `item` under its own key, replacing any earlier item (last writer wins).
    pub fn put(&mut self, item: ConfigItem)
        requires
            old(self).wf(),
        ensures
            final(self).wf(),
            final(self)@ == old(self)@.insert(key_seq(item.key), item),
    {
        let k = key_of(&item.key);
        config_map_insert(&mut self.map, k, item);
    }

    /// Removes the item for `key`; returns whether there was one.
    pub fn delete(&mut self, key: &ConfigKey) -> (r: bool)
        requires
            old(self).wf(),
        ensures
            final(self).wf(),
            r == old(self)@.contains_key(key_seq(*key)),
            final(self)@ == old(self)@.remove(key_seq(*key)),
    {
        let k = key_of(key);
        let removed = config_map_remove(&mut self.map, &k);
        removed.is_some()
    }

    /// Whether `item` is shown by a listing of `namespace` with `filter`.
    fn is_listed(item: &ConfigItem, namespace: &String, filter: Option<&str>) -> (r: bool)
        ensures
            r == listed(*item, namespace@, opt_view(filter)),
    {
        if item.key.namespace != *namespace {
            return false;
        }
        match filter {
            Some(f) => str_contains(item.key.data_id.as_str(), f),
            None => true,
        }
    }

    /// The items of `namespace` whose data id contains `filter` (when one is
    /// given), each once, in no particular order.
    pub fn matching(&self, namespace: &str, filter: Option<&str>) -> (r: Vec<ConfigItem>)
        requires
            self.wf(),
        ensures
            enumerates(self@, namespace@, opt_view(filter), r@),
    {
        let wanted = String::from_str(namespace);
        let entries = config_map_entries(&self.map);
        let ghost m = self@;
        let mut v: Vec<ConfigItem> = Vec::new();
        let mut i: usize = 0;
        while i < entries.len()
            invariant
                i <= entries.len(),
                wanted@ == namespace@,
                m == self@,
                self.wf(),
                forall|t: int| 0 <= t < entries@.len() ==> {
                    &&& m.contains_key((#[trigger] entries@[t]).0@)
                    &&& m[entries@[t].0@] == entries@[t].1
                },
                forall|k: Seq<char>| #[trigger] m.contains_key(k)
                    ==> exists|t: int| 0 <= t < entries@.len() && entries@[t].0@ == k,
                forall|a: int, b: int| 0 <= a < b < entries@.len() ==> entries@[a].0@ != entries@[b].0@,
                v@.no_duplicates(),
                forall|t: int| 0 <= t < v@.len() ==> {
                    &&& listed(#[trigger] v@[t], namespace@, opt_view(filter))
                    &&& m.contains_key(key_seq(v@[t].key))
                    &&& m[key_seq(v@[t].key)] == v@[t]
                    &&& exists|u: int| 0 <= u < i && entries@[u].0@ == key_seq(v@[t].key)
                },
                forall|u: int| 0 <= u < i && listed(#[trigger] entries@[u].1, namespace@, opt_view(filter))
                    ==> v@.contains(entries@[u].1),
            decreases entries.len() - i,
        {
            let item = &entries[i].1;
            if Self::is_listed(item, &wanted, filter) {
                let ghost old_v = v@;
                proof {
                    assert(m.contains_key(entries@[i as int].0@));
                    assert(key_seq(item.key) == entries@[i as int].0@);
                    assert forall|t: int| 0 <= t < old_v.len() implies old_v[t] != *item by {
                        if old_v[t] == *item {
                            let u = choose|u: int| 0 <= u < i && entries@[u].0@ == key_seq(old_v[t].key);
                            assert(entries@[u].0@ == entries@[i as int].0@);
                        }
                    }
                }
                v.push(item.copied());
                proof {
                    assert(v@ == old_v.push(entries@[i as int].1));
                    assert forall|a: int, b: int| 0 <= a < v@.len() && 0 <= b < v@.len() && a != b
                        implies v@[a] != v@[b] by {
                        if a < old_v.len() && b < old_v.len() {
                            assert(old_v[a] != old_v[b]);
                        }
                    }
                    assert forall|t: int| 0 <= t < v@.len() implies exists|u: int|
                        0 <= u < i + 1 && entries@[u].0@ == key_seq(#[trigger] v@[t].key) by {
                        if t < old_v.len() {
                            assert(old_v[t] == v@[t]);
                        } else {
                            assert(entries@[i as int].0@ == key_seq(v@[t].key));
                        }
                    }
                    assert forall|u: int| 0 <= u < i + 1 && listed(#[trigger] entries@[u].1, namespace@, opt_view(filter))
                        implies v@.contains(entries@[u].1) by {
                        if u < i {
                            assert(old_v.contains(entries@[u].1));
                            let t = choose|t: int| 0 <= t < old_v.len() && old_v[t] == entries@[u].1;
                            assert(v@[t] == entries@[u].1);
                        } else {
                            assert(v@[old_v.len() as int] == entries@[u].1);
                        }
                    }
                }
            }
            i = i + 1;
        }
        proof {
            assert forall|k: Seq<char>| #[trigger] m.contains_key(k) && listed(m[k], namespace@, opt_view(filter))
                implies v@.contains(m[k]) by {
                let u = choose|u: int| 0 <= u < entries@.len() && entries@[u].0@ == k;
                assert(listed(entries@[u].1, namespace@, opt_view(filter)));
            }
        }
        v
    }

    /// Lists the items of `namespace` (those whose data id contains `filter`,
    /// when one is given), most recently updated first and ties by key, and
    /// returns the total count together with the 1-indexed `page` of `size`
    /// items.
    pub fn list(&self, namespace: &str, page: u32, size: u32, filter: Option<&str>) -> (r: (
        usize,
        Vec<ConfigItem>,
    ))
        requires
            self.wf(),
        ensures
            exists|all: Seq<ConfigItem>|
                {
                    &&& is_listing(self@, namespace@, opt_view(filter), all)
                    &&& r.0 == all.len()
                    &&& r.1@ == page_of(all, page as int, size as int)
                },
    {
        let v = self.matching(namespace, filter);
        let ghost m = self@;
        let ghost unsorted = v@;
        let sorted = sort_listing(v);
        proof {
            unsorted.lemma_multiset_has_no_duplicates();
            sorted@.lemma_multiset_has_no_duplicates_conv();
            assert forall|t: int| 0 <= t < sorted@.len() implies {
                &&& listed(#[trigger] sorted@[t], namespace@, opt_view(filter))
                &&& m.contains_key(key_seq(sorted@[t].key))
                &&& m[key_seq(sorted@[t].key)] == sorted@[t]
            } by {
                assert(sorted@.to_multiset().count(sorted@[t]) > 0);
                assert(unsorted.contains(sorted@[t]));
            }
            assert forall|k: Seq<char>| #[trigger] m.contains_key(k) && listed(m[k], namespace@, opt_view(filter))
                implies sorted@.contains(m[k]) by {
                assert(unsorted.contains(m[k]));
                assert(unsorted.to_multiset().count(m[k]) > 0);
            }
            assert(is_listing(m, namespace@, opt_view(filter), sorted@));
        }
        let total = sorted.len();
        let items = select_page(sorted, page, size);
        (total, items)
    }
}

} // verus!

use vstd::prelude::*;
use dashmap::DashMap;
use crate::codec::{key_of, key_seq};
use crate::model::{ConfigHistoryItem, ConfigKey};

verus! {

/// The map behind `ConfigHistoryStore`.
pub type HistoryMap = DashMap<String, Vec<ConfigHistoryItem>>;

/// What the history map holds: the records of each key, oldest first.
pub uninterp spec fn history_entries(m: HistoryMap) -> Map<Seq<char>, Seq<ConfigHistoryItem>>;

/// Copies a list of history records, keeping their order.
pub fn copy_records(v: &Vec<ConfigHistoryItem>) -> (r: Vec<ConfigHistoryItem>)
    ensures
        r@ == v@,
{
    let mut r: Vec<ConfigHistoryItem> = Vec::new();
    let mut i: usize = 0;
    while i < v.len()
        invariant
            i <= v.len(),
            r@ == v@.subrange(0, i as int),
        decreases v.len() - i,
    {
        r.push(v[i].copied());
        proof {
            assert(v@.subrange(0, i as int + 1) =~= v@.subrange(0, i as int).push(v@[i as int]));
        }
        i = i + 1;
    }
    proof {
        assert(v@.subrange(0, v@.len() as int) =~= v@);
    }
    r
}

/// Relies on DashMap::new: a new map is empty.
#[verifier::external_body]
fn history_map_new() -> (r: HistoryMap)
    ensures
        history_entries(r).dom() == Set::<Seq<char>>::empty(),
{
    DashMap::new()
}

/// Relies on DashMap::entry, Entry::or_default and Vec::push: the record is
/// added at the end of the list under `k`, which starts empty.
#[verifier::external_body]
fn history_map_push(m: &mut HistoryMap, k: String, item: ConfigHistoryItem)
    ensures
        history_entries(*final(m)) == history_entries(*old(m)).insert(
            k@,
            (if history_entries(*old(m)).contains_key(k@) {
                history_entries(*old(m))[k@]
            } else {
                Seq::empty()
            }).push(item),
        ),
{
    m.entry(k).or_default().push(item);
}

/// Relies on DashMap::get: the list stored under `k`, if any, copied out.
#[verifier::external_body]
fn history_map_get(m: &HistoryMap, k: &String) -> (r: Option<Vec<ConfigHistoryItem>>)
    ensures
        r.is_some() == history_entries(*m).contains_key(k@),
        r.is_some() ==> r.unwrap()@ == history_entries(*m)[k@],
{
    m.get(k).map(|e| copy_records(e.value()))
}

/// The records of `k` in `m`, oldest first; none for a key never written.
pub open spec fn records_of(m: Map<Seq<char>, Seq<ConfigHistoryItem>>, k: Seq<char>) -> Seq<
    ConfigHistoryItem,
> {
    if m.contains_key(k) {
        m[k]
    } else {
        Seq::empty()
    }
}

/// The append-only ledger of configuration snapshots, per canonical key.
pub struct ConfigHistoryStore {
    map: HistoryMap,
}

impl View for ConfigHistoryStore {
    type V = Map<Seq<char>, Seq<ConfigHistoryItem>>;

    closed spec fn view(&self) -> Map<Seq<char>, Seq<ConfigHistoryItem>> {
        history_entries(self.map)
    }
}

impl ConfigHistoryStore {
    pub fn new() -> (r: ConfigHistoryStore)
        ensures
            forall|k: Seq<char>| records_of(r@, k) == Seq::<ConfigHistoryItem>::empty(),
    {
        ConfigHistoryStore { map: history_map_new() }
    }

    /// Adds `item` after the earlier records of its key; other keys are untouched.
    pub fn append(&mut self, item: ConfigHistoryItem)
        ensures
            records_of(final(self)@, key_seq(item.key)) == records_of(
                old(self)@,
                key_seq(item.key),
            ).push(item),
            forall|k: Seq<char>| k != key_seq(item.key) ==> records_of(final(self)@, k)
                == records_of(old(self)@, k),
    {
        let k = key_of(&item.key);
        history_map_push(&mut self.map, k, item);
    }

    /// All records of `key`, oldest first.
    pub fn list(&self, key: &ConfigKey) -> (r: Vec<ConfigHistoryItem>)
        ensures
            r@ == records_of(self@, key_seq(*key)),
    {
        let k = key_of(key);
        match history_map_get(&self.map, &k) {
            Some(v) => v,
            None => Vec::new(),
        }
    }
}

} // verus!

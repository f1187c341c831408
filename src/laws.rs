use vstd::prelude::*;
use crate::codec::key_seq;
use crate::config_store::ConfigStore;
use crate::history::{records_of, ConfigHistoryStore};
use crate::instances::{beaten, swept, InstanceStore};
use crate::listing::{is_listing, lemma_listing_unique};
use crate::model::{ConfigHistoryItem, ConfigItem, ConfigKey};
use crate::paging::{concat_pages, lemma_pages_reassemble, page_count, page_of};
use crate::notify::{offered, ChangeEvent, SseHub, Topic};
use crate::usecase::{first_version_index, has_version, publish_effect};

verus! {

/// Round trip: after a publish of `content` under `key`, the store holds an
/// item for `key` (which `get` returns) with exactly that content.
pub proof fn lemma_publish_then_get(
    store0: ConfigStore,
    store1: ConfigStore,
    hist0: ConfigHistoryStore,
    hist1: ConfigHistoryStore,
    hub0: SseHub,
    hub1: SseHub,
    key: ConfigKey,
    content: String,
    format: Option<String>,
    actor: Option<String>,
    now: i64,
)
    requires
        publish_effect(store0, store1, hist0, hist1, hub0, hub1, key, content, format, actor, now),
    ensures
        store1@.contains_key(key_seq(key)),
        store1@[key_seq(key)].content == content,
{
}

/// Versions never go down from one record to the next.
pub open spec fn versions_nondecreasing(s: Seq<ConfigHistoryItem>) -> bool {
    forall|i: int, j: int| 0 <= i < j < s.len() ==> s[i].version_ts <= s[j].version_ts
}

/// `after` is `before` with one record of version `t` appended.
pub open spec fn appended_at(before: Seq<ConfigHistoryItem>, after: Seq<ConfigHistoryItem>, t: i64) -> bool {
    &&& after.len() == before.len() + 1
    &&& after.drop_last() == before
    &&& after.last().version_ts == t
}

/// A publish appends exactly one record, whose version is the publish time,
/// to the history of its key.
pub proof fn lemma_publish_appends(
    store0: ConfigStore,
    store1: ConfigStore,
    hist0: ConfigHistoryStore,
    hist1: ConfigHistoryStore,
    hub0: SseHub,
    hub1: SseHub,
    key: ConfigKey,
    content: String,
    format: Option<String>,
    actor: Option<String>,
    now: i64,
)
    requires
        publish_effect(store0, store1, hist0, hist1, hub0, hub1, key, content, format, actor, now),
    ensures
        appended_at(records_of(hist0@, key_seq(key)), records_of(hist1@, key_seq(key)), now),
{
    assert(records_of(hist1@, key_seq(key)).drop_last() =~= records_of(hist0@, key_seq(key)));
}

/// History growth: `recs[0]` is the history of a key before any publish and
/// `recs[i + 1]` is `recs[i]` after a publish at `times[i]` (one record with
/// that version appended). When the publish times do not go down and start
/// no earlier than the last recorded version, the history ends with at least
/// one record per publish, versions non-decreasing in append order.
pub proof fn lemma_history_monotone(recs: Seq<Seq<ConfigHistoryItem>>, times: Seq<i64>)
    requires
        recs.len() == times.len() + 1,
        versions_nondecreasing(recs[0]),
        recs[0].len() > 0 && times.len() > 0 ==> recs[0].last().version_ts <= times[0],
        forall|i: int, j: int| 0 <= i < j < times.len() ==> times[i] <= times[j],
        forall|i: int| 0 <= i < times.len() ==> #[trigger] appended_at(recs[i], recs[i + 1], times[i]),
    ensures
        recs.last().len() >= times.len(),
        versions_nondecreasing(recs.last()),
{
    lemma_history_prefix(recs, times, times.len() as int);
}

proof fn lemma_history_prefix(recs: Seq<Seq<ConfigHistoryItem>>, times: Seq<i64>, n: int)
    requires
        recs.len() == times.len() + 1,
        0 <= n <= times.len(),
        versions_nondecreasing(recs[0]),
        recs[0].len() > 0 && times.len() > 0 ==> recs[0].last().version_ts <= times[0],
        forall|i: int, j: int| 0 <= i < j < times.len() ==> times[i] <= times[j],
        forall|i: int| 0 <= i < times.len() ==> #[trigger] appended_at(recs[i], recs[i + 1], times[i]),
    ensures
        recs[n].len() == recs[0].len() + n,
        versions_nondecreasing(recs[n]),
        n < times.len() ==> forall|k: int| 0 <= k < recs[n].len() ==> recs[n][k].version_ts <= times[n],
    decreases n,
{
    if n == 0 {
        if times.len() > 0 {
            assert forall|k: int| 0 <= k < recs[0].len() implies recs[0][k].version_ts <= times[0] by {
                assert(recs[0][k].version_ts <= recs[0].last().version_ts);
            }
        }
    } else {
        let m = n - 1;
        lemma_history_prefix(recs, times, m);
        assert(appended_at(recs[m], recs[m + 1], times[m]));
        assert(recs[m + 1] == recs[n]);
        let before = recs[m];
        let after = recs[n];
        assert forall|k: int| 0 <= k < before.len() implies after[k] == before[k] by {
            assert(after.drop_last()[k] == after[k]);
        }
        assert forall|i: int, j: int| 0 <= i < j < after.len() implies after[i].version_ts
            <= after[j].version_ts by {
            if j < before.len() {
            } else {
                assert(after[j].version_ts == times[m]);
            }
        }
        if n < times.len() {
            assert forall|k: int| 0 <= k < after.len() implies after[k].version_ts <= times[n] by {
                assert(times[m] <= times[n]);
            }
        }
    }
}

/// Rollback: publish A at `t1`, then B at `t2`, then roll back to version
/// `t1` (the rollback republishes the oldest record with that version).
/// When no earlier record of the key carries version `t1` and `t2 != t1`,
/// the version is found and the live item holds A again.
pub proof fn lemma_rollback_restores(
    s0: ConfigStore,
    s1: ConfigStore,
    s2: ConfigStore,
    s3: ConfigStore,
    h0: ConfigHistoryStore,
    h1: ConfigHistoryStore,
    h2: ConfigHistoryStore,
    h3: ConfigHistoryStore,
    n0: SseHub,
    n1: SseHub,
    n2: SseHub,
    n3: SseHub,
    key: ConfigKey,
    a: String,
    fa: Option<String>,
    b: String,
    fb: Option<String>,
    actor: Option<String>,
    t1: i64,
    t2: i64,
    t3: i64,
)
    requires
        publish_effect(s0, s1, h0, h1, n0, n1, key, a, fa, actor, t1),
        publish_effect(s1, s2, h1, h2, n1, n2, key, b, fb, actor, t2),
        !has_version(records_of(h0@, key_seq(key)), t1),
        t2 != t1,
        ({
            let recs = records_of(h2@, key_seq(key));
            has_version(recs, t1) ==> publish_effect(
                s2,
                s3,
                h2,
                h3,
                n2,
                n3,
                key,
                recs[first_version_index(recs, t1)].content,
                recs[first_version_index(recs, t1)].format,
                actor,
                t3,
            )
        }),
    ensures
        has_version(records_of(h2@, key_seq(key)), t1),
        s3@[key_seq(key)].content == a,
        s3@[key_seq(key)].format == fa,
{
    let ks = key_seq(key);
    let r0 = records_of(h0@, ks);
    let recs = records_of(h2@, ks);
    let p = r0.len() as int;
    assert(recs[p].version_ts == t1);
    assert(has_version(recs, t1));
    let f = first_version_index(recs, t1);
    if f < p {
        assert(recs[f] == r0[f]);
    } else if f > p {
        assert(recs[p].version_ts == t1);
    }
    assert(f == p);
}

/// Heartbeat expiry: an instance flagged healthy whose last heartbeat is more
/// than `ttl` seconds before `now` is unhealthy after a sweep at `now`, and
/// healthy again after a later heartbeat.
pub proof fn lemma_ttl_expiry(
    s1: InstanceStore,
    s2: InstanceStore,
    s3: InstanceStore,
    id: Seq<char>,
    now: i64,
    ttl: i64,
    beat_at: i64,
)
    requires
        s1@.contains_key(id),
        s1@[id].healthy,
        now - s1@[id].last_beat_at > ttl,
        s2@.dom() == s1@.dom(),
        forall|k: Seq<char>| #[trigger] s1@.contains_key(k) ==> s2@[k] == swept(s1@[k], now, ttl),
        s3@ == s2@.insert(id, beaten(s2@[id], beat_at)),
    ensures
        s2@.contains_key(id),
        !s2@[id].healthy,
        s3@[id].healthy,
        s3@[id].last_beat_at == beat_at,
{
    assert(s2@[id] == swept(s1@[id], now, ttl));
}

/// Deregistering an id that is not registered reports `false` and leaves
/// every instance as it was.
pub proof fn lemma_deregister_absent(s0: InstanceStore, s1: InstanceStore, id: Seq<char>, r: bool)
    requires
        !s0@.contains_key(id),
        r == s0@.contains_key(id),
        s1@ == s0@.remove(id),
    ensures
        !r,
        s1@ == s0@,
{
    assert(s1@ =~= s0@);
}

/// Notification: after a publish to `key`, each subscriber of the `config`
/// topic of an open hub has the event for `key` as its newest pending event,
/// exactly one event more than before when its queue had room (else its
/// oldest was dropped); subscribers of `instance` receive nothing.
pub proof fn lemma_config_subscriber_notified(hub0: SseHub, hub1: SseHub, key: ConfigKey, i: int)
    requires
        SseHub::broadcast(hub0, hub1, ChangeEvent::spec_config(key)),
        !hub0.closed,
        0 <= i < hub0.subscribers@.len(),
    ensures
        hub0.subscribers@[i].topic == Topic::Config ==> {
            let q0 = hub0.subscribers@[i].queue@;
            let q1 = hub1.subscribers@[i].queue@;
            &&& q1.last() == ChangeEvent::spec_config(key)
            &&& q0.len() < hub0.capacity ==> q1 == q0.push(ChangeEvent::spec_config(key))
            &&& q0.len() >= hub0.capacity ==> q1 == q0.drop_first().push(ChangeEvent::spec_config(key))
        },
        hub0.subscribers@[i].topic == Topic::Instance ==> hub1.subscribers@[i].queue@
            == hub0.subscribers@[i].queue@,
{
    let o = hub0.subscribers@[i];
    if o.topic == Topic::Config {
        assert(hub1.subscribers@[i].queue@ == offered(
            o.queue@,
            hub0.capacity as nat,
            ChangeEvent::spec_config(key),
        ));
    }
}

/// Pages `1..=n`, page `p` taken from its own listing `lists[p - 1]`, laid
/// end to end.
pub open spec fn pages_joined(lists: Seq<Seq<ConfigItem>>, size: int, n: nat) -> Seq<ConfigItem>
    decreases n,
{
    if n == 0 || n > lists.len() {
        Seq::empty()
    } else {
        pages_joined(lists, size, (n - 1) as nat) + page_of(lists[n - 1], n as int, size)
    }
}

proof fn lemma_pages_joined_same(lists: Seq<Seq<ConfigItem>>, all: Seq<ConfigItem>, size: int, n: nat)
    requires
        n <= lists.len(),
        forall|i: int| 0 <= i < lists.len() ==> lists[i] == all,
    ensures
        pages_joined(lists, size, n) == concat_pages(all, size, n),
    decreases n,
{
    if n > 0 {
        lemma_pages_joined_same(lists, all, size, (n - 1) as nat);
    }
}

/// Paging across calls: when page `p` of `1..=pages` comes from its own call
/// of the listing on the same unchanged store (with the same namespace and
/// filter), every page holds at most `size` items and the pages laid end to
/// end give the whole listing, each matching item exactly once.
pub proof fn lemma_separate_pages_reassemble(
    m: Map<Seq<char>, ConfigItem>,
    namespace: Seq<char>,
    filter: Option<Seq<char>>,
    all: Seq<ConfigItem>,
    lists: Seq<Seq<ConfigItem>>,
    size: int,
)
    requires
        size > 0,
        is_listing(m, namespace, filter, all),
        lists.len() == page_count(all.len() as int, size),
        forall|i: int| 0 <= i < lists.len() ==> is_listing(m, namespace, filter, #[trigger] lists[i]),
    ensures
        forall|i: int| 0 <= i < lists.len() ==> (#[trigger] page_of(lists[i], i + 1, size)).len()
            <= size,
        pages_joined(lists, size, lists.len()) == all,
        all.no_duplicates(),
{
    assert forall|i: int| 0 <= i < lists.len() implies lists[i] == all by {
        lemma_listing_unique(m, namespace, filter, lists[i], all);
    }
    lemma_pages_reassemble(all, size);
    lemma_pages_joined_same(lists, all, size, lists.len());
    assert forall|i: int| 0 <= i < lists.len() implies (#[trigger] page_of(lists[i], i + 1, size)).len()
        <= size by {
        assert(lists[i] == all);
        assert(page_of(all, i + 1, size).len() <= size);
    }
}

} // verus!

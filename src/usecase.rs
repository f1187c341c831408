use vstd::prelude::*;
use crate::clock::now_secs;
use crate::codec::key_seq;
use crate::config_store::ConfigStore;
use crate::history::{records_of, ConfigHistoryStore};
use crate::model::{copy_opt, ConfigHistoryItem, ConfigItem, ConfigKey};
use crate::notify::Notifier;

verus! {

/// The live item that a publish at `now` writes.
pub open spec fn published_item(
    key: ConfigKey,
    content: String,
    format: Option<String>,
    actor: Option<String>,
    now: i64,
) -> ConfigItem {
    ConfigItem { key, content, format, updated_at: now, updated_by: actor, version_ts: now }
}

/// The history record that a publish at `now` appends: the resulting item's
/// content and format, under version `now`.
pub open spec fn published_record(
    key: ConfigKey,
    content: String,
    format: Option<String>,
    actor: Option<String>,
    now: i64,
) -> ConfigHistoryItem {
    ConfigHistoryItem { key, content, format, version_ts: now, deleted: false, updated_at: now, actor }
}

/// The effect of one publish of `content` under `key` by `actor` at `now`:
/// the item is replaced wholesale, one record of the result is appended to
/// the history of `key` (and to no other), and the change of `key` is
/// announced through the notifier (for `SseHub`: a `config` event offered to
/// every subscriber of that topic; for `Silent`: nothing).
pub open spec fn publish_effect<N: Notifier>(
    store0: ConfigStore,
    store1: ConfigStore,
    hist0: ConfigHistoryStore,
    hist1: ConfigHistoryStore,
    hub0: N,
    hub1: N,
    key: ConfigKey,
    content: String,
    format: Option<String>,
    actor: Option<String>,
    now: i64,
) -> bool {
    &&& store1.wf()
    &&& hub1.ready()
    &&& store1@ == store0@.insert(key_seq(key), published_item(key, content, format, actor, now))
    &&& records_of(hist1@, key_seq(key)) == records_of(hist0@, key_seq(key)).push(
        published_record(key, content, format, actor, now),
    )
    &&& forall|k: Seq<char>| k != key_seq(key) ==> records_of(hist1@, k) == records_of(hist0@, k)
    &&& N::config_sent(hub0, hub1, key)
}

/// Some record of `s` carries version `v`.
pub open spec fn has_version(s: Seq<ConfigHistoryItem>, v: i64) -> bool {
    exists|i: int| 0 <= i < s.len() && s[i].version_ts == v
}

/// Index of the oldest record of `s` with version `v` (meaningful when one exists).
pub open spec fn first_version_index(s: Seq<ConfigHistoryItem>, v: i64) -> int {
    choose|i: int|
        0 <= i < s.len() && s[i].version_ts == v && forall|j: int| 0 <= j < i ==> s[j].version_ts != v
}

/// The publish-with-history use case: writes the new value, records it in
/// the ledger, then announces the change.
pub struct PublishConfig;

impl PublishConfig {
    /// Publishes `content` under `key` at time `now`: the item is replaced
    /// wholesale, exactly one history record of the result is appended, and
    /// after the store write the change is announced through `notifier`
    /// (`Silent` when none is attached).
    pub fn exec_at<N: Notifier>(
        store: &mut ConfigStore,
        history: &mut ConfigHistoryStore,
        notifier: &mut N,
        key: ConfigKey,
        content: String,
        format: Option<String>,
        actor: Option<String>,
        now: i64,
    )
        requires
            old(store).wf(),
            old(notifier).ready(),
        ensures
            publish_effect(
                *old(store),
                *final(store),
                *old(history),
                *final(history),
                *old(notifier),
                *final(notifier),
                key,
                content,
                format,
                actor,
                now,
            ),
    {
        let record = ConfigHistoryItem {
            key: key.copied(),
            content: content.clone(),
            format: copy_opt(&format),
            version_ts: now,
            deleted: false,
            updated_at: now,
            actor: copy_opt(&actor),
        };
        let announced = key.copied();
        let item = ConfigItem {
            key,
            content,
            format,
            updated_at: now,
            updated_by: actor,
            version_ts: now,
        };
        store.put(item);
        history.append(record);
        notifier.notify_config_change(&announced);
    }

    /// `exec_at` with the current wall-clock time.
    pub fn exec<N: Notifier>(
        store: &mut ConfigStore,
        history: &mut ConfigHistoryStore,
        notifier: &mut N,
        key: ConfigKey,
        content: String,
        format: Option<String>,
        actor: Option<String>,
    )
        requires
            old(store).wf(),
            old(notifier).ready(),
        ensures
            exists|now: i64|
                publish_effect(
                    *old(store),
                    *final(store),
                    *old(history),
                    *final(history),
                    *old(notifier),
                    *final(notifier),
                    key,
                    content,
                    format,
                    actor,
                    now,
                ),
    {
        let now = now_secs();
        Self::exec_at(store, history, notifier, key, content, format, actor, now);
    }

    /// Republishes, at time `now`, the content and format of the oldest
    /// history record of `key` with version `version`. Returns `false`, and
    /// changes nothing, when no record of `key` has that version.
    pub fn rollback_at<N: Notifier>(
        store: &mut ConfigStore,
        history: &mut ConfigHistoryStore,
        notifier: &mut N,
        key: ConfigKey,
        version: i64,
        actor: Option<String>,
        now: i64,
    ) -> (r: bool)
        requires
            old(store).wf(),
            old(notifier).ready(),
        ensures
            final(store).wf(),
            final(notifier).ready(),
            r == has_version(records_of(old(history)@, key_seq(key)), version),
            !r ==> *final(store) == *old(store) && *final(history) == *old(history) && *final(notifier)
                == *old(notifier),
            r ==> {
                let recs = records_of(old(history)@, key_seq(key));
                let rec = recs[first_version_index(recs, version)];
                publish_effect(
                    *old(store),
                    *final(store),
                    *old(history),
                    *final(history),
                    *old(notifier),
                    *final(notifier),
                    key,
                    rec.content,
                    rec.format,
                    actor,
                    now,
                )
            },
    {
        let recs = history.list(&key);
        let mut i: usize = 0;
        while i < recs.len()
            invariant
                i <= recs@.len(),
                recs@ == records_of(history@, key_seq(key)),
                *store == *old(store),
                *history == *old(history),
                *notifier == *old(notifier),
                store.wf(),
                notifier.ready(),
                forall|j: int| 0 <= j < i ==> recs@[j].version_ts != version,
            decreases recs@.len() - i,
        {
            if recs[i].version_ts == version {
                proof {
                    let f = first_version_index(recs@, version);
                    assert(has_version(recs@, version));
                    if f < i as int {
                    } else if f > i as int {
                        assert(recs@[i as int].version_ts != version);
                    }
                    assert(f == i as int);
                }
                let content = recs[i].content.clone();
                let format = copy_opt(&recs[i].format);
                Self::exec_at(store, history, notifier, key, content, format, actor, now);
                return true;
            }
            i = i + 1;
        }
        false
    }
}

} // verus!

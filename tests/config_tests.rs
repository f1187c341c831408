use rustacos::api::{AppCtx, ImportItem};
use rustacos::codec::key_of;
use rustacos::config_store::ConfigStore;
use rustacos::history::ConfigHistoryStore;
use rustacos::model::{ConfigItem, ConfigKey};
use rustacos::notify::{Silent, SseHub};
use rustacos::usecase::PublishConfig;

fn s(x: &str) -> String {
    x.to_string()
}

fn key(ns: &str, group: &str, data_id: &str) -> ConfigKey {
    ConfigKey::new(s(ns), s(group), s(data_id))
}

#[test]
fn key_joins_escaped_parts() {
    assert_eq!(key_of(&key("public", "DEFAULT_GROUP", "app.yml")), "public+|DEFAULT_GROUP+|app.yml");
    assert_eq!(key_of(&key("a+b", "c", "d")), "a++b+|c+|d");
    assert_ne!(key_of(&key("a+b", "c", "d")), key_of(&key("a", "b+c", "d")));
    assert_ne!(key_of(&key("a+", "|b", "c")), key_of(&key("a", "+|b", "c")));
}

#[test]
fn keys_differing_only_in_plus_placement_stay_apart() {
    let mut ctx = AppCtx::new();
    ctx.publish_config(s("d"), s("c"), s("first"), Some(s("a+b")), None, 1);
    ctx.publish_config(s("d"), s("b+c"), s("second"), Some(s("a")), None, 2);
    let one = ctx.get_config(s("d"), Some(s("c")), Some(s("a+b"))).unwrap();
    assert_eq!(one.content, "first");
    assert_eq!(one.namespace, "a+b");
    let two = ctx.get_config(s("d"), Some(s("b+c")), Some(s("a"))).unwrap();
    assert_eq!(two.content, "second");
    assert_eq!(two.group, "b+c");
}

#[test]
fn publish_then_get_returns_content() {
    let mut ctx = AppCtx::new();
    assert!(ctx.publish_config(s("app.yml"), s("DEFAULT_GROUP"), s("port: 80"), None, Some(s("yaml")), 50));
    let got = ctx.get_config(s("app.yml"), None, None).unwrap();
    assert_eq!(got.content, "port: 80");
    assert_eq!(got.namespace, "public");
    assert_eq!(got.group, "DEFAULT_GROUP");
    assert_eq!(got.update_time, 50);
    let item = ctx.stores.configs.get(&key("public", "DEFAULT_GROUP", "app.yml")).unwrap();
    assert_eq!(item.format.as_deref(), Some("yaml"));
    assert_eq!(item.updated_by.as_deref(), Some("admin"));
    assert_eq!(item.version_ts, 50);
}

#[test]
fn get_of_unknown_key_is_none() {
    let ctx = AppCtx::new();
    assert!(ctx.get_config(s("missing"), None, None).is_none());
}

#[test]
fn publish_replaces_item_wholesale() {
    let mut store = ConfigStore::new();
    let mut hist = ConfigHistoryStore::new();
    let mut hub = SseHub::new();
    let k = key("dev", "g", "d");
    PublishConfig::exec_at(&mut store, &mut hist, &mut hub, k.clone(), s("one"), Some(s("yaml")), Some(s("alice")), 10);
    PublishConfig::exec_at(&mut store, &mut hist, &mut hub, k.clone(), s("two"), None, None, 20);
    let item = store.get(&k).unwrap();
    assert_eq!(item.content, "two");
    assert_eq!(item.format, None);
    assert_eq!(item.updated_by, None);
    assert_eq!(item.updated_at, 20);
}

#[test]
fn each_publish_appends_one_record_with_true_format() {
    let mut store = ConfigStore::new();
    let mut hist = ConfigHistoryStore::new();
    let mut hub = SseHub::new();
    let k = key("dev", "g", "d");
    PublishConfig::exec_at(&mut store, &mut hist, &mut hub, k.clone(), s("one"), Some(s("yaml")), None, 10);
    PublishConfig::exec_at(&mut store, &mut hist, &mut hub, k.clone(), s("two"), Some(s("json")), None, 20);
    let recs = hist.list(&k);
    assert_eq!(recs.len(), 2);
    assert_eq!(recs[0].content, "one");
    assert_eq!(recs[0].format.as_deref(), Some("yaml"));
    assert_eq!(recs[0].version_ts, 10);
    assert_eq!(recs[1].content, "two");
    assert_eq!(recs[1].format.as_deref(), Some("json"));
    assert_eq!(recs[1].version_ts, 20);
    assert!(!recs[1].deleted);
    assert!(hist.list(&key("dev", "g", "other")).is_empty());
}

#[test]
fn history_versions_non_decreasing_after_publishes() {
    let mut ctx = AppCtx::new();
    let times = [5i64, 5, 7, 9, 9, 12];
    for (i, t) in times.iter().enumerate() {
        ctx.publish_config(s("h.yml"), s("G"), format!("v{}", i), Some(s("ns")), None, *t);
    }
    let recs = ctx.stores.histories.list(&key("ns", "G", "h.yml"));
    assert!(recs.len() >= times.len());
    for w in recs.windows(2) {
        assert!(w[0].version_ts <= w[1].version_ts);
    }
}

#[test]
fn publish_with_clock_stamps_a_current_time() {
    let mut store = ConfigStore::new();
    let mut hist = ConfigHistoryStore::new();
    let mut hub = SseHub::new();
    let k = key("dev", "g", "clock");
    PublishConfig::exec(&mut store, &mut hist, &mut hub, k.clone(), s("x"), None, None);
    let item = store.get(&k).unwrap();
    assert!(item.updated_at > 1_600_000_000);
    assert_eq!(item.updated_at, item.version_ts);
}

#[test]
fn scenario_publish_twice_then_rollback() {
    let mut ctx = AppCtx::new();
    ctx.publish_config(s("app.yml"), s("DEFAULT_GROUP"), s("a: 1"), Some(s("public")), None, 1000);
    ctx.publish_config(s("app.yml"), s("DEFAULT_GROUP"), s("a: 2"), Some(s("public")), None, 1001);
    let hist = ctx.list_history(s("app.yml"), s("DEFAULT_GROUP"), s("public"));
    assert!(hist.len() >= 2);
    assert_eq!(ctx.get_config(s("app.yml"), Some(s("DEFAULT_GROUP")), Some(s("public"))).unwrap().content, "a: 2");
    let version = hist.iter().find(|h| h.content == "a: 1").unwrap().version;
    assert!(ctx.rollback_config(s("app.yml"), s("DEFAULT_GROUP"), s("public"), version, 1002));
    assert_eq!(ctx.get_config(s("app.yml"), Some(s("DEFAULT_GROUP")), Some(s("public"))).unwrap().content, "a: 1");
}

#[test]
fn rollback_within_one_second_takes_oldest_record() {
    let mut ctx = AppCtx::new();
    ctx.publish_config(s("app.yml"), s("G"), s("a: 1"), None, None, 1000);
    ctx.publish_config(s("app.yml"), s("G"), s("a: 2"), None, None, 1000);
    assert!(ctx.rollback_config(s("app.yml"), s("G"), s("public"), 1000, 1000));
    assert_eq!(ctx.get_config(s("app.yml"), Some(s("G")), None).unwrap().content, "a: 1");
}

#[test]
fn rollback_to_unknown_version_changes_nothing() {
    let mut ctx = AppCtx::new();
    ctx.publish_config(s("app.yml"), s("G"), s("a: 1"), None, None, 1000);
    assert!(!ctx.rollback_config(s("app.yml"), s("G"), s("public"), 999, 1001));
    assert_eq!(ctx.get_config(s("app.yml"), Some(s("G")), None).unwrap().content, "a: 1");
    assert_eq!(ctx.list_history(s("app.yml"), s("G"), s("public")).len(), 1);
}

#[test]
fn history_listed_newest_version_first() {
    let mut ctx = AppCtx::new();
    ctx.publish_config(s("d"), s("G"), s("first"), None, None, 10);
    ctx.publish_config(s("d"), s("G"), s("second"), None, None, 30);
    ctx.publish_config(s("d"), s("G"), s("third"), None, None, 20);
    let hist = ctx.list_history(s("d"), s("G"), s("public"));
    let versions: Vec<i64> = hist.iter().map(|h| h.version).collect();
    assert_eq!(versions, vec![30, 20, 10]);
    assert_eq!(hist[0].content, "second");
}

#[test]
fn delete_config_reports_presence() {
    let mut ctx = AppCtx::new();
    ctx.publish_config(s("d"), s("G"), s("x"), None, None, 1);
    assert!(ctx.delete_config(s("d"), Some(s("G")), None));
    assert!(ctx.get_config(s("d"), Some(s("G")), None).is_none());
    assert!(!ctx.delete_config(s("d"), Some(s("G")), None));
    assert_eq!(ctx.list_history(s("d"), s("G"), s("public")).len(), 1);
}

#[test]
fn store_put_and_delete() {
    let mut store = ConfigStore::new();
    let k = key("n", "g", "d");
    let item = ConfigItem {
        key: k.clone(),
        content: s("c"),
        format: None,
        updated_at: 3,
        updated_by: None,
        version_ts: 3,
    };
    store.put(item);
    assert_eq!(store.get(&k).unwrap().content, "c");
    assert!(store.delete(&k));
    assert!(!store.delete(&k));
    assert!(store.get(&k).is_none());
}

#[test]
fn import_publishes_in_order_and_export_filters_namespace() {
    let mut ctx = AppCtx::new();
    let items = vec![
        ImportItem { data_id: s("a"), group: s("G"), namespace: s("dev"), content: s("1"), format: None },
        ImportItem { data_id: s("b"), group: s("G"), namespace: s("prod"), content: s("2"), format: Some(s("yaml")) },
        ImportItem { data_id: s("a"), group: s("G"), namespace: s("dev"), content: s("3"), format: None },
    ];
    assert!(ctx.import_configs(items, 77));
    assert_eq!(ctx.get_config(s("a"), Some(s("G")), Some(s("dev"))).unwrap().content, "3");
    assert_eq!(ctx.get_config(s("b"), Some(s("G")), Some(s("prod"))).unwrap().content, "2");
    let dev = ctx.export_configs(s("dev"));
    assert_eq!(dev.len(), 1);
    assert_eq!(dev[0].data_id, "a");
    assert_eq!(ctx.export_configs(s("none")).len(), 0);
}

#[test]
fn publish_without_notifier_still_writes_and_records() {
    let mut store = ConfigStore::new();
    let mut hist = ConfigHistoryStore::new();
    let mut none = Silent;
    let k = key("dev", "g", "quiet");
    PublishConfig::exec_at(&mut store, &mut hist, &mut none, k.clone(), s("v"), None, None, 5);
    assert_eq!(store.get(&k).unwrap().content, "v");
    assert_eq!(hist.list(&k).len(), 1);
    assert!(PublishConfig::rollback_at(&mut store, &mut hist, &mut none, k.clone(), 5, None, 6));
    assert!(!PublishConfig::rollback_at(&mut store, &mut hist, &mut none, k.clone(), 99, None, 7));
    assert_eq!(hist.list(&k).len(), 2);
}

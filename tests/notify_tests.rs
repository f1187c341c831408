use rustacos::api::AppCtx;
use rustacos::model::{ConfigKey, ServiceName};
use rustacos::notify::{ChangeEvent, Delivery, Notifier, SseHub, Topic};

fn s(x: &str) -> String {
    x.to_string()
}

#[test]
fn config_subscriber_gets_one_matching_event() {
    let mut ctx = AppCtx::new();
    let cfg = ctx.notifier.subscribe(Topic::Config).unwrap();
    let ins = ctx.notifier.subscribe(Topic::Instance).unwrap();
    ctx.publish_config(s("app.yml"), s("G"), s("x"), Some(s("dev")), None, 1);
    match ctx.notifier.poll(cfg) {
        Delivery::Event(ChangeEvent::Config { namespace, group, data_id }) => {
            assert_eq!(namespace, "dev");
            assert_eq!(group, "G");
            assert_eq!(data_id, "app.yml");
        },
        other => panic!("unexpected {:?}", other),
    }
    assert!(matches!(ctx.notifier.poll(cfg), Delivery::Idle));
    assert!(matches!(ctx.notifier.poll(ins), Delivery::Idle));
}

#[test]
fn late_subscriber_sees_no_replay() {
    let mut hub = SseHub::new();
    hub.notify_config_change(&ConfigKey::new(s("a"), s("b"), s("c")));
    let id = hub.subscribe(Topic::Config).unwrap();
    assert!(matches!(hub.poll(id), Delivery::Idle));
}

#[test]
fn instance_changes_reach_instance_topic() {
    let mut hub = SseHub::new();
    let id = hub.subscribe(Topic::Instance).unwrap();
    assert_eq!(hub.publish(ChangeEvent::instance(&ServiceName(s("orders")))), 1);
    hub.notify_instance_change(&ServiceName(s("pay")));
    match hub.poll(id) {
        Delivery::Event(ChangeEvent::Instance { service_name }) => assert_eq!(service_name, "orders"),
        other => panic!("unexpected {:?}", other),
    }
    match hub.poll(id) {
        Delivery::Event(ChangeEvent::Instance { service_name }) => assert_eq!(service_name, "pay"),
        other => panic!("unexpected {:?}", other),
    }
}

#[test]
fn slow_subscriber_lags_and_keeps_newest() {
    let mut hub = SseHub::with_capacity(2);
    let id = hub.subscribe(Topic::Config).unwrap();
    for name in ["one", "two", "three"] {
        hub.notify_config_change(&ConfigKey::new(s("n"), s("g"), s(name)));
    }
    assert!(matches!(hub.poll(id), Delivery::Lagged(1)));
    match hub.poll(id) {
        Delivery::Event(ChangeEvent::Config { data_id, .. }) => assert_eq!(data_id, "two"),
        other => panic!("unexpected {:?}", other),
    }
    match hub.poll(id) {
        Delivery::Event(ChangeEvent::Config { data_id, .. }) => assert_eq!(data_id, "three"),
        other => panic!("unexpected {:?}", other),
    }
    assert!(matches!(hub.poll(id), Delivery::Idle));
}

#[test]
fn close_drains_then_ends() {
    let mut hub = SseHub::new();
    let id = hub.subscribe(Topic::Config).unwrap();
    hub.notify_config_change(&ConfigKey::new(s("n"), s("g"), s("d")));
    hub.close();
    assert_eq!(hub.publish(ChangeEvent::config(&ConfigKey::new(s("n"), s("g"), s("e")))), 0);
    assert!(matches!(hub.poll(id), Delivery::Event(_)));
    assert!(matches!(hub.poll(id), Delivery::Closed));
}

#[test]
fn unsubscribe_releases_only_that_slot() {
    let mut hub = SseHub::new();
    let a = hub.subscribe(Topic::Config).unwrap();
    let b = hub.subscribe(Topic::Config).unwrap();
    assert_ne!(a, b);
    assert!(hub.unsubscribe(a));
    assert!(!hub.unsubscribe(a));
    assert_eq!(hub.publish(ChangeEvent::config(&ConfigKey::new(s("n"), s("g"), s("d")))), 1);
    assert!(matches!(hub.poll(a), Delivery::Closed));
    assert!(matches!(hub.poll(b), Delivery::Event(_)));
}

#[test]
fn notifier_trait_reaches_only_its_topic() {
    let mut hub = SseHub::new();
    let cfg = hub.subscribe(Topic::Config).unwrap();
    let ins = hub.subscribe(Topic::Instance).unwrap();
    hub.notify_config_change(&ConfigKey::new(s("n"), s("g"), s("d")));
    assert!(matches!(hub.poll(ins), Delivery::Idle));
    match hub.poll(cfg) {
        Delivery::Event(ChangeEvent::Config { namespace, group, data_id }) => {
            assert_eq!((namespace.as_str(), group.as_str(), data_id.as_str()), ("n", "g", "d"));
        },
        other => panic!("unexpected {:?}", other),
    }
    assert!(matches!(hub.poll(cfg), Delivery::Idle));
}

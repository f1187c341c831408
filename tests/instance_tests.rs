use rustacos::api::{AppCtx, RegisterInstanceRequest, DEFAULT_WEIGHT_BITS};
use rustacos::instances::InstanceStore;
use rustacos::model::{Instance, InstanceId, ServiceName};
use rustacos::sweeper::{HeartbeatSweeper, SchedulerPort, DEFAULT_SWEEP_INTERVAL_SECS, DEFAULT_TTL_SECS};

fn s(x: &str) -> String {
    x.to_string()
}

fn request(ip: &str, port: u16, service: &str) -> RegisterInstanceRequest {
    RegisterInstanceRequest {
        ip: s(ip),
        port,
        service_name: s(service),
        group_name: None,
        cluster_name: None,
        weight_bits: None,
        metadata: None,
    }
}

#[test]
fn scenario_register_expire_and_beat() {
    let mut ctx = AppCtx::new();
    let id = ctx.register_instance(request("10.0.0.1", 8080, "orders"), 1000);
    let listed = ctx.list_instances(Some(s("orders")));
    assert_eq!(listed.len(), 1);
    assert_eq!(listed[0].id.0, id);
    assert!(listed[0].healthy);
    let sweeper = HeartbeatSweeper::new();
    sweeper.tick_at(&mut ctx.stores.instances, 1000 + DEFAULT_TTL_SECS + 1);
    let listed = ctx.list_instances(Some(s("orders")));
    assert_eq!(listed.len(), 1);
    assert!(!listed[0].healthy);
    assert!(ctx.beat_instance(s("orders"), id.clone(), 1040));
    let listed = ctx.list_instances(Some(s("orders")));
    assert!(listed[0].healthy);
    assert_eq!(listed[0].last_beat_at, 1040);
}

#[test]
fn register_fills_defaults_and_fresh_id() {
    let mut ctx = AppCtx::new();
    let id = ctx.register_instance(request("10.0.0.2", 9000, "pay"), 5);
    assert_eq!(id.len(), 36);
    let other = ctx.register_instance(request("10.0.0.3", 9000, "pay"), 5);
    assert_ne!(id, other);
    let all = ctx.list_instances(None);
    assert_eq!(all.len(), 2);
    let mine = all.iter().find(|i| i.id.0 == id).unwrap();
    assert_eq!(mine.group, "DEFAULT_GROUP");
    assert_eq!(mine.cluster, "DEFAULT");
    assert_eq!(mine.weight_bits, 1.0f64.to_bits());
    assert_eq!(mine.weight_bits, DEFAULT_WEIGHT_BITS);
    assert!(mine.metadata.is_empty());
    assert_eq!(mine.last_beat_at, 5);
}

#[test]
fn register_keeps_given_fields() {
    let mut ctx = AppCtx::new();
    let req = RegisterInstanceRequest {
        ip: s("1.2.3.4"),
        port: 1,
        service_name: s("svc"),
        group_name: Some(s("grp")),
        cluster_name: Some(s("east")),
        weight_bits: Some(2.5f64.to_bits()),
        metadata: Some(vec![(s("zone"), s("a"))]),
    };
    let id = ctx.register_instance_with_id(s("fixed"), req, 9);
    assert_eq!(id, "fixed");
    let got = &ctx.list_instances(Some(s("svc")))[0];
    assert_eq!(got.group, "grp");
    assert_eq!(got.cluster, "east");
    assert_eq!(f64::from_bits(got.weight_bits), 2.5);
    assert_eq!(got.metadata, vec![(s("zone"), s("a"))]);
}

#[test]
fn heartbeat_before_ttl_keeps_healthy() {
    let mut ctx = AppCtx::new();
    let id = ctx.register_instance(request("10.0.0.1", 1, "a"), 100);
    let sweeper = HeartbeatSweeper::with_settings(Some(30), Some(5));
    assert_eq!(sweeper.sweep_interval_secs, 5);
    sweeper.tick_at(&mut ctx.stores.instances, 130);
    assert!(ctx.list_instances(None)[0].healthy);
    sweeper.schedule_heartbeat_cleanup(&mut ctx.stores.instances, 131);
    assert!(!ctx.list_instances(None)[0].healthy);
    assert!(ctx.beat_instance(s("a"), id, 140));
    assert!(ctx.list_instances(None)[0].healthy);
}

#[test]
fn sweeper_defaults() {
    let sw = HeartbeatSweeper::new();
    assert_eq!(sw.ttl_secs, 30);
    assert_eq!(sw.sweep_interval_secs, 10);
    assert_eq!(DEFAULT_SWEEP_INTERVAL_SECS, 10);
}

#[test]
fn deregister_unknown_id_is_false_and_harmless() {
    let mut ctx = AppCtx::new();
    let id = ctx.register_instance(request("10.0.0.1", 1, "a"), 100);
    assert!(!ctx.deregister_instance(s("a"), s("no-such-id")));
    assert_eq!(ctx.list_instances(None).len(), 1);
    assert!(ctx.deregister_instance(s("wrong-service"), id.clone()));
    assert!(ctx.list_instances(None).is_empty());
    assert!(!ctx.deregister_instance(s("a"), id));
}

#[test]
fn beat_unknown_id_is_false() {
    let mut ctx = AppCtx::new();
    assert!(!ctx.beat_instance(s("a"), s("ghost"), 1));
    assert!(ctx.list_instances(None).is_empty());
}

#[test]
fn store_beat_with_clock() {
    let mut store = InstanceStore::new();
    let ins = Instance {
        id: InstanceId(s("i1")),
        ip: s("h"),
        port: 1,
        service: ServiceName(s("svc")),
        group: s("g"),
        cluster: s("c"),
        weight_bits: 0,
        healthy: false,
        metadata: Vec::new(),
        last_beat_at: 0,
    };
    store.register(ins);
    assert!(store.beat(&ServiceName(s("svc")), &InstanceId(s("i1"))));
    let got = &store.list(None)[0];
    assert!(got.healthy);
    assert!(got.last_beat_at > 1_600_000_000);
}

#[test]
fn list_services_is_distinct() {
    let mut ctx = AppCtx::new();
    ctx.register_instance(request("1", 1, "a"), 1);
    ctx.register_instance(request("2", 1, "b"), 1);
    ctx.register_instance(request("3", 1, "a"), 1);
    let mut names = ctx.list_services();
    names.sort();
    assert_eq!(names, vec![s("a"), s("b")]);
    assert_eq!(ctx.list_instances(Some(s("a"))).len(), 2);
    assert!(ctx.list_instances(Some(s("c"))).is_empty());
}

use rustacos::api::{to_namespace_dto, AppCtx};
use rustacos::client::{ApiClient, ApiResponse};
use rustacos::model::Namespace;

fn s(x: &str) -> String {
    x.to_string()
}

#[test]
fn public_namespace_cannot_be_deleted() {
    let mut ctx = AppCtx::new();
    assert!(!ctx.delete_namespace(s("public")));
    ctx.create_namespace(s("public"), s("Public"), None, 1);
    assert!(!ctx.delete_namespace(s("public")));
    assert_eq!(ctx.list_namespaces().len(), 1);
}

#[test]
fn create_update_delete_namespace() {
    let mut ctx = AppCtx::new();
    assert!(ctx.create_namespace(s("dev"), s("Dev"), None, 10));
    let l = ctx.list_namespaces();
    assert_eq!(l.len(), 1);
    assert_eq!(l[0].namespace, "dev");
    assert_eq!(l[0].namespace_desc, "");
    assert_eq!(l[0].quota, 0);
    assert_eq!(l[0].create_time, 10);
    assert!(ctx.update_namespace(s("dev"), s("Development"), Some(s("d")), Some(5), 20));
    let n = ctx.stores.namespaces.get("dev").unwrap();
    assert_eq!(n.show_name, "Development");
    assert_eq!(n.desc, "d");
    assert_eq!(n.quota, 5);
    assert_eq!(n.created_at, 10);
    assert_eq!(n.updated_at, 20);
    assert!(ctx.update_namespace(s("dev"), s("Dev2"), None, None, 30));
    let n = ctx.stores.namespaces.get("dev").unwrap();
    assert_eq!(n.desc, "d");
    assert_eq!(n.quota, 5);
    assert!(ctx.delete_namespace(s("dev")));
    assert!(!ctx.delete_namespace(s("dev")));
}

#[test]
fn update_of_missing_namespace_is_false() {
    let mut ctx = AppCtx::new();
    assert!(!ctx.update_namespace(s("nope"), s("x"), None, None, 1));
    assert!(ctx.list_namespaces().is_empty());
}

#[test]
fn namespace_dto_fields() {
    let n = Namespace { id: s("a"), show_name: s("A"), desc: s("d"), quota: 3, created_at: 1, updated_at: 2 };
    let d = to_namespace_dto(n);
    assert_eq!(d.namespace, "a");
    assert_eq!(d.namespace_show_name, "A");
    assert_eq!(d.namespace_desc, "d");
    assert_eq!(d.quota, 3);
    assert_eq!(d.create_time, 1);
    assert_eq!(d.update_time, 2);
}

#[test]
fn client_urls_and_responses() {
    let c = ApiClient::new();
    assert_eq!(c.url("/ns/instance/beat"), "/nacos/v1/ns/instance/beat");
    let ok = ApiResponse::success(true, 7);
    assert_eq!(ok.code, 200);
    assert_eq!(ok.message, "success");
    assert_eq!(ok.data, Some(true));
    let err: ApiResponse<bool> = ApiResponse::error(404, s("version not found"), 8);
    assert_eq!(err.code, 404);
    assert!(err.data.is_none());
}

#[test]
fn bootstrap_holds_only_public() {
    let mut ctx = AppCtx::bootstrap(42);
    let l = ctx.list_namespaces();
    assert_eq!(l.len(), 1);
    assert_eq!(l[0].namespace, "public");
    assert_eq!(l[0].namespace_show_name, "Public Namespace");
    assert_eq!(l[0].namespace_desc, "Default namespace");
    assert_eq!(l[0].create_time, 42);
    assert!(!ctx.delete_namespace(s("public")));
    assert_eq!(ctx.list_namespaces().len(), 1);
}

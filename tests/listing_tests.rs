use rustacos::api::AppCtx;
use rustacos::paging::{pages_for, select_page};

fn s(x: &str) -> String {
    x.to_string()
}

fn filled() -> AppCtx {
    let mut ctx = AppCtx::new();
    let names = ["a.yml", "b.yml", "c.yml", "d.yml", "e.yml"];
    for (i, n) in names.iter().enumerate() {
        ctx.publish_config(s(n), s("G"), format!("c{}", i), Some(s("public")), None, 100 + i as i64);
    }
    ctx.publish_config(s("other.yml"), s("G"), s("x"), Some(s("dev")), None, 500);
    ctx
}

#[test]
fn list_pages_newest_first() {
    let ctx = filled();
    let r = ctx.list_configs(s("public"), Some(1), Some(2), None);
    assert_eq!(r.total_count, 5);
    assert_eq!(r.pages, 3);
    assert_eq!(r.page_number, 1);
    assert_eq!(r.page_size, 2);
    let ids: Vec<String> = r.data.iter().map(|d| d.data_id.clone()).collect();
    assert_eq!(ids, vec![s("e.yml"), s("d.yml")]);
}

#[test]
fn pages_reassemble_the_listing() {
    let ctx = filled();
    let first = ctx.list_configs(s("public"), Some(1), Some(2), None);
    let mut all: Vec<String> = Vec::new();
    for p in 1..=first.pages as u32 {
        let page = ctx.list_configs(s("public"), Some(p), Some(2), None);
        assert!(page.data.len() <= 2);
        all.extend(page.data.iter().map(|d| d.data_id.clone()));
    }
    assert_eq!(all, vec![s("e.yml"), s("d.yml"), s("c.yml"), s("b.yml"), s("a.yml")]);
}

#[test]
fn list_defaults_and_page_past_end() {
    let ctx = filled();
    let r = ctx.list_configs(s("public"), None, None, None);
    assert_eq!(r.page_number, 1);
    assert_eq!(r.page_size, 10);
    assert_eq!(r.pages, 1);
    assert_eq!(r.data.len(), 5);
    let past = ctx.list_configs(s("public"), Some(9), Some(2), None);
    assert_eq!(past.total_count, 5);
    assert!(past.data.is_empty());
}

#[test]
fn page_size_zero_gives_no_pages() {
    let ctx = filled();
    let r = ctx.list_configs(s("public"), Some(1), Some(0), None);
    assert_eq!(r.total_count, 5);
    assert_eq!(r.pages, 0);
    assert!(r.data.is_empty());
}

#[test]
fn page_zero_reads_as_first_page() {
    let ctx = filled();
    let r = ctx.list_configs(s("public"), Some(0), Some(2), None);
    let ids: Vec<String> = r.data.iter().map(|d| d.data_id.clone()).collect();
    assert_eq!(ids, vec![s("e.yml"), s("d.yml")]);
}

#[test]
fn search_is_case_sensitive_substring() {
    let mut ctx = AppCtx::new();
    ctx.publish_config(s("app.yml"), s("G"), s("1"), None, None, 1);
    ctx.publish_config(s("db.yml"), s("G"), s("2"), None, None, 2);
    ctx.publish_config(s("myapp.json"), s("G"), s("3"), None, None, 3);
    let r = ctx.list_configs(s("public"), None, None, Some(s("app")));
    let ids: Vec<String> = r.data.iter().map(|d| d.data_id.clone()).collect();
    assert_eq!(ids, vec![s("myapp.json"), s("app.yml")]);
    assert_eq!(r.total_count, 2);
    let none = ctx.list_configs(s("public"), None, None, Some(s("APP")));
    assert_eq!(none.total_count, 0);
    let empty = ctx.list_configs(s("public"), None, None, Some(s("")));
    assert_eq!(empty.total_count, 3);
}

#[test]
fn list_of_empty_namespace() {
    let ctx = filled();
    let r = ctx.list_configs(s("nothing"), None, None, None);
    assert_eq!(r.total_count, 0);
    assert_eq!(r.pages, 0);
    assert!(r.data.is_empty());
}

#[test]
fn page_arithmetic() {
    assert_eq!(pages_for(0, 10), 0);
    assert_eq!(pages_for(10, 10), 1);
    assert_eq!(pages_for(11, 10), 2);
    assert_eq!(pages_for(5, 0), 0);
    assert_eq!(pages_for(usize::MAX, 1), usize::MAX as u64);
    assert_eq!(select_page(vec![1, 2, 3, 4, 5], 2, 2), vec![3, 4]);
    assert_eq!(select_page(vec![1, 2, 3, 4, 5], 3, 2), vec![5]);
    assert_eq!(select_page(vec![1, 2, 3], 1, u32::MAX), vec![1, 2, 3]);
    assert_eq!(select_page(vec![1, 2, 3], u32::MAX, u32::MAX), Vec::<i32>::new());
}

#[test]
fn equal_times_listed_by_key_across_pages() {
    let mut ctx = AppCtx::new();
    for n in ["c.yml", "a.yml", "d.yml", "b.yml"] {
        ctx.publish_config(s(n), s("G"), s("x"), None, None, 7);
    }
    let mut all: Vec<String> = Vec::new();
    for p in 1..=4u32 {
        let page = ctx.list_configs(s("public"), Some(p), Some(1), None);
        all.extend(page.data.iter().map(|d| d.data_id.clone()));
    }
    assert_eq!(all, vec![s("a.yml"), s("b.yml"), s("c.yml"), s("d.yml")]);
}

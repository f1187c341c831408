use vstd::prelude::*;
use vstd::string::StringExecFns;

verus! {

/// Namespace metadata as a console client receives it.
#[derive(Debug, Clone)]
pub struct Namespace {
    pub namespace: String,
    pub namespace_show_name: String,
    pub namespace_desc: String,
    pub quota: u32,
    pub create_time: i64,
    pub update_time: i64,
}

/// A request to publish configuration content.
#[derive(Debug, Clone)]
pub struct PublishConfigRequest {
    pub data_id: String,
    pub group: String,
    pub content: String,
    pub namespace: Option<String>,
}

/// A request to create a namespace.
#[derive(Debug, Clone)]
pub struct CreateNamespaceRequest {
    pub namespace: String,
    pub namespace_show_name: String,
    pub namespace_desc: Option<String>,
}

/// A request to change a namespace.
#[derive(Debug, Clone)]
pub struct UpdateNamespaceRequest {
    pub namespace_show_name: String,
    pub namespace_desc: Option<String>,
    pub quota: Option<u32>,
}

/// The envelope of every answer of the HTTP surface.
#[derive(Debug, Clone)]
pub struct ApiResponse<T> {
    pub code: i32,
    pub message: String,
    pub data: Option<T>,
    pub timestamp: i64,
}

impl<T> ApiResponse<T> {
    /// A `200 success` answer carrying `data`, stamped `now`.
    pub fn success(data: T, now: i64) -> (r: ApiResponse<T>)
        ensures
            r.code == 200,
            r.message@ == "success"@,
            r.data == Some(data),
            r.timestamp == now,
    {
        proof {
            reveal_strlit("success");
        }
        ApiResponse { code: 200, message: String::from_str("success"), data: Some(data), timestamp: now }
    }

    /// An answer with status `code` and no data, stamped `now`.
    pub fn error(code: i32, message: String, now: i64) -> (r: ApiResponse<T>)
        ensures
            r.code == code,
            r.message == message,
            r.data.is_none(),
            r.timestamp == now,
    {
        ApiResponse { code, message, data: None, timestamp: now }
    }
}

/// Where a console client sends its requests.
pub struct ApiClient {
    base_url: String,
}

impl ApiClient {
    pub closed spec fn base(&self) -> Seq<char> {
        self.base_url@
    }

    /// A client of the API mounted at `/nacos/v1`.
    pub fn new() -> (r: ApiClient)
        ensures
            r.base() == "/nacos/v1"@,
    {
        proof {
            reveal_strlit("/nacos/v1");
        }
        ApiClient { base_url: String::from_str("/nacos/v1") }
    }

    /// The full address of `path` under the API root.
    pub fn url(&self, path: &str) -> (r: String)
        ensures
            r@ == self.base() + path@,
    {
        let mut u = self.base_url.clone();
        u.append(path);
        u
    }
}

} // verus!

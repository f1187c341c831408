use vstd::prelude::*;
use vstd::string::StringExecFns;
use crate::codec::{joined_key, key_seq};
use crate::config_store::ConfigStore;
use crate::history::{records_of, ConfigHistoryStore};
use crate::instances::{in_service, keys_distinct, InstanceStore, InstanceView};
use crate::listing::{enumerates, is_listing, newest_first, sort_newest_first, Dated};
use crate::model::{
    copy_opt, ConfigHistoryItem, ConfigItem, ConfigKey, Instance, InstanceId, Namespace,
    ServiceName,
};
use crate::namespaces::NamespaceStore;
use crate::notify::{ChangeEvent, SseHub};
use crate::paging::{page_count, page_of, pages_for};
use crate::usecase::{first_version_index, has_version, publish_effect, published_item, PublishConfig};

verus! {

/// The namespace used when a request names none; it can never be deleted.
pub open spec fn public_ns() -> Seq<char> {
    "public"@
}

/// The group used when a request names none.
pub open spec fn default_group() -> Seq<char> {
    "DEFAULT_GROUP"@
}

/// The actor recorded for changes made through the request layer.
pub open spec fn admin() -> Seq<char> {
    "admin"@
}

pub fn public_ns_string() -> (r: String)
    ensures
        r@ == public_ns(),
{
    proof {
        reveal_strlit("public");
    }
    String::from_str("public")
}

pub fn default_group_string() -> (r: String)
    ensures
        r@ == default_group(),
{
    proof {
        reveal_strlit("DEFAULT_GROUP");
    }
    String::from_str("DEFAULT_GROUP")
}

fn admin_actor() -> (r: Option<String>)
    ensures
        r.is_some() && r.unwrap()@ == admin(),
{
    proof {
        reveal_strlit("admin");
    }
    Some(String::from_str("admin"))
}

/// `k` names (namespace, group, data id).
pub open spec fn key_named(k: ConfigKey, namespace: Seq<char>, group: Seq<char>, data_id: Seq<char>) -> bool {
    &&& k.namespace@ == namespace
    &&& k.group@ == group
    &&& k.data_id@ == data_id
}

/// The change is recorded as made by `admin`.
pub open spec fn is_admin(actor: Option<String>) -> bool {
    actor.is_some() && actor.unwrap()@ == admin()
}

/// `o`, or `d` when it is absent.
pub open spec fn or_default(o: Option<String>, d: Seq<char>) -> Seq<char> {
    match o {
        Some(s) => s@,
        None => d,
    }
}

fn unwrap_or_string(o: Option<String>, d: String) -> (r: String)
    ensures
        r@ == or_default(o, d@),
{
    match o {
        Some(s) => s,
        None => d,
    }
}

/// The key a request names, with the boundary's defaults filled in.
pub fn request_key(namespace: Option<String>, group: Option<String>, data_id: String) -> (r:
    ConfigKey)
    ensures
        r.namespace@ == or_default(namespace, public_ns()),
        r.group@ == or_default(group, default_group()),
        r.data_id == data_id,
{
    ConfigKey {
        namespace: unwrap_or_string(namespace, public_ns_string()),
        group: unwrap_or_string(group, default_group_string()),
        data_id,
    }
}

/// The stores of the control plane, one of each.
pub struct MemStores {
    pub configs: ConfigStore,
    pub histories: ConfigHistoryStore,
    pub instances: InstanceStore,
    pub namespaces: NamespaceStore,
}

impl MemStores {
    pub open spec fn wf(&self) -> bool {
        &&& self.configs.wf()
        &&& self.instances.wf()
        &&& self.namespaces.wf()
    }

    /// Empty stores.
    pub fn new() -> (r: MemStores)
        ensures
            r.wf(),
            r.configs@ == Map::<Seq<char>, ConfigItem>::empty(),
            forall|k: Seq<char>| records_of(r.histories@, k) == Seq::<ConfigHistoryItem>::empty(),
            r.instances@.dom() == Set::<Seq<char>>::empty(),
            r.namespaces@.dom() == Set::<Seq<char>>::empty(),
    {
        MemStores {
            configs: ConfigStore::new(),
            histories: ConfigHistoryStore::new(),
            instances: InstanceStore::new(),
            namespaces: NamespaceStore::new(),
        }
    }
}

/// Everything a request handler works on: the stores and the change hub.
pub struct AppCtx {
    pub stores: MemStores,
    pub notifier: SseHub,
}

/// A live item as the request layer shows it.
#[derive(Debug, Clone)]
pub struct ConfigItemDto {
    pub data_id: String,
    pub group: String,
    pub content: String,
    pub namespace: String,
    pub update_time: i64,
}

pub open spec fn config_dto_of(c: ConfigItem) -> ConfigItemDto {
    ConfigItemDto {
        data_id: c.key.data_id,
        group: c.key.group,
        content: c.content,
        namespace: c.key.namespace,
        update_time: c.updated_at,
    }
}

pub fn to_config_dto(c: ConfigItem) -> (r: ConfigItemDto)
    ensures
        r == config_dto_of(c),
{
    ConfigItemDto {
        data_id: c.key.data_id,
        group: c.key.group,
        content: c.content,
        namespace: c.key.namespace,
        update_time: c.updated_at,
    }
}

/// One page of a configuration listing.
#[derive(Debug, Clone)]
pub struct PagedConfigResponse {
    pub total_count: usize,
    pub page_number: u32,
    pub page_size: u32,
    pub pages: u64,
    pub data: Vec<ConfigItemDto>,
}

/// A history record as the request layer shows it.
#[derive(Debug, Clone)]
pub struct HistoryItemDto {
    pub version: i64,
    pub deleted: bool,
    pub content: String,
    pub updated_at: i64,
}

/// History is shown by version, newest first.
impl Dated for HistoryItemDto {
    open spec fn stamp(&self) -> i64 {
        self.version
    }

    fn stamp_of(&self) -> (r: i64) {
        self.version
    }
}

pub open spec fn history_dto_of(h: ConfigHistoryItem) -> HistoryItemDto {
    HistoryItemDto {
        version: h.version_ts,
        deleted: h.deleted,
        content: h.content,
        updated_at: h.updated_at,
    }
}

fn dto_list(items: Vec<ConfigItem>) -> (r: Vec<ConfigItemDto>)
    ensures
        r@ == items@.map_values(|c: ConfigItem| config_dto_of(c)),
{
    let mut r: Vec<ConfigItemDto> = Vec::new();
    let mut i: usize = 0;
    while i < items.len()
        invariant
            i <= items@.len(),
            r@ == items@.subrange(0, i as int).map_values(|c: ConfigItem| config_dto_of(c)),
        decreases items@.len() - i,
    {
        r.push(to_config_dto(items[i].copied()));
        proof {
            assert(items@.subrange(0, i as int + 1).map_values(|c: ConfigItem| config_dto_of(c))
                =~= items@.subrange(0, i as int).map_values(|c: ConfigItem| config_dto_of(c)).push(
                config_dto_of(items@[i as int]),
            ));
        }
        i = i + 1;
    }
    proof {
        assert(items@.subrange(0, items@.len() as int) =~= items@);
    }
    r
}

/// One entry of a bulk import.
#[derive(Debug, Clone)]
pub struct ImportItem {
    pub data_id: String,
    pub group: String,
    pub namespace: String,
    pub content: String,
    pub format: Option<String>,
}

/// The key an import entry names.
pub open spec fn import_key(it: ImportItem) -> ConfigKey {
    ConfigKey { namespace: it.namespace, group: it.group, data_id: it.data_id }
}

/// The live items after the first `n` entries of `items` were published in
/// order by `actor` at `now`.
pub open spec fn imported(
    m: Map<Seq<char>, ConfigItem>,
    items: Seq<ImportItem>,
    n: nat,
    actor: Option<String>,
    now: i64,
) -> Map<Seq<char>, ConfigItem>
    decreases n,
{
    if n == 0 || n > items.len() {
        m
    } else {
        let it = items[n - 1];
        imported(m, items, (n - 1) as nat, actor, now).insert(
            key_seq(import_key(it)),
            published_item(import_key(it), it.content, it.format, actor, now),
        )
    }
}

/// Namespace metadata as the request layer shows it.
#[derive(Debug, Clone)]
pub struct NamespaceDto {
    pub namespace: String,
    pub namespace_show_name: String,
    pub namespace_desc: String,
    pub quota: u32,
    pub create_time: i64,
    pub update_time: i64,
}

pub open spec fn namespace_dto_of(n: Namespace) -> NamespaceDto {
    NamespaceDto {
        namespace: n.id,
        namespace_show_name: n.show_name,
        namespace_desc: n.desc,
        quota: n.quota,
        create_time: n.created_at,
        update_time: n.updated_at,
    }
}

pub fn to_namespace_dto(n: Namespace) -> (r: NamespaceDto)
    ensures
        r == namespace_dto_of(n),
{
    NamespaceDto {
        namespace: n.id,
        namespace_show_name: n.show_name,
        namespace_desc: n.desc,
        quota: n.quota,
        create_time: n.created_at,
        update_time: n.updated_at,
    }
}

/// `ns` after an update that sets the show name, and the description and
/// quota where given, at `now`.
pub open spec fn updated_namespace(
    ns: Namespace,
    show_name: String,
    desc: Option<String>,
    quota: Option<u32>,
    now: i64,
) -> Namespace {
    Namespace {
        show_name,
        desc: match desc {
            Some(d) => d,
            None => ns.desc,
        },
        quota: match quota {
            Some(q) => q,
            None => ns.quota,
        },
        updated_at: now,
        ..ns
    }
}

/// Bit pattern of the weight 1.0, the weight of an instance registered
/// without one.
pub const DEFAULT_WEIGHT_BITS: u64 = 0x3FF0_0000_0000_0000;

/// What a registration asks for; absent fields take the boundary's defaults
/// (group `DEFAULT_GROUP`, cluster `DEFAULT`, weight 1.0, no metadata).
#[derive(Debug, Clone)]
pub struct RegisterInstanceRequest {
    pub ip: String,
    pub port: u16,
    pub service_name: String,
    pub group_name: Option<String>,
    pub cluster_name: Option<String>,
    pub weight_bits: Option<u64>,
    pub metadata: Option<Vec<(String, String)>>,
}

pub open spec fn default_cluster() -> Seq<char> {
    "DEFAULT"@
}

/// The metadata of a request, when given, names each key once.
pub open spec fn metadata_keys_distinct(m: Option<Vec<(String, String)>>) -> bool {
    match m {
        Some(v) => forall|i: int, j: int| 0 <= i < j < v@.len() ==> v@[i].0@ != v@[j].0@,
        None => true,
    }
}

/// The instance that registering `req` under `id` at `now` stores.
pub open spec fn registered_view(id: Seq<char>, req: RegisterInstanceRequest, now: i64) -> InstanceView {
    InstanceView {
        id,
        ip: req.ip@,
        port: req.port,
        service: req.service_name@,
        group: or_default(req.group_name, default_group()),
        cluster: or_default(req.cluster_name, default_cluster()),
        weight_bits: match req.weight_bits {
            Some(w) => w,
            None => DEFAULT_WEIGHT_BITS,
        },
        healthy: true,
        metadata: match req.metadata {
            Some(m) => m@.map_values(|p: (String, String)| (p.0@, p.1@)),
            None => Seq::empty(),
        },
        last_beat_at: now,
    }
}

/// Relies on uuid's `Uuid::new_v4` and its `Display`, which writes the
/// hyphenated form: a fresh random id of 36 characters.
#[verifier::external_body]
fn new_instance_id() -> (r: String)
    ensures
        r@.len() == 36,
{
    uuid::Uuid::new_v4().to_string()
}

/// Some instance of `m` belongs to service `s`.
pub open spec fn has_service(m: Map<Seq<char>, InstanceView>, s: Seq<char>) -> bool {
    exists|k: Seq<char>| m.contains_key(k) && m[k].service == s
}

/// Whether some string of `names` equals `name`.
fn holds_name(names: &Vec<String>, name: &String) -> (r: bool)
    ensures
        r == exists|t: int| 0 <= t < names@.len() && names@[t]@ == name@,
{
    let mut j: usize = 0;
    while j < names.len()
        invariant
            j <= names@.len(),
            forall|t: int| 0 <= t < j ==> names@[t]@ != name@,
        decreases names@.len() - j,
    {
        if names[j] == *name {
            return true;
        }
        j = j + 1;
    }
    false
}

impl AppCtx {
    pub open spec fn wf(&self) -> bool {
        &&& self.stores.wf()
        &&& self.notifier.wf()
    }

    pub fn new() -> (r: AppCtx)
        ensures
            r.wf(),
            r.stores.configs@ == Map::<Seq<char>, ConfigItem>::empty(),
            forall|k: Seq<char>| records_of(r.stores.histories@, k) == Seq::<ConfigHistoryItem>::empty(),
            r.stores.instances@.dom() == Set::<Seq<char>>::empty(),
            r.stores.namespaces@.dom() == Set::<Seq<char>>::empty(),
            r.notifier.subscribers@.len() == 0,
    {
        AppCtx { stores: MemStores::new(), notifier: SseHub::new() }
    }

    /// The state a server starts from: empty stores but for the protected
    /// `public` namespace, created at `now`.
    pub fn bootstrap(now: i64) -> (r: AppCtx)
        ensures
            r.wf(),
            r.stores.configs@ == Map::<Seq<char>, ConfigItem>::empty(),
            forall|k: Seq<char>| records_of(r.stores.histories@, k) == Seq::<ConfigHistoryItem>::empty(),
            r.stores.instances@.dom() == Set::<Seq<char>>::empty(),
            r.stores.namespaces@.dom() == set![public_ns()],
            r.stores.namespaces@[public_ns()].id@ == public_ns(),
            r.stores.namespaces@[public_ns()].created_at == now,
            r.notifier.subscribers@.len() == 0,
    {
        let mut ctx = AppCtx::new();
        proof {
            reveal_strlit("Public Namespace");
            reveal_strlit("Default namespace");
        }
        ctx.create_namespace(
            public_ns_string(),
            String::from_str("Public Namespace"),
            Some(String::from_str("Default namespace")),
            now,
        );
        proof {
            let before = Map::<Seq<char>, Namespace>::empty();
            assert(ctx.stores.namespaces@.remove(public_ns()).dom() =~= before.remove(public_ns()).dom());
            assert(ctx.stores.namespaces@.dom() =~= set![public_ns()]);
        }
        ctx
    }

    /// Publishes `content` (namespace defaults to `public`) as `admin` at
    /// `now`; always succeeds. The other stores are untouched.
    pub fn publish_config(
        &mut self,
        data_id: String,
        group: String,
        content: String,
        namespace: Option<String>,
        format: Option<String>,
        now: i64,
    ) -> (r: bool)
        requires
            old(self).wf(),
        ensures
            final(self).wf(),
            r,
            exists|key: ConfigKey, actor: Option<String>|
                {
                    &&& key_named(key, or_default(namespace, public_ns()), group@, data_id@)
                    &&& is_admin(actor)
                    &&& publish_effect(
                        old(self).stores.configs,
                        final(self).stores.configs,
                        old(self).stores.histories,
                        final(self).stores.histories,
                        old(self).notifier,
                        final(self).notifier,
                        key,
                        content,
                        format,
                        actor,
                        now,
                    )
                },
            final(self).stores.instances == old(self).stores.instances,
            final(self).stores.namespaces == old(self).stores.namespaces,
    {
        let ghost (g, d) = (group@, data_id@);
        let key = request_key(namespace, Some(group), data_id);
        let actor = admin_actor();
        let ghost (k, a, c, f) = (key, actor, content, format);
        PublishConfig::exec_at(
            &mut self.stores.configs,
            &mut self.stores.histories,
            &mut self.notifier,
            key,
            content,
            format,
            actor,
            now,
        );
        assert(key_named(k, or_default(namespace, public_ns()), g, d) && is_admin(a));
        assert(publish_effect(
            old(self).stores.configs,
            self.stores.configs,
            old(self).stores.histories,
            self.stores.histories,
            old(self).notifier,
            self.notifier,
            k,
            c,
            f,
            a,
            now,
        ));
        true
    }

    /// The live item named by the request (defaults: namespace `public`,
    /// group `DEFAULT_GROUP`), if any.
    pub fn get_config(&self, data_id: String, group: Option<String>, namespace: Option<String>) -> (r:
        Option<ConfigItemDto>)
        requires
            self.wf(),
        ensures
            ({
                let ks = joined_key(
                    or_default(namespace, public_ns()),
                    or_default(group, default_group()),
                    data_id@,
                );
                r == (if self.stores.configs@.contains_key(ks) {
                    Some(config_dto_of(self.stores.configs@[ks]))
                } else {
                    None
                })
            }),
    {
        let key = request_key(namespace, group, data_id);
        match self.stores.configs.get(&key) {
            Some(item) => Some(to_config_dto(item)),
            None => None,
        }
    }

    /// Removes the live item named by the request; returns whether there was
    /// one. Its history stays.
    pub fn delete_config(&mut self, data_id: String, group: Option<String>, namespace: Option<String>) -> (r:
        bool)
        requires
            old(self).wf(),
        ensures
            final(self).wf(),
            ({
                let ks = joined_key(
                    or_default(namespace, public_ns()),
                    or_default(group, default_group()),
                    data_id@,
                );
                &&& r == old(self).stores.configs@.contains_key(ks)
                &&& final(self).stores.configs@ == old(self).stores.configs@.remove(ks)
            }),
            final(self).stores.histories == old(self).stores.histories,
            final(self).stores.instances == old(self).stores.instances,
            final(self).stores.namespaces == old(self).stores.namespaces,
            final(self).notifier == old(self).notifier,
    {
        let key = request_key(namespace, group, data_id);
        self.stores.configs.delete(&key)
    }

    /// One page of the items of `namespace` whose data id contains `search`
    /// (when given), newest first and ties by key; `page` defaults to 1 and
    /// `size` to 10.
    pub fn list_configs(&self, namespace: String, page: Option<u32>, size: Option<u32>, search: Option<String>) -> (r:
        PagedConfigResponse)
        requires
            self.wf(),
        ensures
            ({
                let p = match page {
                    Some(p) => p,
                    None => 1u32,
                };
                let z = match size {
                    Some(z) => z,
                    None => 10u32,
                };
                let f = match search {
                    Some(s) => Some(s@),
                    None => None,
                };
                &&& r.page_number == p
                &&& r.page_size == z
                &&& exists|all: Seq<ConfigItem>|
                    {
                        &&& is_listing(self.stores.configs@, namespace@, f, all)
                        &&& r.total_count == all.len()
                        &&& r.pages == page_count(all.len() as int, z as int)
                        &&& r.data@ == page_of(all, p as int, z as int).map_values(
                            |c: ConfigItem| config_dto_of(c),
                        )
                    }
            }),
    {
        let p: u32 = match page {
            Some(p) => p,
            None => 1,
        };
        let z: u32 = match size {
            Some(z) => z,
            None => 10,
        };
        let filter: Option<&str> = match &search {
            Some(s) => Some(s.as_str()),
            None => None,
        };
        let (total, items) = self.stores.configs.list(namespace.as_str(), p, z, filter);
        let pages = pages_for(total, z);
        PagedConfigResponse { total_count: total, page_number: p, page_size: z, pages, data: dto_list(items) }
    }

    /// The history of the key, newest version first (records with equal
    /// versions in no particular order).
    pub fn list_history(&self, data_id: String, group: String, namespace: String) -> (r: Vec<
        HistoryItemDto,
    >)
        ensures
            newest_first(r@),
            r@.to_multiset() == records_of(
                self.stores.histories@,
                joined_key(namespace@, group@, data_id@),
            ).map_values(|h: ConfigHistoryItem| history_dto_of(h)).to_multiset(),
    {
        let key = ConfigKey { namespace, group, data_id };
        let recs = self.stores.histories.list(&key);
        let mut dtos: Vec<HistoryItemDto> = Vec::new();
        let mut i: usize = 0;
        while i < recs.len()
            invariant
                i <= recs@.len(),
                dtos@ == recs@.subrange(0, i as int).map_values(
                    |h: ConfigHistoryItem| history_dto_of(h),
                ),
            decreases recs@.len() - i,
        {
            let h = &recs[i];
            dtos.push(
                HistoryItemDto {
                    version: h.version_ts,
                    deleted: h.deleted,
                    content: h.content.clone(),
                    updated_at: h.updated_at,
                },
            );
            proof {
                assert(recs@.subrange(0, i as int + 1).map_values(
                    |h: ConfigHistoryItem| history_dto_of(h),
                ) =~= recs@.subrange(0, i as int).map_values(
                    |h: ConfigHistoryItem| history_dto_of(h),
                ).push(history_dto_of(recs@[i as int])));
            }
            i = i + 1;
        }
        proof {
            assert(recs@.subrange(0, recs@.len() as int) =~= recs@);
        }
        sort_newest_first(dtos)
    }

    /// Rolls the key back to the oldest history record with `version`:
    /// that record's content and format are published anew (as `admin`, at
    /// `now`). Returns `false`, changing nothing, when no record has it.
    pub fn rollback_config(
        &mut self,
        data_id: String,
        group: String,
        namespace: String,
        version: i64,
        now: i64,
    ) -> (r: bool)
        requires
            old(self).wf(),
        ensures
            final(self).wf(),
            ({
                let recs = records_of(
                    old(self).stores.histories@,
                    joined_key(namespace@, group@, data_id@),
                );
                let rec = recs[first_version_index(recs, version)];
                &&& r == has_version(recs, version)
                &&& !r ==> *final(self) == *old(self)
                &&& r ==> exists|key: ConfigKey, actor: Option<String>|
                    {
                        &&& key_named(key, namespace@, group@, data_id@)
                        &&& is_admin(actor)
                        &&& publish_effect(
                            old(self).stores.configs,
                            final(self).stores.configs,
                            old(self).stores.histories,
                            final(self).stores.histories,
                            old(self).notifier,
                            final(self).notifier,
                            key,
                            rec.content,
                            rec.format,
                            actor,
                            now,
                        )
                    }
            }),
            final(self).stores.instances == old(self).stores.instances,
            final(self).stores.namespaces == old(self).stores.namespaces,
    {
        let key = ConfigKey { namespace, group, data_id };
        let actor = admin_actor();
        let ghost (k, a) = (key, actor);
        let found = PublishConfig::rollback_at(
            &mut self.stores.configs,
            &mut self.stores.histories,
            &mut self.notifier,
            key,
            version,
            actor,
            now,
        );
        proof {
            if found {
                let recs = records_of(old(self).stores.histories@, key_seq(k));
                let rec = recs[first_version_index(recs, version)];
                assert(publish_effect(
                    old(self).stores.configs,
                    self.stores.configs,
                    old(self).stores.histories,
                    self.stores.histories,
                    old(self).notifier,
                    self.notifier,
                    k,
                    rec.content,
                    rec.format,
                    a,
                    now,
                ));
                assert(key_named(k, namespace@, group@, data_id@));
            }
        }
        found
    }

    /// Every item of `namespace`, each once, in no particular order.
    pub fn export_configs(&self, namespace: String) -> (r: Vec<ConfigItemDto>)
        requires
            self.wf(),
        ensures
            exists|all: Seq<ConfigItem>|
                {
                    &&& enumerates(self.stores.configs@, namespace@, None, all)
                    &&& r@ == all.map_values(|c: ConfigItem| config_dto_of(c))
                },
    {
        let items = self.stores.configs.matching(namespace.as_str(), None);
        dto_list(items)
    }

    /// Publishes each entry in order, as `admin` at `now`; always succeeds.
    pub fn import_configs(&mut self, items: Vec<ImportItem>, now: i64) -> (r: bool)
        requires
            old(self).wf(),
        ensures
            final(self).wf(),
            r,
            exists|actor: Option<String>|
                is_admin(actor) && final(self).stores.configs@ == imported(
                    old(self).stores.configs@,
                    items@,
                    items@.len(),
                    actor,
                    now,
                ),
            final(self).stores.instances == old(self).stores.instances,
            final(self).stores.namespaces == old(self).stores.namespaces,
    {
        let actor = admin_actor();
        let ghost a = actor;
        let mut i: usize = 0;
        while i < items.len()
            invariant
                i <= items@.len(),
                self.wf(),
                is_admin(a),
                actor == a,
                self.stores.configs@ == imported(old(self).stores.configs@, items@, i as nat, a, now),
                self.stores.instances == old(self).stores.instances,
                self.stores.namespaces == old(self).stores.namespaces,
            decreases items@.len() - i,
        {
            let it = &items[i];
            let key = ConfigKey {
                namespace: it.namespace.clone(),
                group: it.group.clone(),
                data_id: it.data_id.clone(),
            };
            PublishConfig::exec_at(
                &mut self.stores.configs,
                &mut self.stores.histories,
                &mut self.notifier,
                key,
                it.content.clone(),
                copy_opt(&it.format),
                copy_opt(&actor),
                now,
            );
            i = i + 1;
        }
        true
    }

    /// Creates (or replaces) namespace `id` with quota 0, stamped `now`; the
    /// description defaults to empty. Always succeeds.
    pub fn create_namespace(&mut self, id: String, show_name: String, desc: Option<String>, now: i64) -> (r:
        bool)
        requires
            old(self).wf(),
        ensures
            final(self).wf(),
            r,
            final(self).stores.namespaces@.contains_key(id@),
            ({
                let n = final(self).stores.namespaces@[id@];
                &&& n.id == id
                &&& n.show_name == show_name
                &&& n.desc@ == or_default(desc, Seq::empty())
                &&& n.quota == 0
                &&& n.created_at == now
                &&& n.updated_at == now
            }),
            final(self).stores.namespaces@.remove(id@) == old(self).stores.namespaces@.remove(id@),
            final(self).stores.configs == old(self).stores.configs,
            final(self).stores.histories == old(self).stores.histories,
            final(self).stores.instances == old(self).stores.instances,
            final(self).notifier == old(self).notifier,
    {
        let d = match desc {
            Some(d) => d,
            None => String::new(),
        };
        let ns = Namespace { id, show_name, desc: d, quota: 0, created_at: now, updated_at: now };
        self.stores.namespaces.create(ns);
        proof {
            assert(self.stores.namespaces@.remove(id@) =~= old(self).stores.namespaces@.remove(id@));
        }
        true
    }

    /// Every namespace once, in no particular order.
    pub fn list_namespaces(&self) -> (r: Vec<NamespaceDto>)
        requires
            self.wf(),
        ensures
            forall|i: int| 0 <= i < r@.len() ==> {
                &&& self.stores.namespaces@.contains_key((#[trigger] r@[i]).namespace@)
                &&& r@[i] == namespace_dto_of(self.stores.namespaces@[r@[i].namespace@])
            },
            forall|k: Seq<char>| #[trigger] self.stores.namespaces@.contains_key(k) ==> exists|i: int|
                0 <= i < r@.len() && r@[i].namespace@ == k,
            forall|i: int, j: int| 0 <= i < j < r@.len() ==> r@[i].namespace@ != r@[j].namespace@,
    {
        let all = self.stores.namespaces.list();
        let mut out: Vec<NamespaceDto> = Vec::new();
        let mut i: usize = 0;
        while i < all.len()
            invariant
                i <= all@.len(),
                out@.len() == i,
                forall|t: int| 0 <= t < i ==> #[trigger] out@[t] == namespace_dto_of(all@[t]),
            decreases all@.len() - i,
        {
            out.push(to_namespace_dto(all[i].copied()));
            i = i + 1;
        }
        proof {
            assert forall|k: Seq<char>| #[trigger] self.stores.namespaces@.contains_key(k) implies exists|
                i: int,
            | 0 <= i < out@.len() && out@[i].namespace@ == k by {
                let u = choose|u: int| 0 <= u < all@.len() && all@[u].id@ == k;
                assert(out@[u] == namespace_dto_of(all@[u]));
            }
            assert forall|i: int| 0 <= i < out@.len() implies {
                &&& self.stores.namespaces@.contains_key((#[trigger] out@[i]).namespace@)
                &&& out@[i] == namespace_dto_of(self.stores.namespaces@[out@[i].namespace@])
            } by {
                assert(out@[i] == namespace_dto_of(all@[i]));
            }
            assert forall|a: int, b: int| 0 <= a < b < out@.len() implies out@[a].namespace@
                != out@[b].namespace@ by {
                assert(out@[a] == namespace_dto_of(all@[a]));
                assert(out@[b] == namespace_dto_of(all@[b]));
            }
        }
        out
    }

    /// Updates namespace `id` at `now` (show name always; description and
    /// quota where given). Returns `false`, changing nothing, when there is no
    /// such namespace.
    pub fn update_namespace(
        &mut self,
        id: String,
        show_name: String,
        desc: Option<String>,
        quota: Option<u32>,
        now: i64,
    ) -> (r: bool)
        requires
            old(self).wf(),
        ensures
            final(self).wf(),
            r == old(self).stores.namespaces@.contains_key(id@),
            r ==> final(self).stores.namespaces@ == old(self).stores.namespaces@.insert(
                id@,
                updated_namespace(old(self).stores.namespaces@[id@], show_name, desc, quota, now),
            ),
            !r ==> final(self).stores.namespaces@ == old(self).stores.namespaces@,
            final(self).stores.configs == old(self).stores.configs,
            final(self).stores.histories == old(self).stores.histories,
            final(self).stores.instances == old(self).stores.instances,
            final(self).notifier == old(self).notifier,
    {
        match self.stores.namespaces.get(id.as_str()) {
            Some(ns) => {
                let ns = Namespace {
                    show_name,
                    desc: match desc {
                        Some(d) => d,
                        None => ns.desc,
                    },
                    quota: match quota {
                        Some(q) => q,
                        None => ns.quota,
                    },
                    updated_at: now,
                    ..ns
                };
                self.stores.namespaces.update(ns)
            },
            None => false,
        }
    }

    /// Deletes namespace `id`; returns whether it existed. The `public`
    /// namespace is never deleted: asking for it returns `false`.
    pub fn delete_namespace(&mut self, id: String) -> (r: bool)
        requires
            old(self).wf(),
        ensures
            final(self).wf(),
            id@ == public_ns() ==> !r && final(self).stores.namespaces@ == old(self).stores.namespaces@,
            id@ != public_ns() ==> r == old(self).stores.namespaces@.contains_key(id@)
                && final(self).stores.namespaces@ == old(self).stores.namespaces@.remove(id@),
            final(self).stores.configs == old(self).stores.configs,
            final(self).stores.histories == old(self).stores.histories,
            final(self).stores.instances == old(self).stores.instances,
            final(self).notifier == old(self).notifier,
    {
        let public = public_ns_string();
        if id == public {
            return false;
        }
        self.stores.namespaces.delete(id.as_str())
    }

    /// Registers a new healthy instance under `id`, beating at `now`, then
    /// announces a change of its service. Returns `id`.
    pub fn register_instance_with_id(&mut self, id: String, req: RegisterInstanceRequest, now: i64) -> (r:
        String)
        requires
            old(self).wf(),
            metadata_keys_distinct(req.metadata),
        ensures
            final(self).wf(),
            r@ == id@,
            final(self).stores.instances@ == old(self).stores.instances@.insert(
                id@,
                registered_view(id@, req, now),
            ),
            SseHub::broadcast(
                old(self).notifier,
                final(self).notifier,
                ChangeEvent::Instance { service_name: req.service_name },
            ),
            final(self).stores.configs == old(self).stores.configs,
            final(self).stores.namespaces == old(self).stores.namespaces,
    {
        let ghost rq = req;
        let group = match req.group_name {
            Some(g) => g,
            None => default_group_string(),
        };
        let cluster = match req.cluster_name {
            Some(c) => c,
            None => {
                proof {
                    reveal_strlit("DEFAULT");
                }
                String::from_str("DEFAULT")
            },
        };
        let metadata = match req.metadata {
            Some(m) => m,
            None => Vec::new(),
        };
        let service = ServiceName(req.service_name);
        let event = ChangeEvent::instance(&service);
        let ins = Instance {
            id: InstanceId(id.clone()),
            ip: req.ip,
            port: req.port,
            service,
            group,
            cluster,
            weight_bits: match req.weight_bits {
                Some(w) => w,
                None => DEFAULT_WEIGHT_BITS,
            },
            healthy: true,
            metadata,
            last_beat_at: now,
        };
        proof {
            assert(ins@.metadata =~= registered_view(id@, rq, now).metadata);
            assert(ins@ == registered_view(id@, rq, now));
            assert(keys_distinct(ins@.metadata)) by {
                if rq.metadata.is_some() {
                    let v = rq.metadata.unwrap();
                    assert forall|i: int, j: int| 0 <= i < j < ins@.metadata.len() implies ins@.metadata[i].0
                        != ins@.metadata[j].0 by {
                        assert(ins@.metadata[i].0 == v@[i].0@);
                        assert(ins@.metadata[j].0 == v@[j].0@);
                    }
                }
            }
        }
        self.stores.instances.register(ins);
        let _ = self.notifier.publish(event);
        id
    }

    /// `register_instance_with_id` under a fresh random id, which is returned.
    pub fn register_instance(&mut self, req: RegisterInstanceRequest, now: i64) -> (r: String)
        requires
            old(self).wf(),
            metadata_keys_distinct(req.metadata),
        ensures
            final(self).wf(),
            r@.len() == 36,
            final(self).stores.instances@ == old(self).stores.instances@.insert(
                r@,
                registered_view(r@, req, now),
            ),
            SseHub::broadcast(
                old(self).notifier,
                final(self).notifier,
                ChangeEvent::Instance { service_name: req.service_name },
            ),
            final(self).stores.configs == old(self).stores.configs,
            final(self).stores.namespaces == old(self).stores.namespaces,
    {
        let id = new_instance_id();
        self.register_instance_with_id(id, req, now)
    }

    /// Records a heartbeat of `instance_id` at `now` and announces a change
    /// of `service_name`; returns whether the instance exists.
    pub fn beat_instance(&mut self, service_name: String, instance_id: String, now: i64) -> (r: bool)
        requires
            old(self).wf(),
        ensures
            final(self).wf(),
            r == old(self).stores.instances@.contains_key(instance_id@),
            r ==> final(self).stores.instances@ == old(self).stores.instances@.insert(
                instance_id@,
                crate::instances::beaten(old(self).stores.instances@[instance_id@], now),
            ),
            !r ==> final(self).stores.instances@ == old(self).stores.instances@,
            SseHub::broadcast(
                old(self).notifier,
                final(self).notifier,
                ChangeEvent::Instance { service_name },
            ),
            final(self).stores.configs == old(self).stores.configs,
            final(self).stores.namespaces == old(self).stores.namespaces,
    {
        let service = ServiceName(service_name);
        let id = InstanceId(instance_id);
        let found = self.stores.instances.beat_at(&service, &id, now);
        let _ = self.notifier.publish(ChangeEvent::instance(&service));
        found
    }

    /// Removes `instance_id` (whatever `service_name` says) and announces a
    /// change of `service_name`; returns whether the instance existed.
    pub fn deregister_instance(&mut self, service_name: String, instance_id: String) -> (r: bool)
        requires
            old(self).wf(),
        ensures
            final(self).wf(),
            r == old(self).stores.instances@.contains_key(instance_id@),
            final(self).stores.instances@ == old(self).stores.instances@.remove(instance_id@),
            SseHub::broadcast(
                old(self).notifier,
                final(self).notifier,
                ChangeEvent::Instance { service_name },
            ),
            final(self).stores.configs == old(self).stores.configs,
            final(self).stores.namespaces == old(self).stores.namespaces,
    {
        let service = ServiceName(service_name);
        let id = InstanceId(instance_id);
        let found = self.stores.instances.deregister(&service, &id);
        let _ = self.notifier.publish(ChangeEvent::instance(&service));
        found
    }

    /// The instances of `service_name` (all of them when absent), each once.
    pub fn list_instances(&self, service_name: Option<String>) -> (r: Vec<Instance>)
        requires
            self.wf(),
        ensures
            ({
                let f = match service_name {
                    Some(s) => Some(s@),
                    None => None,
                };
                &&& forall|i: int| 0 <= i < r@.len() ==> {
                    &&& self.stores.instances@.contains_key((#[trigger] r@[i])@.id)
                    &&& self.stores.instances@[r@[i]@.id] == r@[i]@
                    &&& in_service(r@[i]@, f)
                }
                &&& forall|k: Seq<char>| #[trigger] self.stores.instances@.contains_key(k) && in_service(
                    self.stores.instances@[k],
                    f,
                ) ==> exists|i: int| 0 <= i < r@.len() && r@[i]@.id == k
                &&& forall|i: int, j: int| 0 <= i < j < r@.len() ==> r@[i]@.id != r@[j]@.id
            }),
    {
        match service_name {
            Some(s) => {
                let service = ServiceName(s);
                self.stores.instances.list(Some(&service))
            },
            None => self.stores.instances.list(None),
        }
    }

    /// The distinct service names among the registered instances.
    pub fn list_services(&self) -> (r: Vec<String>)
        requires
            self.wf(),
        ensures
            forall|i: int| 0 <= i < r@.len() ==> has_service(self.stores.instances@, (#[trigger] r@[i])@),
            forall|k: Seq<char>| #[trigger] self.stores.instances@.contains_key(k) ==> exists|i: int|
                0 <= i < r@.len() && r@[i]@ == self.stores.instances@[k].service,
            forall|i: int, j: int| 0 <= i < j < r@.len() ==> r@[i]@ != r@[j]@,
    {
        let all = self.stores.instances.list(None);
        let mut names: Vec<String> = Vec::new();
        let mut i: usize = 0;
        while i < all.len()
            invariant
                i <= all@.len(),
                forall|t: int| 0 <= t < all@.len() ==> {
                    &&& self.stores.instances@.contains_key((#[trigger] all@[t])@.id)
                    &&& self.stores.instances@[all@[t]@.id] == all@[t]@
                },
                forall|t: int| 0 <= t < names@.len() ==> has_service(
                    self.stores.instances@,
                    (#[trigger] names@[t])@,
                ),
                forall|u: int| 0 <= u < i ==> exists|t: int|
                    0 <= t < names@.len() && names@[t]@ == (#[trigger] all@[u])@.service,
                forall|a: int, b: int| 0 <= a < b < names@.len() ==> names@[a]@ != names@[b]@,
            decreases all@.len() - i,
        {
            let name = &all[i].service.0;
            let seen = holds_name(&names, name);
            if !seen {
                let ghost before = names@;
                names.push(name.clone());
                proof {
                    assert(names@[before.len() as int]@ == all@[i as int]@.service);
                    assert forall|t: int| 0 <= t < names@.len() implies has_service(
                        self.stores.instances@,
                        (#[trigger] names@[t])@,
                    ) by {
                        if t < before.len() {
                            assert(names@[t] == before[t]);
                        } else {
                            assert(self.stores.instances@.contains_key(all@[i as int]@.id));
                        }
                    }
                    assert forall|u: int| 0 <= u < i + 1 implies exists|t: int|
                        0 <= t < names@.len() && names@[t]@ == (#[trigger] all@[u])@.service by {
                        if u < i {
                            let t = choose|t: int| 0 <= t < before.len() && before[t]@ == all@[u]@.service;
                            assert(names@[t] == before[t]);
                        } else {
                            assert(names@[before.len() as int]@ == all@[u]@.service);
                        }
                    }
                }
            }
            i = i + 1;
        }
        proof {
            assert forall|k: Seq<char>| #[trigger] self.stores.instances@.contains_key(k) implies exists|
                i: int,
            | 0 <= i < names@.len() && names@[i]@ == self.stores.instances@[k].service by {
                let u = choose|u: int| 0 <= u < all@.len() && all@[u]@.id == k;
                assert(in_service(self.stores.instances@[k], None));
                let t = choose|t: int| 0 <= t < names@.len() && names@[t]@ == all@[u]@.service;
            }
        }
        names
    }
}

} // verus!

use vstd::prelude::*;

verus! {

/// Returns an exact copy of an optional string.
pub fn copy_opt(o: &Option<String>) -> (r: Option<String>)
    ensures
        r == *o,
{
    match o {
        Some(s) => Some(s.clone()),
        None => None,
    }
}

/// Identity of a configuration entry: (namespace, group, data id).
#[derive(Debug, Clone)]
pub struct ConfigKey {
    pub namespace: String,
    pub group: String,
    pub data_id: String,
}

impl ConfigKey {
    pub fn new(namespace: String, group: String, data_id: String) -> (r: ConfigKey)
        ensures
            r.namespace == namespace,
            r.group == group,
            r.data_id == data_id,
    {
        ConfigKey { namespace, group, data_id }
    }

    /// A field-by-field copy of the key.
    pub fn copied(&self) -> (r: ConfigKey)
        ensures
            r == *self,
    {
        ConfigKey {
            namespace: self.namespace.clone(),
            group: self.group.clone(),
            data_id: self.data_id.clone(),
        }
    }
}

/// The live value of one configuration entry. Times are epoch seconds.
#[derive(Debug, Clone)]
pub struct ConfigItem {
    pub key: ConfigKey,
    pub content: String,
    pub format: Option<String>,
    pub updated_at: i64,
    pub updated_by: Option<String>,
    pub version_ts: i64,
}

impl ConfigItem {
    pub fn copied(&self) -> (r: ConfigItem)
        ensures
            r == *self,
    {
        ConfigItem {
            key: self.key.copied(),
            content: self.content.clone(),
            format: copy_opt(&self.format),
            updated_at: self.updated_at,
            updated_by: copy_opt(&self.updated_by),
            version_ts: self.version_ts,
        }
    }
}

/// One immutable snapshot in the history of a configuration entry.
#[derive(Debug, Clone)]
pub struct ConfigHistoryItem {
    pub key: ConfigKey,
    pub content: String,
    pub format: Option<String>,
    pub version_ts: i64,
    pub deleted: bool,
    pub updated_at: i64,
    pub actor: Option<String>,
}

impl ConfigHistoryItem {
    pub fn copied(&self) -> (r: ConfigHistoryItem)
        ensures
            r == *self,
    {
        ConfigHistoryItem {
            key: self.key.copied(),
            content: self.content.clone(),
            format: copy_opt(&self.format),
            version_ts: self.version_ts,
            deleted: self.deleted,
            updated_at: self.updated_at,
            actor: copy_opt(&self.actor),
        }
    }
}

#[derive(Debug, Clone)]
pub struct InstanceId(pub String);

#[derive(Debug, Clone)]
pub struct ServiceName(pub String);

/// One registered endpoint of a service. `last_beat_at` is in epoch seconds;
/// `weight_bits` holds the IEEE-754 bit pattern of the load-balancing weight,
/// which the registry carries without reading it.
#[derive(Debug, Clone)]
pub struct Instance {
    pub id: InstanceId,
    pub ip: String,
    pub port: u16,
    pub service: ServiceName,
    pub group: String,
    pub cluster: String,
    pub weight_bits: u64,
    pub healthy: bool,
    pub metadata: Vec<(String, String)>,
    pub last_beat_at: i64,
}

pub fn copy_metadata(m: &Vec<(String, String)>) -> (r: Vec<(String, String)>)
    ensures
        r@ == m@,
{
    let mut r: Vec<(String, String)> = Vec::new();
    let mut i: usize = 0;
    while i < m.len()
        invariant
            i <= m.len(),
            r@ == m@.subrange(0, i as int),
        decreases m.len() - i,
    {
        let (k, v) = &m[i];
        r.push((k.clone(), v.clone()));
        proof {
            assert(m@.subrange(0, i as int + 1) =~= m@.subrange(0, i as int).push(m@[i as int]));
        }
        i = i + 1;
    }
    proof {
        assert(m@.subrange(0, m@.len() as int) =~= m@);
    }
    r
}

impl Instance {
    pub fn copied(&self) -> (r: Instance)
        ensures
            r.id == self.id,
            r.ip == self.ip,
            r.port == self.port,
            r.service == self.service,
            r.group == self.group,
            r.cluster == self.cluster,
            r.weight_bits == self.weight_bits,
            r.healthy == self.healthy,
            r.metadata@ == self.metadata@,
            r.last_beat_at == self.last_beat_at,
    {
        Instance {
            id: InstanceId(self.id.0.clone()),
            ip: self.ip.clone(),
            port: self.port,
            service: ServiceName(self.service.0.clone()),
            group: self.group.clone(),
            cluster: self.cluster.clone(),
            weight_bits: self.weight_bits,
            healthy: self.healthy,
            metadata: copy_metadata(&self.metadata),
            last_beat_at: self.last_beat_at,
        }
    }
}

/// Metadata of a namespace (a multi-tenancy partition). Times are epoch seconds.
#[derive(Debug, Clone)]
pub struct Namespace {
    pub id: String,
    pub show_name: String,
    pub desc: String,
    pub quota: u32,
    pub created_at: i64,
    pub updated_at: i64,
}

impl Namespace {
    pub fn copied(&self) -> (r: Namespace)
        ensures
            r == *self,
    {
        Namespace {
            id: self.id.clone(),
            show_name: self.show_name.clone(),
            desc: self.desc.clone(),
            quota: self.quota,
            created_at: self.created_at,
            updated_at: self.updated_at,
        }
    }
}

} // verus!

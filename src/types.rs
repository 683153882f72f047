//! Records returned by the container runtime's management API.
use vstd::prelude::*;
use crate::text::str_eq;

verus! {

/// A JSON value that the runtime reports and that this library only carries.
#[verifier::external_type_specification]
#[verifier::external_body]
pub struct ExJsonValue(serde_json::Value);

/// A label mapping as the runtime reports it: key and value, keys unique.
pub type Labels = Vec<(String, String)>;

pub struct Image {
    pub containers: i64,
    pub created: i64,
    pub id: String,
    pub labels: Option<Labels>,
    pub parent_id: String,
    pub repo_digests: Vec<String>,
    pub repo_tags: Vec<String>,
    pub shared_size: i64,
    pub size: i64,
}

pub struct Container {
    pub id: String,
    pub names: Vec<String>,
    pub image: String,
    pub image_id: String,
    pub command: String,
    pub created: i64,
    pub ports: Vec<Port>,
    pub labels: Option<Labels>,
    pub state: String,
    pub status: String,
    pub host_config: HostConfig,
    pub network_settings: NetworkSettings,
    pub mounts: Vec<Mount>,
}

pub struct Port {
    pub ip: Option<String>,
    pub private_port: u16,
    pub public_port: Option<u16>,
    pub port_type: String,
}

pub struct HostConfig {
    pub network_mode: String,
}

pub struct NetworkSettings {
    /// Network name and settings, in the order the runtime reported them.
    pub networks: Vec<(String, Network)>,
}

pub struct Network {
    pub ipam_config: Option<serde_json::Value>,
    pub links: Option<Vec<String>>,
    pub aliases: Option<Vec<String>>,
    pub network_id: String,
    pub endpoint_id: String,
    pub gateway: String,
    pub ip_address: String,
    pub ip_prefix_len: u8,
    pub ipv6_gateway: String,
    pub global_ipv6_address: String,
    pub global_ipv6_prefix_len: u8,
    pub mac_address: String,
    pub driver_opts: Option<Labels>,
}

pub struct Mount {
    pub target: String,
    pub source: String,
    pub mount_type: String,
    pub mode: String,
    pub rw: bool,
    pub propagation: String,
}

/// The value of the first label named `key`, if any.
pub open spec fn label_value(labels: Seq<(String, String)>, key: Seq<char>) -> Option<Seq<char>>
    decreases labels.len(),
{
    if labels.len() == 0 {
        None
    } else if labels[0].0@ == key {
        Some(labels[0].1@)
    } else {
        label_value(labels.drop_first(), key)
    }
}

/// Looks a label up by key.
pub fn find_label<'a>(labels: &'a Vec<(String, String)>, key: &str) -> (r: Option<&'a String>)
    ensures
        match r {
            Some(v) => label_value(labels@, key@) == Some(v@),
            None => label_value(labels@, key@) is None,
        },
{
    let mut i: usize = 0;
    assert(labels@.skip(0) =~= labels@);
    while i < labels.len()
        invariant
            i <= labels@.len(),
            label_value(labels@, key@) == label_value(labels@.skip(i as int), key@),
        decreases labels.len() - i,
    {
        assert(labels@.skip(i as int).drop_first() =~= labels@.skip(i + 1));
        if str_eq(labels[i].0.as_str(), key) {
            return Some(&labels[i].1);
        }
        i = i + 1;
    }
    None
}

} // verus!

//! Volume CRUD request shapes for the two providers.  The HTTP calls
//! themselves are pass-through plumbing outside the library; these
//! are the payloads it prepares.

use vstd::prelude::*;

verus! {

/// Payload for creating a block volume on Vultr.
#[derive(Debug, Clone)]
pub struct VultrVolumeConfig {
    pub region: String,
    pub size_gb: i32,
    pub label: String,
    pub block_type: String,
}

/// Payload for attaching a Vultr block volume to an instance.
#[derive(Debug, Clone)]
pub struct VultrVolumeAttachmentConfig {
    pub instance_id: String,
    pub live: bool,
}

impl VultrVolumeAttachmentConfig {
    pub fn new(instance_id: &str, live: bool) -> (c: VultrVolumeAttachmentConfig)
        ensures
            c.instance_id@ == instance_id@,
            c.live == live,
    {
        VultrVolumeAttachmentConfig { instance_id: instance_id.to_owned(), live }
    }
}

/// Payload for detaching a Vultr block volume.
#[derive(Debug, Clone)]
pub struct VultrVolumeDetachConfig {
    pub live: bool,
}

impl VultrVolumeDetachConfig {
    pub fn new(live: bool) -> (c: VultrVolumeDetachConfig)
        ensures
            c.live == live,
    {
        VultrVolumeDetachConfig { live }
    }
}

/// A block volume as Vultr reports it.
#[derive(Debug, Clone)]
pub struct VultrBlock {
    pub id: String,
    pub date_created: String,
    pub size_gb: i32,
}

/// Payload for creating a volume on Hetzner.
#[derive(Debug, Clone)]
pub struct HetznerVolumeConfig {
    pub automount: bool,
    pub format: String,
    pub labels: Vec<(String, String)>,
    pub location: String,
    pub name: String,
    pub size: i32,
}

/// Payload for resizing a Hetzner volume.
#[derive(Debug, Clone)]
pub struct HetznerVolumeResizeConfig {
    pub size: i32,
}

impl HetznerVolumeResizeConfig {
    pub fn new(size: i32) -> (c: HetznerVolumeResizeConfig)
        ensures
            c.size == size,
    {
        HetznerVolumeResizeConfig { size }
    }
}

/// Payload for attaching a Hetzner volume to a server.
#[derive(Debug, Clone)]
pub struct HetznerVolumeAttachmentConfig {
    pub automount: bool,
    pub server: i32,
}

impl HetznerVolumeAttachmentConfig {
    pub fn new(server: i32, automount: bool) -> (c: HetznerVolumeAttachmentConfig)
        ensures
            c.server == server,
            c.automount == automount,
    {
        HetznerVolumeAttachmentConfig { server, automount }
    }
}

/// A volume as Hetzner reports it.
#[derive(Debug, Clone)]
pub struct HetznerVolume {
    pub id: i32,
    pub name: String,
    pub size: i32,
    pub created: String,
}

/// Which provider a volume lives on.
#[derive(Clone, Copy, Debug, PartialEq, Eq, Structural)]
pub enum VolumeProvider {
    Hetzner,
    Vultr,
}

/// A created volume, with the provider it must be routed back to.
#[derive(Debug, Clone)]
pub struct Volume {
    pub id: String,
    pub provider: VolumeProvider,
}

/// Provider-agnostic volume creation payload.
#[derive(Debug, Clone)]
pub struct VolumeConfig {
    pub region: String,
    pub size_gb: i32,
    pub label: String,
    pub block_type: String,
}

/// The credentials the volume manager is built with.
#[derive(Debug, Clone)]
pub struct VolumeManagerConfig {
    pub hetzner_api_key: String,
    pub vultr_api_key: String,
}

} // verus!

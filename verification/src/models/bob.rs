//! A virtual disk of the cluster as the API reports it, with the state of
//! each of its replicas.

use vstd::prelude::*;
use crate::models::api::{NodeStatus, ReplicaStatus, SpaceInfo, VDiskStatus};

verus! {

/// A replica of a virtual disk: where it lies, and whether it can be reached.
#[derive(Debug, Clone, PartialEq, Eq)]
pub struct Replica {
    pub node: String,
    pub disk: String,
    pub path: String,
    pub status: ReplicaStatus,
}

/// A virtual disk: its id, status, partition count and replicas.
#[derive(Debug, Clone, PartialEq, Eq)]
pub struct VDisk {
    pub id: u64,
    pub status: VDiskStatus,
    pub partition_count: u64,
    pub replicas: Vec<Replica>,
}

/// What the API reports of a node: its name and address, its virtual
/// disks, its status, and, where its metrics and space came, the counts of
/// alien and corrupted blobs and its space.
#[derive(Debug, Clone, PartialEq, Eq)]
pub struct NodeInfo {
    pub name: String,
    pub hostname: String,
    pub vdisks: Vec<VDisk>,
    pub status: NodeStatus,
    pub alien_count: Option<u64>,
    pub corrupted_count: Option<u64>,
    pub space: Option<SpaceInfo>,
}

} // verus!

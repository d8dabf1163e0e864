//! The node DTOs as the web frontend sees them.

use vstd::prelude::*;

verus! {

/// BOB's Node interface
#[derive(Debug, Clone, PartialEq, Eq)]
pub struct DTONode {
    pub name: String,
    pub address: String,
    pub vdisks: Option<Vec<DTOVDisk>>,
}

/// BOB's Node Configuration interface
#[derive(Debug, Clone, PartialEq, Eq)]
pub struct DTONodeConfiguration {
    pub blob_file_name_prefix: Option<String>,
    pub root_dir_name: Option<String>,
}

/// BOB's VDisk interface
#[derive(Debug, Clone, PartialEq, Eq)]
pub struct DTOVDisk {
    pub id: i32,
    pub replicas: Option<Vec<DTOReplica>>,
}

/// BOB's Replica interface
#[derive(Debug, Clone, PartialEq, Eq)]
pub struct DTOReplica {
    pub node: String,
    pub disk: String,
    pub path: String,
}

} // verus!

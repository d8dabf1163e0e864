//! The answers that a BOB node gives to the requests of its REST API, and
//! the errors of a request.

use vstd::prelude::*;
use crate::connector::dto::{
    Dir, DiskState, MetricsSnapshotModel, Node, NodeConfiguration, Partition, SpaceInfo,
    StatusExt, VDisk, VDiskPartitions, VersionInfo,
};

verus! {

/// Errors that happened during API request processing
#[derive(Debug, Clone, Copy, PartialEq, Eq, Structural)]
pub enum APIError {
    /// the request to the specified resource failed
    RequestFailed,
    /// the server received an invalid status code from the node
    InvalidStatusCode(u16),
    /// the response could not be read
    ResponseError,
}

impl APIError {
    /// The status code with which the server answers its own caller for
    /// this error: not found, the node's code, or an internal error.
    pub fn status_code(&self) -> (r: u16)
        ensures
            r == (match *self {
                APIError::RequestFailed => 404u16,
                APIError::InvalidStatusCode(code) => code,
                APIError::ResponseError => 500u16,
            }),
    {
        match self {
            APIError::RequestFailed => 404,
            APIError::InvalidStatusCode(code) => *code,
            APIError::ResponseError => 500,
        }
    }
}

/// The name of the alien node.
#[derive(Debug, PartialEq, Eq)]
pub enum GetAlienResponse {
    /// Alien Node name
    AlienNodeName(String),
}

/// The answer to a request for the directory of aliens.
#[derive(Debug, PartialEq, Eq)]
pub enum GetAlienDirResponse {
    /// Directory
    Directory(Dir),
    /// Permission denied
    PermissionDenied(StatusExt),
    /// Not acceptable backend
    NotAcceptableBackend(StatusExt),
}

/// The answer to a request for the disks of a node.
#[derive(Debug, PartialEq, Eq)]
pub enum GetDisksResponse {
    /// A JSON array with disks and their states
    AJSONArrayWithDisksAndTheirStates(Vec<DiskState>),
    /// Permission denied
    PermissionDenied(StatusExt),
}

/// The answer to a request for the metrics of a node.
#[derive(Debug, PartialEq, Eq)]
pub enum GetMetricsResponse {
    /// Metrics
    Metrics(MetricsSnapshotModel),
}

/// The answer to a request for the nodes that a node knows.
#[derive(Debug, PartialEq, Eq)]
pub enum GetNodesResponse {
    /// A JSON array of nodes info and vdisks on them
    AJSONArrayOfNodesInfoAndVdisksOnThem(Vec<Node>),
    /// Permission denied
    PermissionDenied,
}

/// The answer to a request for a partition.
#[derive(Debug, PartialEq, Eq)]
pub enum GetPartitionResponse {
    /// A JSON with partition info
    AJSONWithPartitionInfo(Partition),
    /// Permission denied
    PermissionDenied(StatusExt),
    /// Not found
    NotFound(StatusExt),
}

/// The answer to a request for the partitions of a virtual disk.
#[derive(Debug, PartialEq, Eq)]
pub enum GetPartitionsResponse {
    /// Node info and JSON array with partitions info
    NodeInfoAndJSONArrayWithPartitionsInfo(VDiskPartitions),
    /// Permission denied
    PermissionDenied(StatusExt),
    /// Not found
    NotFound(StatusExt),
}

/// The answer to a request for the count of records of a virtual disk.
#[derive(Debug, PartialEq, Eq)]
pub enum GetRecordsResponse {
    /// Records count
    RecordsCount(i32),
    /// Permission denied
    PermissionDenied(StatusExt),
    /// Not found
    NotFound(StatusExt),
}

/// The answer to a request for the directories of the local replicas of a virtual disk.
#[derive(Debug, PartialEq, Eq)]
pub enum GetReplicasLocalDirsResponse {
    /// A JSON array with dirs
    AJSONArrayWithDirs(Vec<Dir>),
    /// Permission denied
    PermissionDenied(StatusExt),
    /// Not found
    NotFound(StatusExt),
}

/// The answer to a request for the space of a node.
#[derive(Debug, PartialEq, Eq)]
pub enum GetSpaceInfoResponse {
    /// Space info
    SpaceInfo(SpaceInfo),
}

/// The answer to a request for the status of a node.
#[derive(Debug, PartialEq, Eq)]
pub enum GetStatusResponse {
    /// A JSON with node info
    AJSONWithNodeInfo(Node),
}

/// The answer to a request for a virtual disk.
#[derive(Debug, PartialEq, Eq)]
pub enum GetVDiskResponse {
    /// A JSON with vdisk info
    AJSONWithVdiskInfo(VDisk),
    /// Permission denied
    PermissionDenied(StatusExt),
    /// Not found
    NotFound(StatusExt),
}

/// The answer to a request for the virtual disks.
#[derive(Debug, PartialEq, Eq)]
pub enum GetVDisksResponse {
    /// A JSON array of vdisks info
    AJSONArrayOfVdisksInfo(Vec<VDisk>),
    /// Permission denied
    PermissionDenied,
}

/// The answer to a request for the versions.
#[derive(Debug, PartialEq, Eq)]
pub enum GetVersionResponse {
    /// Version info
    VersionInfo(VersionInfo),
}

/// Returns configuration of the node
#[derive(Debug, PartialEq, Eq)]
pub enum GetConfigurationResponse {
    /// Configuration object
    ConfigurationObject(NodeConfiguration),
    /// Permission denied
    PermissionDenied,
}

} // verus!

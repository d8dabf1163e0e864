//! The status codes with which a node sends its answers, and the error of
//! an answer that was not expected.

use vstd::prelude::*;
use crate::connector::api::{
    APIError, GetAlienResponse, GetAlienDirResponse, GetDisksResponse, GetMetricsResponse,
    GetNodesResponse, GetPartitionResponse, GetRecordsResponse, GetReplicasLocalDirsResponse,
    GetStatusResponse, GetVDiskResponse, GetVDisksResponse, GetVersionResponse,
    GetConfigurationResponse,
};

verus! {

/// An answer that can stand for an error of its status code.
pub trait AsApiError {
    /// The error of an answer that the caller did not expect.
    fn as_invalid_status(self) -> APIError;
}

/// The status code with which a node sends this answer.
pub open spec fn get_alien_response_status(r: GetAlienResponse) -> u16 {
    match r {
        GetAlienResponse::AlienNodeName(_) => 200,
    }
}

impl GetAlienResponse {
    /// The status code with which a node sends this answer.
    pub fn status_code(&self) -> (r: u16)
        ensures
            r == get_alien_response_status(*self),
    {
        match self {
            GetAlienResponse::AlienNodeName(_) => 200,
        }
    }
}

impl AsApiError for GetAlienResponse {
    /// The error of an answer that the caller did not expect: its status code.
    fn as_invalid_status(self) -> (r: APIError)
        ensures
            r == APIError::InvalidStatusCode(get_alien_response_status(self)),
    {
        APIError::InvalidStatusCode(self.status_code())
    }
}

/// The status code with which a node sends this answer.
pub open spec fn get_alien_dir_response_status(r: GetAlienDirResponse) -> u16 {
    match r {
        GetAlienDirResponse::Directory(_) => 200,
        GetAlienDirResponse::PermissionDenied(_) => 403,
        GetAlienDirResponse::NotAcceptableBackend(_) => 406,
    }
}

impl GetAlienDirResponse {
    /// The status code with which a node sends this answer.
    pub fn status_code(&self) -> (r: u16)
        ensures
            r == get_alien_dir_response_status(*self),
    {
        match self {
            GetAlienDirResponse::Directory(_) => 200,
            GetAlienDirResponse::PermissionDenied(_) => 403,
            GetAlienDirResponse::NotAcceptableBackend(_) => 406,
        }
    }
}

impl AsApiError for GetAlienDirResponse {
    /// The error of an answer that the caller did not expect: its status code.
    fn as_invalid_status(self) -> (r: APIError)
        ensures
            r == APIError::InvalidStatusCode(get_alien_dir_response_status(self)),
    {
        APIError::InvalidStatusCode(self.status_code())
    }
}

/// The status code with which a node sends this answer.
pub open spec fn get_disks_response_status(r: GetDisksResponse) -> u16 {
    match r {
        GetDisksResponse::AJSONArrayWithDisksAndTheirStates(_) => 200,
        GetDisksResponse::PermissionDenied(_) => 403,
    }
}

impl GetDisksResponse {
    /// The status code with which a node sends this answer.
    pub fn status_code(&self) -> (r: u16)
        ensures
            r == get_disks_response_status(*self),
    {
        match self {
            GetDisksResponse::AJSONArrayWithDisksAndTheirStates(_) => 200,
            GetDisksResponse::PermissionDenied(_) => 403,
        }
    }
}

impl AsApiError for GetDisksResponse {
    /// The error of an answer that the caller did not expect: its status code.
    fn as_invalid_status(self) -> (r: APIError)
        ensures
            r == APIError::InvalidStatusCode(get_disks_response_status(self)),
    {
        APIError::InvalidStatusCode(self.status_code())
    }
}

/// The status code with which a node sends this answer.
pub open spec fn get_metrics_response_status(r: GetMetricsResponse) -> u16 {
    match r {
        GetMetricsResponse::Metrics(_) => 200,
    }
}

impl GetMetricsResponse {
    /// The status code with which a node sends this answer.
    pub fn status_code(&self) -> (r: u16)
        ensures
            r == get_metrics_response_status(*self),
    {
        match self {
            GetMetricsResponse::Metrics(_) => 200,
        }
    }
}

impl AsApiError for GetMetricsResponse {
    /// The error of an answer that the caller did not expect: its status code.
    fn as_invalid_status(self) -> (r: APIError)
        ensures
            r == APIError::InvalidStatusCode(get_metrics_response_status(self)),
    {
        APIError::InvalidStatusCode(self.status_code())
    }
}

/// The status code with which a node sends this answer.
pub open spec fn get_nodes_response_status(r: GetNodesResponse) -> u16 {
    match r {
        GetNodesResponse::AJSONArrayOfNodesInfoAndVdisksOnThem(_) => 200,
        GetNodesResponse::PermissionDenied => 403,
    }
}

impl GetNodesResponse {
    /// The status code with which a node sends this answer.
    pub fn status_code(&self) -> (r: u16)
        ensures
            r == get_nodes_response_status(*self),
    {
        match self {
            GetNodesResponse::AJSONArrayOfNodesInfoAndVdisksOnThem(_) => 200,
            GetNodesResponse::PermissionDenied => 403,
        }
    }
}

impl AsApiError for GetNodesResponse {
    /// The error of an answer that the caller did not expect: its status code.
    fn as_invalid_status(self) -> (r: APIError)
        ensures
            r == APIError::InvalidStatusCode(get_nodes_response_status(self)),
    {
        APIError::InvalidStatusCode(self.status_code())
    }
}

/// The status code with which a node sends this answer.
pub open spec fn get_partition_response_status(r: GetPartitionResponse) -> u16 {
    match r {
        GetPartitionResponse::AJSONWithPartitionInfo(_) => 200,
        GetPartitionResponse::PermissionDenied(_) => 403,
        GetPartitionResponse::NotFound(_) => 404,
    }
}

impl GetPartitionResponse {
    /// The status code with which a node sends this answer.
    pub fn status_code(&self) -> (r: u16)
        ensures
            r == get_partition_response_status(*self),
    {
        match self {
            GetPartitionResponse::AJSONWithPartitionInfo(_) => 200,
            GetPartitionResponse::PermissionDenied(_) => 403,
            GetPartitionResponse::NotFound(_) => 404,
        }
    }
}

impl AsApiError for GetPartitionResponse {
    /// The error of an answer that the caller did not expect: its status code.
    fn as_invalid_status(self) -> (r: APIError)
        ensures
            r == APIError::InvalidStatusCode(get_partition_response_status(self)),
    {
        APIError::InvalidStatusCode(self.status_code())
    }
}

/// The status code with which a node sends this answer.
pub open spec fn get_records_response_status(r: GetRecordsResponse) -> u16 {
    match r {
        GetRecordsResponse::RecordsCount(_) => 200,
        GetRecordsResponse::PermissionDenied(_) => 403,
        GetRecordsResponse::NotFound(_) => 404,
    }
}

impl GetRecordsResponse {
    /// The status code with which a node sends this answer.
    pub fn status_code(&self) -> (r: u16)
        ensures
            r == get_records_response_status(*self),
    {
        match self {
            GetRecordsResponse::RecordsCount(_) => 200,
            GetRecordsResponse::PermissionDenied(_) => 403,
            GetRecordsResponse::NotFound(_) => 404,
        }
    }
}

impl AsApiError for GetRecordsResponse {
    /// The error of an answer that the caller did not expect: its status code.
    fn as_invalid_status(self) -> (r: APIError)
        ensures
            r == APIError::InvalidStatusCode(get_records_response_status(self)),
    {
        APIError::InvalidStatusCode(self.status_code())
    }
}

/// The status code with which a node sends this answer.
pub open spec fn get_replicas_local_dirs_response_status(r: GetReplicasLocalDirsResponse) -> u16 {
    match r {
        GetReplicasLocalDirsResponse::AJSONArrayWithDirs(_) => 200,
        GetReplicasLocalDirsResponse::PermissionDenied(_) => 403,
        GetReplicasLocalDirsResponse::NotFound(_) => 404,
    }
}

impl GetReplicasLocalDirsResponse {
    /// The status code with which a node sends this answer.
    pub fn status_code(&self) -> (r: u16)
        ensures
            r == get_replicas_local_dirs_response_status(*self),
    {
        match self {
            GetReplicasLocalDirsResponse::AJSONArrayWithDirs(_) => 200,
            GetReplicasLocalDirsResponse::PermissionDenied(_) => 403,
            GetReplicasLocalDirsResponse::NotFound(_) => 404,
        }
    }
}

impl AsApiError for GetReplicasLocalDirsResponse {
    /// The error of an answer that the caller did not expect: its status code.
    fn as_invalid_status(self) -> (r: APIError)
        ensures
            r == APIError::InvalidStatusCode(get_replicas_local_dirs_response_status(self)),
    {
        APIError::InvalidStatusCode(self.status_code())
    }
}

/// The status code with which a node sends this answer.
pub open spec fn get_status_response_status(r: GetStatusResponse) -> u16 {
    match r {
        GetStatusResponse::AJSONWithNodeInfo(_) => 200,
    }
}

impl GetStatusResponse {
    /// The status code with which a node sends this answer.
    pub fn status_code(&self) -> (r: u16)
        ensures
            r == get_status_response_status(*self),
    {
        match self {
            GetStatusResponse::AJSONWithNodeInfo(_) => 200,
        }
    }
}

impl AsApiError for GetStatusResponse {
    /// The error of an answer that the caller did not expect: its status code.
    fn as_invalid_status(self) -> (r: APIError)
        ensures
            r == APIError::InvalidStatusCode(get_status_response_status(self)),
    {
        APIError::InvalidStatusCode(self.status_code())
    }
}

/// The status code with which a node sends this answer.
pub open spec fn get_v_disk_response_status(r: GetVDiskResponse) -> u16 {
    match r {
        GetVDiskResponse::AJSONWithVdiskInfo(_) => 200,
        GetVDiskResponse::PermissionDenied(_) => 403,
        GetVDiskResponse::NotFound(_) => 404,
    }
}

impl GetVDiskResponse {
    /// The status code with which a node sends this answer.
    pub fn status_code(&self) -> (r: u16)
        ensures
            r == get_v_disk_response_status(*self),
    {
        match self {
            GetVDiskResponse::AJSONWithVdiskInfo(_) => 200,
            GetVDiskResponse::PermissionDenied(_) => 403,
            GetVDiskResponse::NotFound(_) => 404,
        }
    }
}

impl AsApiError for GetVDiskResponse {
    /// The error of an answer that the caller did not expect: its status code.
    fn as_invalid_status(self) -> (r: APIError)
        ensures
            r == APIError::InvalidStatusCode(get_v_disk_response_status(self)),
    {
        APIError::InvalidStatusCode(self.status_code())
    }
}

/// The status code with which a node sends this answer.
pub open spec fn get_v_disks_response_status(r: GetVDisksResponse) -> u16 {
    match r {
        GetVDisksResponse::AJSONArrayOfVdisksInfo(_) => 200,
        GetVDisksResponse::PermissionDenied => 403,
    }
}

impl GetVDisksResponse {
    /// The status code with which a node sends this answer.
    pub fn status_code(&self) -> (r: u16)
        ensures
            r == get_v_disks_response_status(*self),
    {
        match self {
            GetVDisksResponse::AJSONArrayOfVdisksInfo(_) => 200,
            GetVDisksResponse::PermissionDenied => 403,
        }
    }
}

impl AsApiError for GetVDisksResponse {
    /// The error of an answer that the caller did not expect: its status code.
    fn as_invalid_status(self) -> (r: APIError)
        ensures
            r == APIError::InvalidStatusCode(get_v_disks_response_status(self)),
    {
        APIError::InvalidStatusCode(self.status_code())
    }
}

/// The status code with which a node sends this answer.
pub open spec fn get_version_response_status(r: GetVersionResponse) -> u16 {
    match r {
        GetVersionResponse::VersionInfo(_) => 200,
    }
}

impl GetVersionResponse {
    /// The status code with which a node sends this answer.
    pub fn status_code(&self) -> (r: u16)
        ensures
            r == get_version_response_status(*self),
    {
        match self {
            GetVersionResponse::VersionInfo(_) => 200,
        }
    }
}

impl AsApiError for GetVersionResponse {
    /// The error of an answer that the caller did not expect: its status code.
    fn as_invalid_status(self) -> (r: APIError)
        ensures
            r == APIError::InvalidStatusCode(get_version_response_status(self)),
    {
        APIError::InvalidStatusCode(self.status_code())
    }
}

/// The status code with which a node sends this answer.
pub open spec fn get_configuration_response_status(r: GetConfigurationResponse) -> u16 {
    match r {
        GetConfigurationResponse::ConfigurationObject(_) => 200,
        GetConfigurationResponse::PermissionDenied => 403,
    }
}

impl GetConfigurationResponse {
    /// The status code with which a node sends this answer.
    pub fn status_code(&self) -> (r: u16)
        ensures
            r == get_configuration_response_status(*self),
    {
        match self {
            GetConfigurationResponse::ConfigurationObject(_) => 200,
            GetConfigurationResponse::PermissionDenied => 403,
        }
    }
}

impl AsApiError for GetConfigurationResponse {
    /// The error of an answer that the caller did not expect: its status code.
    fn as_invalid_status(self) -> (r: APIError)
        ensures
            r == APIError::InvalidStatusCode(get_configuration_response_status(self)),
    {
        APIError::InvalidStatusCode(self.status_code())
    }
}

} // verus!

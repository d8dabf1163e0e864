use bob_management::connector::api::{
    APIError, GetConfigurationResponse, GetDisksResponse, GetMetricsResponse, GetNodesResponse, GetPartitionsResponse,
    GetSpaceInfoResponse, GetVDisksResponse,
};
use bob_management::services::methods::{fetch_configuration, fetch_disks, fetch_nodes, fetch_vdisks};
use bob_management::connector::dto::{
    DiskState, MetricsEntryModel, MetricsSnapshotModel, Node, Replica as ReplicaInfo, SpaceInfo as SpaceReport, StatusExt,
    VDisk as VDiskInfo, VDiskPartitions,
};
use bob_management::models::api::{DiskCount, DiskStatusName, NodeCount, NodeStatusName, ReplicaProblem, ReplicaStatus, SpaceInfo, VDiskStatus};
use bob_management::services::api::{add_space, count_disks, count_node};
use bob_management::services::auth::{AuthData, AuthStore, BobUser, InMemorySessionStore, Store};
use bob_management::services::methods::{find_vdisk, partition_count, replica_nodes, ReplicaTable};
use bob_management::services::APIError as ServiceError;
use bob_management::models::api::{NodeProblem, NodeStatus};
use bob_management::services::api::{node_info, node_status};
use bob_management::models::bob::VDisk as NodeVDisk;
use bob_management::connector::ClientError;
use bob_management::services::auth::{login_answer, login_failure_code};

fn space(total: u64, free: u64, disks: &[(&str, u64)]) -> SpaceReport {
    SpaceReport {
        total_disk_space_bytes: total,
        free_disk_space_bytes: free,
        used_disk_space_bytes: total - free,
        occupied_disk_space_bytes: 1,
        occupied_disk_space_by_disk: disks.iter().map(|(k, v)| (k.to_string(), *v)).collect(),
    }
}

fn disk(name: &str, active: bool) -> DiskState {
    DiskState::new(name.to_string(), format!("/{name}"), active)
}

#[test]
fn disks_are_counted_by_status() {
    let mut count = DiskCount::new();
    let disks = vec![disk("a", true), disk("b", true), disk("c", false), disk("d", true)];
    let report = space(100, 50, &[("a", 10), ("b", 95)]);
    count_disks(&mut count, Some((Ok(GetDisksResponse::AJSONArrayWithDisksAndTheirStates(disks)), Ok(GetSpaceInfoResponse::SpaceInfo(report)))));
    assert_eq!(*count.get(DiskStatusName::Good), 1);
    assert_eq!(*count.get(DiskStatusName::Bad), 1);
    assert_eq!(*count.get(DiskStatusName::Offline), 2);
    let more = vec![disk("e", false), disk("f", true)];
    let report = space(100, 50, &[("f", 10)]);
    count_disks(&mut count, Some((Ok(GetDisksResponse::AJSONArrayWithDisksAndTheirStates(more)), Ok(GetSpaceInfoResponse::SpaceInfo(report)))));
    assert_eq!(*count.get(DiskStatusName::Good), 2);
    assert_eq!(*count.get(DiskStatusName::Bad), 1);
    assert_eq!(*count.get(DiskStatusName::Offline), 3);
}

#[test]
fn refused_disks_count_one_offline() {
    let mut count = DiskCount::new();
    count_disks(&mut count, Some((Ok(GetDisksResponse::PermissionDenied(StatusExt::new())), Ok(GetSpaceInfoResponse::SpaceInfo(space(1, 1, &[]))))));
    count_disks(&mut count, Some((Err(APIError::RequestFailed), Ok(GetSpaceInfoResponse::SpaceInfo(space(1, 1, &[]))))));
    assert_eq!(*count.get(DiskStatusName::Offline), 2);
    count_disks(&mut count, Some((Err(APIError::RequestFailed), Err(APIError::ResponseError))));
    count_disks(&mut count, None);
    assert_eq!(*count.get(DiskStatusName::Offline), 2);
}

fn metrics(pairs: &[(&str, u64)]) -> MetricsSnapshotModel {
    MetricsSnapshotModel {
        metrics: pairs.iter().map(|(k, v)| (format!("\"{k}\""), MetricsEntryModel { value: *v, timestamp: 0 })).collect(),
    }
}

#[test]
fn nodes_are_counted_once_each() {
    let mut count = NodeCount::new();
    count_node(&mut count, Some(Ok(GetMetricsResponse::Metrics(metrics(&[("hardware.total_space", 10), ("hardware.free_space", 5)])))));
    count_node(&mut count, Some(Ok(GetMetricsResponse::Metrics(metrics(&[("backend.alien_count", 1)])))));
    count_node(&mut count, Some(Err(APIError::RequestFailed)));
    count_node(&mut count, None);
    assert_eq!(*count.get(NodeStatusName::Good), 1);
    assert_eq!(*count.get(NodeStatusName::Bad), 1);
    assert_eq!(*count.get(NodeStatusName::Offline), 2);
}

#[test]
fn space_is_summed() {
    let mut total = SpaceInfo::default();
    add_space(&mut total, Some(Ok(GetSpaceInfoResponse::SpaceInfo(space(100, 40, &[])))));
    add_space(&mut total, Some(Ok(GetSpaceInfoResponse::SpaceInfo(space(50, 50, &[])))));
    add_space(&mut total, Some(Err(APIError::RequestFailed)));
    assert_eq!(total, SpaceInfo { total_disk: 150, free_disk: 90, used_disk: 60, occupied_disk: 2 });
}

fn replica(node: &str, disk: &str) -> ReplicaInfo {
    ReplicaInfo::new(node.to_string(), disk.to_string(), format!("/{node}/{disk}"))
}

#[test]
fn vdisk_lookup_and_nodes() {
    let mut v1 = VDiskInfo::new(1);
    v1.replicas = Some(vec![replica("n1", "d1"), replica("n2", "d1"), replica("n1", "d2")]);
    let v2 = VDiskInfo::new(-1);
    let list = vec![v1.clone(), v2];
    assert_eq!(find_vdisk(&list, 1), Some(0));
    assert_eq!(find_vdisk(&list, u64::MAX), Some(1));
    assert_eq!(find_vdisk(&list, 7), None);
    assert_eq!(replica_nodes(&v1), vec!["n1".to_string(), "n2".to_string()]);
}

#[test]
fn partition_count_of_first_node() {
    let mut parts = VDiskPartitions::new();
    parts.partitions = Some(vec!["p1".to_string(), "p2".to_string(), "p3".to_string()]);
    assert_eq!(partition_count(Some(Ok(GetPartitionsResponse::NodeInfoAndJSONArrayWithPartitionsInfo(parts)))), 3);
    assert_eq!(partition_count(Some(Ok(GetPartitionsResponse::NotFound(StatusExt::new())))), 0);
    assert_eq!(partition_count(Some(Err(APIError::RequestFailed))), 0);
    assert_eq!(partition_count(None), 0);
}

#[test]
fn replica_states_from_node_answers() {
    let mut v = VDiskInfo::new(5);
    v.replicas = Some(vec![replica("n1", "d1"), replica("n2", "d2")]);
    let mut table = ReplicaTable::from_vdisk(&v);
    let untouched = ReplicaTable::from_vdisk(&v).into_vdisk(5, 0);
    assert_eq!(untouched.status, VDiskStatus::Offline);
    assert_eq!(untouched.replicas.len(), 2);
    assert_eq!(untouched.replicas[0].status, ReplicaStatus::Offline(vec![ReplicaProblem::NodeUnavailable]));

    table.apply_node("n1", &vec![disk("d1", true)]);
    let vd = table.into_vdisk(5, 4);
    assert_eq!(vd.id, 5);
    assert_eq!(vd.partition_count, 4);
    assert_eq!(vd.status, VDiskStatus::Bad);
    let d1 = vd.replicas.iter().find(|r| r.disk == "d1").unwrap();
    assert_eq!(d1.status, ReplicaStatus::Good);
    assert_eq!(d1.path, "/d1");

    let mut all = ReplicaTable::from_vdisk(&v);
    all.apply_node("n1", &vec![disk("d1", true)]);
    all.apply_node("n2", &vec![disk("d2", true), disk("d3", false)]);
    let vd = all.into_vdisk(5, 0);
    assert_eq!(vd.replicas.len(), 3);
    assert_eq!(vd.status, VDiskStatus::Bad);
    let d3 = vd.replicas.iter().find(|r| r.disk == "d3").unwrap();
    assert_eq!(d3.status, ReplicaStatus::Offline(vec![ReplicaProblem::DiskUnavailable]));
}

#[test]
fn store_gives_back_what_was_saved() {
    let mut store: InMemorySessionStore<String> = InMemorySessionStore::new();
    assert_eq!(store.load(&1), Ok(None));
    assert_eq!(store.save(1, "a".to_string()), Ok(None));
    assert_eq!(store.save(2, "b".to_string()), Ok(None));
    assert_eq!(store.save(1, "c".to_string()), Ok(Some("a".to_string())));
    assert_eq!(store.load(&1), Ok(Some("c".to_string())));
    assert_eq!(store.load(&2), Ok(Some("b".to_string())));
}

#[test]
fn login_and_logout() {
    let mut users: InMemorySessionStore<BobUser> = InMemorySessionStore::new();
    users.save(7, BobUser::for_credentials(None)).unwrap();
    let mut auth: AuthStore<BobUser> = AuthStore::from_session(None, &users);
    assert!(auth.user().is_none());
    auth.login(&users, 8).unwrap();
    assert!(auth.user().is_none());
    auth.login(&users, 7).unwrap();
    assert_eq!(auth.user().unwrap().login(), "Unknown");
    assert_eq!(*auth.session_data().user_id(), Some(7));
    let mut clients: InMemorySessionStore<u32> = InMemorySessionStore::new();
    clients.save(7, 99).unwrap();
    assert_eq!(auth.authorized_client(&clients), Some(99));
    auth.logout().unwrap();
    assert!(auth.user().is_none());
    assert_eq!(auth.authorized_client(&clients), None);
}

#[test]
fn session_refresh_forgets_removed_users() {
    let users: InMemorySessionStore<BobUser> = InMemorySessionStore::new();
    let data = AuthData::new(Some(BobUser::new("old".to_string())), Some(3u128));
    let auth = AuthStore::from_session(Some(data), &users);
    assert!(auth.user().is_none());
    assert_eq!(*auth.session_data().user_id(), Some(3));
}

#[test]
fn service_error_responses() {
    assert_eq!(ServiceError::RequestFailed.response(), (404, Some("The request to the specified resource failed")));
    assert_eq!(ServiceError::InvalidStatusCode(403).response(), (403, None));
}

#[test]
fn fetched_answers() {
    assert_eq!(fetch_vdisks(Ok(GetVDisksResponse::AJSONArrayOfVdisksInfo(vec![VDiskInfo::new(1)]))), Ok(vec![VDiskInfo::new(1)]));
    assert_eq!(fetch_vdisks(Ok(GetVDisksResponse::PermissionDenied)), Err(ServiceError::InvalidStatusCode(403)));
    assert_eq!(fetch_nodes(Ok(GetNodesResponse::PermissionDenied)), Err(ServiceError::InvalidStatusCode(403)));
    assert_eq!(fetch_configuration(Ok(GetConfigurationResponse::PermissionDenied)), Err(ServiceError::InvalidStatusCode(403)));
    assert_eq!(fetch_disks(Err(APIError::ResponseError)), Err(ServiceError::RequestFailed));
}

#[test]
fn node_status_needs_both_answers() {
    let good = metrics(&[("hardware.total_space", 10), ("hardware.free_space", 5)]);
    let space_answer = || Some(Ok(GetSpaceInfoResponse::SpaceInfo(space(10, 5, &[]))));
    assert_eq!(node_status(Some(Ok(GetMetricsResponse::Metrics(good.clone()))), space_answer()), NodeStatus::Good);
    assert_eq!(node_status(Some(Ok(GetMetricsResponse::Metrics(good))), Some(Err(APIError::RequestFailed))), NodeStatus::Offline);
    let bad = metrics(&[("hardware.bob_cpu_load", 95)]);
    assert_eq!(node_status(Some(Ok(GetMetricsResponse::Metrics(bad))), space_answer()), NodeStatus::Bad(vec![NodeProblem::HighCPULoad]));
    assert_eq!(node_status(None, space_answer()), NodeStatus::Offline);
}

#[test]
fn login_codes() {
    assert_eq!(login_failure_code(ClientError::InitClient), 400);
    assert_eq!(login_failure_code(ClientError::Inaccessible), 404);
    assert_eq!(login_failure_code(ClientError::PermissionDenied), 401);
    assert_eq!(login_failure_code(ClientError::BadUri), 500);
    assert_eq!(login_answer(Ok(200)), (200, true));
    assert_eq!(login_answer(Err(ClientError::PermissionDenied)), (401, false));
}

#[test]
fn node_information() {
    let status = Node::new("n1".to_string(), "10.0.0.2:20000".to_string());
    let m = metrics(&[("hardware.total_space", 10), ("hardware.free_space", 5), ("backend.alien_count", 3), ("backend.corrupted_blob_count", 2)]);
    let vdisks = vec![NodeVDisk { id: 4, status: VDiskStatus::Good, partition_count: 1, replicas: vec![] }];
    let info = node_info(
        status.clone(),
        Some(Ok(GetMetricsResponse::Metrics(m))),
        Some(Ok(GetSpaceInfoResponse::SpaceInfo(space(100, 40, &[])))),
        vdisks.clone(),
    );
    assert_eq!(info.name, "n1");
    assert_eq!(info.hostname, "10.0.0.2:20000");
    assert_eq!(info.vdisks, vdisks);
    assert_eq!(info.status, NodeStatus::Bad(vec![NodeProblem::AliensExists, NodeProblem::CorruptedExists]));
    assert_eq!(info.alien_count, Some(3));
    assert_eq!(info.corrupted_count, Some(2));
    assert_eq!(info.space, Some(SpaceInfo { total_disk: 100, free_disk: 40, used_disk: 60, occupied_disk: 1 }));
    let offline = node_info(status, None, Some(Ok(GetSpaceInfoResponse::SpaceInfo(space(100, 40, &[])))), vec![]);
    assert_eq!(offline.status, NodeStatus::Offline);
    assert_eq!(offline.alien_count, None);
    assert_eq!(offline.corrupted_count, None);
    assert_eq!(offline.space, None);
    let odd = metrics(&[("hardware.total_space", 5), ("hardware.free_space", 10)]);
    let status = Node::new("n2".to_string(), "10.0.0.3:20000".to_string());
    let unreported = node_info(status, Some(Ok(GetMetricsResponse::Metrics(odd.clone()))), Some(Err(APIError::RequestFailed)), vec![]);
    assert_eq!(unreported.status, NodeStatus::Offline);
    assert_eq!(unreported.alien_count, None);
    assert_eq!(unreported.space, None);
    assert_eq!(node_status(Some(Ok(GetMetricsResponse::Metrics(odd))), None), NodeStatus::Offline);
}

//! How the API describes a virtual disk from the list of virtual disks and
//! the answers of the nodes that hold its replicas.

use vstd::prelude::*;
use crate::connector::api::{
    APIError, GetConfigurationResponse, GetDisksResponse, GetMetricsResponse, GetNodesResponse, GetPartitionsResponse,
    GetSpaceInfoResponse, GetStatusResponse, GetVDisksResponse,
};
use crate::connector::dto::{
    DiskState, MetricsSnapshotModel, Node, NodeConfiguration, Replica as ReplicaInfo, SpaceInfo as SpaceReport,
    VDisk as VDiskInfo,
};
use crate::services::APIError as ServiceError;
use crate::form::text_eq;
use crate::models::api::{ReplicaProblem, ReplicaStatus, VDiskStatus};
use crate::models::bob::{Replica, VDisk};

verus! {

/// The metrics of a node from its answer; a failed request fails.
pub fn fetch_metrics(answer: Result<GetMetricsResponse, APIError>) -> (r: Result<MetricsSnapshotModel, ServiceError>)
    ensures
        match answer {
            Ok(GetMetricsResponse::Metrics(m)) => r == Ok::<MetricsSnapshotModel, ServiceError>(m),
            Err(_) => r == Err::<MetricsSnapshotModel, ServiceError>(ServiceError::RequestFailed),
        },
{
    match answer {
        Ok(GetMetricsResponse::Metrics(m)) => Ok(m),
        Err(_) => Err(ServiceError::RequestFailed),
    }
}

/// The virtual disks from a node's answer; a failed request fails, and a
/// refusal is an error of the code 403.
pub fn fetch_vdisks(answer: Result<GetVDisksResponse, APIError>) -> (r: Result<Vec<VDiskInfo>, ServiceError>)
    ensures
        match answer {
            Ok(GetVDisksResponse::AJSONArrayOfVdisksInfo(v)) => r == Ok::<Vec<VDiskInfo>, ServiceError>(v),
            Ok(GetVDisksResponse::PermissionDenied) => r == Err::<Vec<VDiskInfo>, ServiceError>(ServiceError::InvalidStatusCode(403)),
            Err(_) => r == Err::<Vec<VDiskInfo>, ServiceError>(ServiceError::RequestFailed),
        },
{
    match answer {
        Ok(GetVDisksResponse::AJSONArrayOfVdisksInfo(v)) => Ok(v),
        Ok(GetVDisksResponse::PermissionDenied) => Err(ServiceError::InvalidStatusCode(403)),
        Err(_) => Err(ServiceError::RequestFailed),
    }
}

/// The space of a node from its answer; a failed request fails.
pub fn fetch_space_info(answer: Result<GetSpaceInfoResponse, APIError>) -> (r: Result<SpaceReport, ServiceError>)
    ensures
        match answer {
            Ok(GetSpaceInfoResponse::SpaceInfo(s)) => r == Ok::<SpaceReport, ServiceError>(s),
            Err(_) => r == Err::<SpaceReport, ServiceError>(ServiceError::RequestFailed),
        },
{
    match answer {
        Ok(GetSpaceInfoResponse::SpaceInfo(s)) => Ok(s),
        Err(_) => Err(ServiceError::RequestFailed),
    }
}

/// The status of a node from its answer; a failed request fails.
pub fn fetch_node_status(answer: Result<GetStatusResponse, APIError>) -> (r: Result<Node, ServiceError>)
    ensures
        match answer {
            Ok(GetStatusResponse::AJSONWithNodeInfo(n)) => r == Ok::<Node, ServiceError>(n),
            Err(_) => r == Err::<Node, ServiceError>(ServiceError::RequestFailed),
        },
{
    match answer {
        Ok(GetStatusResponse::AJSONWithNodeInfo(n)) => Ok(n),
        Err(_) => Err(ServiceError::RequestFailed),
    }
}

/// The disks of a node from its answer; a failed request fails, and a
/// refusal is an error of the code 403.
pub fn fetch_disks(answer: Result<GetDisksResponse, APIError>) -> (r: Result<Vec<DiskState>, ServiceError>)
    ensures
        match answer {
            Ok(GetDisksResponse::AJSONArrayWithDisksAndTheirStates(d)) => r == Ok::<Vec<DiskState>, ServiceError>(d),
            Ok(GetDisksResponse::PermissionDenied(_)) => r == Err::<Vec<DiskState>, ServiceError>(ServiceError::InvalidStatusCode(403)),
            Err(_) => r == Err::<Vec<DiskState>, ServiceError>(ServiceError::RequestFailed),
        },
{
    match answer {
        Ok(GetDisksResponse::AJSONArrayWithDisksAndTheirStates(d)) => Ok(d),
        Ok(GetDisksResponse::PermissionDenied(_)) => Err(ServiceError::InvalidStatusCode(403)),
        Err(_) => Err(ServiceError::RequestFailed),
    }
}

/// The configuration of a node from its answer; a failed request fails,
/// and a refusal is an error of the code 403.
pub fn fetch_configuration(answer: Result<GetConfigurationResponse, APIError>) -> (r: Result<NodeConfiguration, ServiceError>)
    ensures
        match answer {
            Ok(GetConfigurationResponse::ConfigurationObject(c)) => r == Ok::<NodeConfiguration, ServiceError>(c),
            Ok(GetConfigurationResponse::PermissionDenied) => r == Err::<NodeConfiguration, ServiceError>(ServiceError::InvalidStatusCode(403)),
            Err(_) => r == Err::<NodeConfiguration, ServiceError>(ServiceError::RequestFailed),
        },
{
    match answer {
        Ok(GetConfigurationResponse::ConfigurationObject(c)) => Ok(c),
        Ok(GetConfigurationResponse::PermissionDenied) => Err(ServiceError::InvalidStatusCode(403)),
        Err(_) => Err(ServiceError::RequestFailed),
    }
}

/// The nodes that a node knows, from its answer; a failed request fails,
/// and a refusal is an error of the code 403.
pub fn fetch_nodes(answer: Result<GetNodesResponse, APIError>) -> (r: Result<Vec<Node>, ServiceError>)
    ensures
        match answer {
            Ok(GetNodesResponse::AJSONArrayOfNodesInfoAndVdisksOnThem(n)) => r == Ok::<Vec<Node>, ServiceError>(n),
            Ok(GetNodesResponse::PermissionDenied) => r == Err::<Vec<Node>, ServiceError>(ServiceError::InvalidStatusCode(403)),
            Err(_) => r == Err::<Vec<Node>, ServiceError>(ServiceError::RequestFailed),
        },
{
    match answer {
        Ok(GetNodesResponse::AJSONArrayOfNodesInfoAndVdisksOnThem(n)) => Ok(n),
        Ok(GetNodesResponse::PermissionDenied) => Err(ServiceError::InvalidStatusCode(403)),
        Err(_) => Err(ServiceError::RequestFailed),
    }
}

/// The first virtual disk with this id, ids compared as `u64`.
pub fn find_vdisk(vdisks: &Vec<VDiskInfo>, vdisk_id: u64) -> (r: Option<usize>)
    ensures
        match r {
            Some(i) => i < vdisks@.len() && vdisks@[i as int].id as u64 == vdisk_id && forall|j: int|
                0 <= j < i ==> #[trigger] vdisks@[j].id as u64 != vdisk_id,
            None => forall|j: int| 0 <= j < vdisks@.len() ==> #[trigger] vdisks@[j].id as u64 != vdisk_id,
        },
{
    let mut i: usize = 0;
    while i < vdisks.len()
        invariant
            0 <= i <= vdisks.len(),
            forall|j: int| 0 <= j < i ==> #[trigger] vdisks@[j].id as u64 != vdisk_id,
        decreases vdisks.len() - i,
    {
        if vdisks[i].id as u64 == vdisk_id {
            return Some(i);
        }
        i = i + 1;
    }
    None
}

/// The replicas that a virtual disk lists; none where it lists none.
pub open spec fn listed_replicas(v: VDiskInfo) -> Seq<ReplicaInfo> {
    match v.replicas {
        Some(r) => r@,
        None => Seq::<ReplicaInfo>::empty(),
    }
}

/// Some replica of the list lies on this node.
pub open spec fn lists_node(reps: Seq<ReplicaInfo>, node: Seq<char>) -> bool {
    exists|k: int| 0 <= k < reps.len() && (#[trigger] reps[k]).node@ == node
}

/// One of the names is this node's.
pub open spec fn names_node(names: Seq<String>, node: Seq<char>) -> bool {
    exists|i: int| 0 <= i < names.len() && names[i]@ == node
}

/// The nodes that hold a replica of a virtual disk, each once; the order
/// is left open, as a set would give them.
pub fn replica_nodes(vdisk: &VDiskInfo) -> (r: Vec<String>)
    ensures
        forall|i: int, j: int| 0 <= i < j < r@.len() ==> r@[i]@ != r@[j]@,
        forall|i: int| 0 <= i < r@.len() ==> lists_node(listed_replicas(*vdisk), #[trigger] r@[i]@),
        forall|k: int| 0 <= k < listed_replicas(*vdisk).len() ==> names_node(r@, (#[trigger] listed_replicas(*vdisk)[k]).node@),
{
    let mut nodes: Vec<String> = Vec::new();
    match &vdisk.replicas {
        Some(reps) => {
            let ghost l = listed_replicas(*vdisk);
            let mut k: usize = 0;
            while k < reps.len()
                invariant
                    l == reps@,
                    0 <= k <= reps.len(),
                    forall|i: int, j: int| 0 <= i < j < nodes@.len() ==> nodes@[i]@ != nodes@[j]@,
                    forall|i: int| 0 <= i < nodes@.len() ==> lists_node(l, #[trigger] nodes@[i]@),
                    forall|m: int| 0 <= m < k ==> exists|i: int| 0 <= i < nodes@.len() && nodes@[i]@ == (#[trigger] l[m]).node@,
                decreases reps.len() - k,
            {
                let name = &reps[k].node;
                let mut i: usize = 0;
                let mut seen = false;
                while i < nodes.len()
                    invariant
                        0 <= i <= nodes.len(),
                        seen ==> exists|x: int| 0 <= x < nodes@.len() && nodes@[x]@ == name@,
                        !seen ==> forall|x: int| 0 <= x < i ==> nodes@[x]@ != name@,
                    decreases nodes.len() - i,
                {
                    if text_eq(nodes[i].as_str(), name.as_str()) {
                        seen = true;
                    }
                    i = i + 1;
                }
                assert(l[k as int].node@ == name@);
                let ghost before = nodes@;
                if !seen {
                    nodes.push(name.clone());
                    proof {
                        assert(lists_node(l, nodes@[nodes@.len() - 1]@));
                        assert forall|m: int| 0 <= m < k + 1 implies exists|i: int| 0 <= i < nodes@.len() && nodes@[i]@ == (#[trigger] l[m]).node@ by {
                            if m < k {
                                let i = choose|i: int| 0 <= i < before.len() && before[i]@ == l[m].node@;
                                assert(nodes@[i] == before[i]);
                            } else {
                                assert(nodes@[before.len() as int]@ == l[m].node@);
                            }
                        }
                    }
                }
                k = k + 1;
            }
            assert forall|m: int| 0 <= m < l.len() implies exists|i: int| 0 <= i < nodes@.len()
                && nodes@[i]@ == (#[trigger] l[m]).node@ by {
                let x = l[m];
                assert(m < k);
            }
        },
        None => {},
    }
    proof {
        let l = listed_replicas(*vdisk);
        assert forall|m: int| 0 <= m < l.len() implies names_node(nodes@, (#[trigger] l[m]).node@) by {
            let x = l[m];
            assert(vdisk.replicas is Some);
        }
    }
    nodes
}

/// The count of partitions that the first node holding a replica reports;
/// zero where there is no such node, its request failed or it refused.
pub fn partition_count(answer: Option<Result<GetPartitionsResponse, APIError>>) -> (r: u64)
    ensures
        r == (match answer {
            Some(Ok(GetPartitionsResponse::NodeInfoAndJSONArrayWithPartitionsInfo(parts))) => match parts.partitions {
                Some(p) => p@.len() as u64,
                None => 0u64,
            },
            _ => 0u64,
        }),
{
    match answer {
        Some(Ok(GetPartitionsResponse::NodeInfoAndJSONArrayWithPartitionsInfo(parts))) => match parts.partitions {
            Some(p) => p.len() as u64,
            None => 0,
        },
        _ => 0,
    }
}

/// The key of a replica: its disk and its node.
pub open spec fn replica_key(r: Replica) -> (Seq<char>, Seq<char>) {
    (r.disk@, r.node@)
}

/// The problems of a replica's status; `None` when it is good.
pub open spec fn status_view(s: ReplicaStatus) -> Option<Seq<ReplicaProblem>> {
    match s {
        ReplicaStatus::Good => None,
        ReplicaStatus::Offline(p) => Some(p@),
    }
}

/// What the table holds for a replica: its path and its problems.
pub open spec fn replica_value(r: Replica) -> (Seq<char>, Option<Seq<ReplicaProblem>>) {
    (r.path@, status_view(r.status))
}

/// The replicas by key, later ones replacing earlier ones with the same key.
pub open spec fn replicas_map(rs: Seq<Replica>) -> Map<(Seq<char>, Seq<char>), (Seq<char>, Option<Seq<ReplicaProblem>>)>
    decreases rs.len(),
{
    if rs.len() == 0 {
        Map::empty()
    } else {
        replicas_map(rs.drop_last()).insert(replica_key(rs.last()), replica_value(rs.last()))
    }
}

/// No two replicas have the same key.
pub open spec fn keys_unique(rs: Seq<Replica>) -> bool {
    forall|i: int, j: int| 0 <= i < j < rs.len() ==> replica_key(rs[i]) != replica_key(rs[j])
}

/// A map with entries inserted in order, later ones replacing earlier ones.
pub open spec fn insert_all(
    m: Map<(Seq<char>, Seq<char>), (Seq<char>, Option<Seq<ReplicaProblem>>)>,
    es: Seq<((Seq<char>, Seq<char>), (Seq<char>, Option<Seq<ReplicaProblem>>))>,
) -> Map<(Seq<char>, Seq<char>), (Seq<char>, Option<Seq<ReplicaProblem>>)>
    decreases es.len(),
{
    if es.len() == 0 {
        m
    } else {
        insert_all(m, es.drop_last()).insert(es.last().0, es.last().1)
    }
}

/// The entry of a listed replica before any node answers: its node is unavailable.
pub open spec fn listed_entry(r: ReplicaInfo) -> ((Seq<char>, Seq<char>), (Seq<char>, Option<Seq<ReplicaProblem>>)) {
    ((r.disk@, r.node@), (r.path@, Some(seq![ReplicaProblem::NodeUnavailable])))
}

/// The entry of a disk of a node that answered: good when it is active,
/// else its disk is unavailable.
pub open spec fn disk_entry(node: Seq<char>, d: DiskState) -> ((Seq<char>, Seq<char>), (Seq<char>, Option<Seq<ReplicaProblem>>)) {
    (
        (d.name@, node),
        (d.path@, if d.is_active {
            None
        } else {
            Some(seq![ReplicaProblem::DiskUnavailable])
        }),
    )
}

/// How many replicas are offline.
pub open spec fn offline_count(rs: Seq<Replica>) -> nat
    decreases rs.len(),
{
    if rs.len() == 0 {
        0
    } else {
        offline_count(rs.drop_last()) + (if rs.last().status is Offline {
            1nat
        } else {
            0nat
        })
    }
}

/// The status of a virtual disk with these replicas: good when none is
/// offline, offline when all are, else bad.
pub open spec fn vdisk_status_of(rs: Seq<Replica>) -> VDiskStatus {
    if offline_count(rs) == 0 {
        VDiskStatus::Good
    } else if offline_count(rs) == rs.len() {
        VDiskStatus::Offline
    } else {
        VDiskStatus::Bad
    }
}

proof fn lemma_offline_count(rs: Seq<Replica>)
    ensures
        offline_count(rs) <= rs.len(),
        offline_count(rs) == 0 <==> forall|i: int| 0 <= i < rs.len() ==> (#[trigger] rs[i]).status is Good,
        offline_count(rs) == rs.len() <==> forall|i: int| 0 <= i < rs.len() ==> (#[trigger] rs[i]).status is Offline,
    decreases rs.len(),
{
    if rs.len() > 0 {
        let d = rs.drop_last();
        lemma_offline_count(d);
        assert forall|i: int| 0 <= i < d.len() implies d[i] == rs[i] by {}
        assert(rs.last() == rs[rs.len() - 1]);
        if forall|i: int| 0 <= i < rs.len() ==> (#[trigger] rs[i]).status is Good {
            assert forall|i: int| 0 <= i < d.len() implies (#[trigger] d[i]).status is Good by {
                assert(d[i] == rs[i]);
            }
        }
        if forall|i: int| 0 <= i < rs.len() ==> (#[trigger] rs[i]).status is Offline {
            assert forall|i: int| 0 <= i < d.len() implies (#[trigger] d[i]).status is Offline by {
                assert(d[i] == rs[i]);
            }
        }
        if forall|i: int| 0 <= i < d.len() ==> (#[trigger] d[i]).status is Good {
            if rs.last().status is Good {
                assert forall|i: int| 0 <= i < rs.len() implies (#[trigger] rs[i]).status is Good by {
                    if i < d.len() {
                        assert(d[i] == rs[i]);
                    }
                }
            }
        }
        if forall|i: int| 0 <= i < d.len() ==> (#[trigger] d[i]).status is Offline {
            if rs.last().status is Offline {
                assert forall|i: int| 0 <= i < rs.len() implies (#[trigger] rs[i]).status is Offline by {
                    if i < d.len() {
                        assert(d[i] == rs[i]);
                    }
                }
            }
        }
    }
}

/// A virtual disk is good exactly when none of its replicas is offline, and
/// offline exactly when it has replicas and all of them are offline; else,
/// with some replica offline and some not, it is bad.
pub proof fn lemma_vdisk_status_meaning(rs: Seq<Replica>)
    ensures
        vdisk_status_of(rs) == VDiskStatus::Good <==> forall|i: int| 0 <= i < rs.len() ==> (#[trigger] rs[i]).status is Good,
        vdisk_status_of(rs) == VDiskStatus::Offline <==> rs.len() > 0 && forall|i: int| 0 <= i < rs.len() ==> (#[trigger] rs[i]).status is Offline,
        vdisk_status_of(rs) == VDiskStatus::Bad <==> (exists|i: int| 0 <= i < rs.len() && (#[trigger] rs[i]).status is Offline)
            && (exists|j: int| 0 <= j < rs.len() && (#[trigger] rs[j]).status is Good),
{
    lemma_offline_count(rs);
}

proof fn lemma_map_update(es: Seq<Replica>, p: int, r: Replica)
    requires
        keys_unique(es),
        0 <= p < es.len(),
        replica_key(r) == replica_key(es[p]),
    ensures
        keys_unique(es.update(p, r)),
        replicas_map(es.update(p, r)) == replicas_map(es).insert(replica_key(r), replica_value(r)),
    decreases es.len(),
{
    let u = es.update(p, r);
    assert forall|i: int, j: int| 0 <= i < j < u.len() implies replica_key(u[i]) != replica_key(u[j]) by {
        assert(replica_key(u[i]) == replica_key(es[i]));
        assert(replica_key(u[j]) == replica_key(es[j]));
    }
    if p == es.len() - 1 {
        assert(u.drop_last() =~= es.drop_last());
        assert(replicas_map(u) =~= replicas_map(es).insert(replica_key(r), replica_value(r)));
    } else {
        let d = es.drop_last();
        assert(u.drop_last() =~= d.update(p, r));
        assert forall|i: int, j: int| 0 <= i < j < d.len() implies replica_key(d[i]) != replica_key(d[j]) by {
            assert(d[i] == es[i] && d[j] == es[j]);
        }
        lemma_map_update(d, p, r);
        assert(u.last() == es.last());
        assert(replica_key(es.last()) != replica_key(r)) by {
            assert(es.last() == es[es.len() - 1]);
        }
        assert(replicas_map(u) =~= replicas_map(es).insert(replica_key(r), replica_value(r)));
    }
}

/// The replicas of a virtual disk by disk and node, no key twice.
pub struct ReplicaTable {
    replicas: Vec<Replica>,
}

impl ReplicaTable {
    /// What the table holds, by key.
    pub closed spec fn view(&self) -> Map<(Seq<char>, Seq<char>), (Seq<char>, Option<Seq<ReplicaProblem>>)> {
        replicas_map(self.replicas@)
    }

    /// No key occurs twice.
    pub closed spec fn wf(&self) -> bool {
        keys_unique(self.replicas@)
    }

    /// Puts a replica under its key, replacing the one there.
    fn upsert(&mut self, r: Replica)
        requires
            old(self).wf(),
        ensures
            final(self).wf(),
            final(self).view() == old(self).view().insert(replica_key(r), replica_value(r)),
    {
        let ghost es = self.replicas@;
        let mut j: usize = 0;
        while j < self.replicas.len()
            invariant
                0 <= j <= self.replicas.len(),
                self.replicas@ == es,
                es == old(self).replicas@,
                keys_unique(es),
                forall|k: int| 0 <= k < j ==> replica_key(es[k]) != replica_key(r),
            decreases self.replicas.len() - j,
        {
            if text_eq(self.replicas[j].disk.as_str(), r.disk.as_str()) && text_eq(self.replicas[j].node.as_str(), r.node.as_str()) {
                let ghost rr = r;
                self.replicas.remove(j);
                self.replicas.insert(j, r);
                proof {
                    assert(self.replicas@ =~= es.update(j as int, rr));
                    lemma_map_update(es, j as int, rr);
                }
                return;
            }
            j = j + 1;
        }
        let ghost rr = r;
        self.replicas.push(r);
        proof {
            assert(self.replicas@.drop_last() =~= es);
            assert forall|i: int, k: int| 0 <= i < k < self.replicas@.len() implies replica_key(self.replicas@[i]) != replica_key(self.replicas@[k]) by {
                if k == es.len() {
                    assert(self.replicas@[i] == es[i]);
                } else {
                    assert(self.replicas@[i] == es[i] && self.replicas@[k] == es[k]);
                }
            }
            assert(self.replicas@.last() == rr);
        }
    }

    /// The replicas that a virtual disk lists, each with its node unavailable
    /// until the node answers.
    pub fn from_vdisk(vdisk: &VDiskInfo) -> (t: Self)
        ensures
            t.wf(),
            t.view() == listed_map(listed_replicas(*vdisk)),
    {
        let mut t = ReplicaTable { replicas: Vec::new() };
        assert(t.view() =~= Map::empty());
        match &vdisk.replicas {
            Some(reps) => {
                let ghost es = reps@.map_values(|r: ReplicaInfo| listed_entry(r));
                let mut k: usize = 0;
                while k < reps.len()
                    invariant
                        0 <= k <= reps.len(),
                        es == reps@.map_values(|r: ReplicaInfo| listed_entry(r)),
                        t.wf(),
                        t.view() == insert_all(Map::empty(), es.take(k as int)),
                    decreases reps.len() - k,
                {
                    let rep = &reps[k];
                    let mut problems: Vec<ReplicaProblem> = Vec::new();
                    problems.push(ReplicaProblem::NodeUnavailable);
                    let r = Replica {
                        node: rep.node.clone(),
                        disk: rep.disk.clone(),
                        path: rep.path.clone(),
                        status: ReplicaStatus::Offline(problems),
                    };
                    t.upsert(r);
                    assert(es.take(k + 1).drop_last() =~= es.take(k as int));
                    k = k + 1;
                }
                assert(es.take(reps.len() as int) =~= es);
            },
            None => {
                assert(listed_replicas(*vdisk).map_values(|r: ReplicaInfo| listed_entry(r)) =~= Seq::empty());
            },
        }
        t
    }

    /// Records what a node that answered says of its disks: every disk of
    /// it is put under its key, good when it is active, else with its disk
    /// unavailable.
    pub fn apply_node(&mut self, node_name: &str, disks: &Vec<DiskState>)
        requires
            old(self).wf(),
        ensures
            final(self).wf(),
            final(self).view() == node_disks_map(old(self).view(), node_name@, disks@),
    {
        let ghost es = disks@.map_values(|d: DiskState| disk_entry(node_name@, d));
        let ghost start = self.view();
        let mut k: usize = 0;
        while k < disks.len()
            invariant
                0 <= k <= disks.len(),
                es == disks@.map_values(|d: DiskState| disk_entry(node_name@, d)),
                start == old(self).view(),
                self.wf(),
                self.view() == insert_all(start, es.take(k as int)),
            decreases disks.len() - k,
        {
            let disk = &disks[k];
            let status = if disk.is_active {
                ReplicaStatus::Good
            } else {
                let mut problems: Vec<ReplicaProblem> = Vec::new();
                problems.push(ReplicaProblem::DiskUnavailable);
                ReplicaStatus::Offline(problems)
            };
            let r = Replica {
                node: String::from_str(node_name),
                disk: disk.name.clone(),
                path: disk.path.clone(),
                status,
            };
            self.upsert(r);
            assert(es.take(k + 1).drop_last() =~= es.take(k as int));
            k = k + 1;
        }
        assert(es.take(disks.len() as int) =~= es);
    }

    /// The virtual disk with these replicas: its status is good when no
    /// replica is offline, offline when all are, else bad.
    pub fn into_vdisk(self, id: u64, partition_count: u64) -> (v: VDisk)
        requires
            self.wf(),
        ensures
            v.id == id,
            v.partition_count == partition_count,
            keys_unique(v.replicas@),
            replicas_map(v.replicas@) == self.view(),
            v.status == vdisk_status_of(v.replicas@),
    {
        let replicas = self.replicas;
        let mut offline: usize = 0;
        let mut i: usize = 0;
        while i < replicas.len()
            invariant
                0 <= i <= replicas.len(),
                offline as nat == offline_count(replicas@.take(i as int)),
                offline <= i,
            decreases replicas.len() - i,
        {
            assert(replicas@.take(i + 1).drop_last() =~= replicas@.take(i as int));
            match &replicas[i].status {
                ReplicaStatus::Offline(_) => {
                    offline = offline + 1;
                },
                ReplicaStatus::Good => {},
            }
            i = i + 1;
        }
        assert(replicas@.take(replicas.len() as int) =~= replicas@);
        let status = if offline == 0 {
            VDiskStatus::Good
        } else if offline == replicas.len() {
            VDiskStatus::Offline
        } else {
            VDiskStatus::Bad
        };
        VDisk { id, status, partition_count, replicas }
    }
}

/// The keys after entries are inserted: those there before and those of the
/// entries.
proof fn lemma_insert_all_dom(
    m: Map<(Seq<char>, Seq<char>), (Seq<char>, Option<Seq<ReplicaProblem>>)>,
    es: Seq<((Seq<char>, Seq<char>), (Seq<char>, Option<Seq<ReplicaProblem>>))>,
    key: (Seq<char>, Seq<char>),
)
    ensures
        insert_all(m, es).dom().contains(key) <==> m.dom().contains(key) || exists|k: int| 0 <= k < es.len() && (#[trigger] es[k]).0 == key,
    decreases es.len(),
{
    if es.len() > 0 {
        lemma_insert_all_dom(m, es.drop_last(), key);
        if exists|k: int| 0 <= k < es.drop_last().len() && (#[trigger] es.drop_last()[k]).0 == key {
            let k = choose|k: int| 0 <= k < es.drop_last().len() && (#[trigger] es.drop_last()[k]).0 == key;
            assert(es[k] == es.drop_last()[k]);
        }
        if exists|k: int| 0 <= k < es.len() && (#[trigger] es[k]).0 == key {
            let k = choose|k: int| 0 <= k < es.len() && (#[trigger] es[k]).0 == key;
            if k < es.len() - 1 {
                assert(es.drop_last()[k] == es[k]);
            }
        }
    }
}

/// The value of a key after entries are inserted: that of the last entry
/// with the key, where one has it.
proof fn lemma_insert_all_value(
    m: Map<(Seq<char>, Seq<char>), (Seq<char>, Option<Seq<ReplicaProblem>>)>,
    es: Seq<((Seq<char>, Seq<char>), (Seq<char>, Option<Seq<ReplicaProblem>>))>,
    key: (Seq<char>, Seq<char>),
    v: (Seq<char>, Option<Seq<ReplicaProblem>>),
)
    requires
        m.dom().contains(key) ==> m[key] == v,
        forall|k: int| 0 <= k < es.len() && (#[trigger] es[k]).0 == key ==> es[k].1 == v,
    ensures
        insert_all(m, es).dom().contains(key) ==> insert_all(m, es)[key] == v,
    decreases es.len(),
{
    if es.len() > 0 {
        assert forall|k: int| 0 <= k < es.drop_last().len() && (#[trigger] es.drop_last()[k]).0 == key implies es.drop_last()[k].1 == v by {
            assert(es.drop_last()[k] == es[k]);
        }
        lemma_insert_all_value(m, es.drop_last(), key, v);
        assert(es.last() == es[es.len() - 1]);
    }
}

/// The table of the replicas that a virtual disk lists, before any node
/// answers.
pub open spec fn listed_map(reps: Seq<ReplicaInfo>) -> Map<(Seq<char>, Seq<char>), (Seq<char>, Option<Seq<ReplicaProblem>>)> {
    insert_all(Map::empty(), reps.map_values(|r: ReplicaInfo| listed_entry(r)))
}

/// A table after a node that answered told of its disks.
pub open spec fn node_disks_map(
    m: Map<(Seq<char>, Seq<char>), (Seq<char>, Option<Seq<ReplicaProblem>>)>,
    node: Seq<char>,
    disks: Seq<DiskState>,
) -> Map<(Seq<char>, Seq<char>), (Seq<char>, Option<Seq<ReplicaProblem>>)> {
    insert_all(m, disks.map_values(|d: DiskState| disk_entry(node, d)))
}

/// Replicas are told apart by disk and by node: two replicas on different
/// nodes, or on different disks, have different keys.
pub proof fn lemma_replica_key_separates(a: Replica, b: Replica)
    ensures
        a.node@ != b.node@ ==> replica_key(a) != replica_key(b),
        a.disk@ != b.disk@ ==> replica_key(a) != replica_key(b),
        a.node@ == b.node@ && a.disk@ == b.disk@ ==> replica_key(a) == replica_key(b),
{
}

/// The replicas that a virtual disk lists are kept one for each pair of
/// disk and node that the list holds, so that the same disk on two nodes
/// gives two replicas; each waits for its node, with its node unavailable.
pub proof fn lemma_listed_replicas_by_disk_and_node(reps: Seq<ReplicaInfo>)
    ensures
        forall|key: (Seq<char>, Seq<char>)|
            #[trigger] listed_map(reps).dom().contains(key)
                <==> exists|k: int| 0 <= k < reps.len() && key == ((#[trigger] reps[k]).disk@, reps[k].node@),
        forall|key: (Seq<char>, Seq<char>)|
            #[trigger] listed_map(reps).dom().contains(key)
                ==> listed_map(reps)[key].1 == Some(seq![ReplicaProblem::NodeUnavailable]),
{
    let es = reps.map_values(|r: ReplicaInfo| listed_entry(r));
    let empty = Map::<(Seq<char>, Seq<char>), (Seq<char>, Option<Seq<ReplicaProblem>>)>::empty();
    assert forall|key: (Seq<char>, Seq<char>)|
        #[trigger] insert_all(empty, es).dom().contains(key)
            <==> exists|k: int| 0 <= k < reps.len() && key == ((#[trigger] reps[k]).disk@, reps[k].node@) by {
        lemma_insert_all_dom(empty, es, key);
        if exists|k: int| 0 <= k < es.len() && (#[trigger] es[k]).0 == key {
            let k = choose|k: int| 0 <= k < es.len() && (#[trigger] es[k]).0 == key;
            assert(es[k] == listed_entry(reps[k]));
        }
        if exists|k: int| 0 <= k < reps.len() && key == ((#[trigger] reps[k]).disk@, reps[k].node@) {
            let k = choose|k: int| 0 <= k < reps.len() && key == ((#[trigger] reps[k]).disk@, reps[k].node@);
            assert(es[k] == listed_entry(reps[k]));
        }
    }
    assert forall|key: (Seq<char>, Seq<char>)|
        #[trigger] insert_all(empty, es).dom().contains(key)
            implies insert_all(empty, es)[key].1 == Some(seq![ReplicaProblem::NodeUnavailable]) by {
        lemma_insert_all_dom(empty, es, key);
        let k0 = choose|k: int| 0 <= k < es.len() && (#[trigger] es[k]).0 == key;
        assert(es[k0] == listed_entry(reps[k0]));
        let v = es[k0].1;
        assert forall|k: int| 0 <= k < es.len() && (#[trigger] es[k]).0 == key implies es[k].1.1 == v.1 by {
            assert(es[k] == listed_entry(reps[k]));
        }
        lemma_insert_all_value_status(empty, es, key, v.1);
    }
}

/// The problems of a key after entries are inserted, where every entry with
/// the key has the same problems.
proof fn lemma_insert_all_value_status(
    m: Map<(Seq<char>, Seq<char>), (Seq<char>, Option<Seq<ReplicaProblem>>)>,
    es: Seq<((Seq<char>, Seq<char>), (Seq<char>, Option<Seq<ReplicaProblem>>))>,
    key: (Seq<char>, Seq<char>),
    st: Option<Seq<ReplicaProblem>>,
)
    requires
        m.dom().contains(key) ==> m[key].1 == st,
        forall|k: int| 0 <= k < es.len() && (#[trigger] es[k]).0 == key ==> es[k].1.1 == st,
    ensures
        insert_all(m, es).dom().contains(key) ==> insert_all(m, es)[key].1 == st,
    decreases es.len(),
{
    if es.len() > 0 {
        assert forall|k: int| 0 <= k < es.drop_last().len() && (#[trigger] es.drop_last()[k]).0 == key implies es.drop_last()[k].1.1 == st by {
            assert(es.drop_last()[k] == es[k]);
        }
        lemma_insert_all_value_status(m, es.drop_last(), key, st);
        assert(es.last() == es[es.len() - 1]);
    }
}

/// What a node that answered says of its disks is kept under each disk's
/// name and the node's name, next to what other nodes said: the keys after
/// are those before and one for each of its disks, on that node.
pub proof fn lemma_node_disks_by_disk_and_node(
    m: Map<(Seq<char>, Seq<char>), (Seq<char>, Option<Seq<ReplicaProblem>>)>,
    node: Seq<char>,
    disks: Seq<DiskState>,
)
    ensures
        forall|key: (Seq<char>, Seq<char>)|
            #[trigger] node_disks_map(m, node, disks).dom().contains(key)
                <==> m.dom().contains(key) || exists|k: int| 0 <= k < disks.len() && key == ((#[trigger] disks[k]).name@, node),
        forall|key: (Seq<char>, Seq<char>)| key.1 != node && #[trigger] m.dom().contains(key)
            ==> node_disks_map(m, node, disks)[key] == m[key],
{
    let es = disks.map_values(|d: DiskState| disk_entry(node, d));
    assert forall|key: (Seq<char>, Seq<char>)|
        #[trigger] insert_all(m, es).dom().contains(key)
            <==> m.dom().contains(key) || exists|k: int| 0 <= k < disks.len() && key == ((#[trigger] disks[k]).name@, node) by {
        lemma_insert_all_dom(m, es, key);
        if exists|k: int| 0 <= k < es.len() && (#[trigger] es[k]).0 == key {
            let k = choose|k: int| 0 <= k < es.len() && (#[trigger] es[k]).0 == key;
            assert(es[k] == disk_entry(node, disks[k]));
        }
        if exists|k: int| 0 <= k < disks.len() && key == ((#[trigger] disks[k]).name@, node) {
            let k = choose|k: int| 0 <= k < disks.len() && key == ((#[trigger] disks[k]).name@, node);
            assert(es[k] == disk_entry(node, disks[k]));
        }
    }
    assert forall|key: (Seq<char>, Seq<char>)| key.1 != node && #[trigger] m.dom().contains(key)
        implies insert_all(m, es)[key] == m[key] by {
        assert forall|k: int| 0 <= k < es.len() && (#[trigger] es[k]).0 == key implies es[k].1 == m[key] by {
            assert(es[k] == disk_entry(node, disks[k]));
        }
        lemma_insert_all_value(m, es, key, m[key]);
        lemma_insert_all_dom(m, es, key);
    }
}

} // verus!

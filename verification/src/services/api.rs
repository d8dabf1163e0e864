//! The summaries of the cluster that the API builds from the answers of
//! its nodes, one answer at a time: disks and nodes counted by status, and
//! the space of the cluster.

use vstd::prelude::*;
use crate::connector::api::{APIError, GetDisksResponse, GetMetricsResponse, GetSpaceInfoResponse};
use crate::connector::dto::{DiskState, MetricsSnapshotModel, Node};
use crate::models::bob::{NodeInfo, VDisk};
use crate::connector::dto::SpaceInfo as SpaceReport;
use crate::models::api::{
    DiskCount, DiskStatus, DiskStatusName, NodeCount, NodeProblem, NodeStatus, NodeStatusName, RawMetricEntry, SpaceInfo,
    TypedMetrics, DEFAULT_MAX_CPU, occupied_space, node_problems, bad_node, space_running_out, snapshot_reading, find_reading,
};

verus! {

/// The status of a disk from the space report of its node.
pub open spec fn disk_status_name(space: SpaceReport, name: Seq<char>) -> DiskStatusName {
    match occupied_space(space, name) {
        None => DiskStatusName::Offline,
        Some(o) => if space_running_out(space.total_disk_space_bytes - o, space.total_disk_space_bytes as int) {
            DiskStatusName::Bad
        } else {
            DiskStatusName::Good
        },
    }
}

/// How many of the active disks have this status.
pub open spec fn active_with_status(space: SpaceReport, ds: Seq<DiskState>, st: DiskStatusName) -> nat
    decreases ds.len(),
{
    if ds.len() == 0 {
        0
    } else {
        active_with_status(space, ds.drop_last(), st) + (if ds.last().is_active && disk_status_name(space, ds.last().name@) == st {
            1nat
        } else {
            0nat
        })
    }
}

/// How many disks are active.
pub open spec fn active_count(ds: Seq<DiskState>) -> nat
    decreases ds.len(),
{
    if ds.len() == 0 {
        0
    } else {
        active_count(ds.drop_last()) + (if ds.last().is_active {
            1nat
        } else {
            0nat
        })
    }
}

/// The space that every active disk occupies is within its node's total,
/// as the status of a disk needs.
pub open spec fn active_disks_fit(space: SpaceReport, ds: Seq<DiskState>) -> bool {
    forall|i: int| 0 <= i < ds.len() && (#[trigger] ds[i]).is_active ==> (occupied_space(space, ds[i].name@) matches Some(o)
        ==> o <= space.total_disk_space_bytes)
}

/// All the disks counted, whatever their status.
pub open spec fn disk_total(count: DiskCount) -> int {
    count.value(DiskStatusName::Good) + count.value(DiskStatusName::Bad) + count.value(DiskStatusName::Offline)
}

/// Every active disk has exactly one status.
proof fn lemma_statuses_partition(space: SpaceReport, ds: Seq<DiskState>)
    ensures
        active_with_status(space, ds, DiskStatusName::Good) + active_with_status(space, ds, DiskStatusName::Bad)
            + active_with_status(space, ds, DiskStatusName::Offline) == active_count(ds),
    decreases ds.len(),
{
    if ds.len() > 0 {
        lemma_statuses_partition(space, ds.drop_last());
    }
}

proof fn lemma_active_counts(space: SpaceReport, ds: Seq<DiskState>, i: int)
    requires
        0 <= i <= ds.len(),
    ensures
        active_count(ds.take(i)) <= i,
        active_count(ds.take(i)) <= active_count(ds),
        active_count(ds) <= ds.len(),
        active_with_status(space, ds.take(i), DiskStatusName::Good) <= active_with_status(space, ds, DiskStatusName::Good),
        active_with_status(space, ds.take(i), DiskStatusName::Bad) <= active_with_status(space, ds, DiskStatusName::Bad),
        active_with_status(space, ds.take(i), DiskStatusName::Offline) <= active_with_status(space, ds, DiskStatusName::Offline),
    decreases ds.len(),
{
    if ds.len() > 0 {
        if i == ds.len() {
            assert(ds.take(i) =~= ds);
            lemma_active_counts(space, ds.drop_last(), i - 1);
            assert(ds.drop_last().take(i - 1) =~= ds.drop_last());
        } else {
            lemma_active_counts(space, ds.drop_last(), i);
            assert(ds.drop_last().take(i) =~= ds.take(i));
        }
    } else {
        assert(ds.take(i) =~= ds);
    }
}

/// Counts the disks of one node, from its answers to the requests for its
/// disks and for its space; `None` where the task that asked failed.
/// Nothing is counted without a space report, and a node that refused or
/// failed to list its disks counts one offline disk. Otherwise every disk
/// of the node is counted once: each active disk under its status (offline
/// where the space report does not list it), each inactive disk as offline.
pub fn count_disks(
    count: &mut DiskCount,
    answer: Option<(Result<GetDisksResponse, APIError>, Result<GetSpaceInfoResponse, APIError>)>,
)
    requires
        old(count).wf(),
        answer matches Some((Ok(GetDisksResponse::AJSONArrayWithDisksAndTheirStates(ds)), Ok(GetSpaceInfoResponse::SpaceInfo(space))))
            ==> active_disks_fit(space, ds@)
            && old(count).value(DiskStatusName::Good) + active_with_status(space, ds@, DiskStatusName::Good) <= u64::MAX
            && old(count).value(DiskStatusName::Bad) + active_with_status(space, ds@, DiskStatusName::Bad) <= u64::MAX
            && old(count).value(DiskStatusName::Offline) + active_with_status(space, ds@, DiskStatusName::Offline)
                + (ds@.len() - active_count(ds@)) <= u64::MAX,
        answer matches Some((Ok(GetDisksResponse::PermissionDenied(_)), Ok(_))) ==> old(count).value(DiskStatusName::Offline) < u64::MAX,
        answer matches Some((Err(_), Ok(_))) ==> old(count).value(DiskStatusName::Offline) < u64::MAX,
    ensures
        final(count).wf(),
        match answer {
            Some((Ok(GetDisksResponse::AJSONArrayWithDisksAndTheirStates(ds)), Ok(GetSpaceInfoResponse::SpaceInfo(space)))) => {
                &&& final(count).value(DiskStatusName::Good) == old(count).value(DiskStatusName::Good)
                    + active_with_status(space, ds@, DiskStatusName::Good)
                &&& final(count).value(DiskStatusName::Bad) == old(count).value(DiskStatusName::Bad)
                    + active_with_status(space, ds@, DiskStatusName::Bad)
                &&& final(count).value(DiskStatusName::Offline) == old(count).value(DiskStatusName::Offline)
                    + active_with_status(space, ds@, DiskStatusName::Offline) + (ds@.len() - active_count(ds@))
                &&& disk_total(*final(count)) == disk_total(*old(count)) + ds@.len()
            },
            Some((_, Ok(_))) => {
                &&& final(count).value(DiskStatusName::Good) == old(count).value(DiskStatusName::Good)
                &&& final(count).value(DiskStatusName::Bad) == old(count).value(DiskStatusName::Bad)
                &&& final(count).value(DiskStatusName::Offline) == old(count).value(DiskStatusName::Offline) + 1
            },
            _ => *final(count) == *old(count),
        },
{
    let (disks, space) = match answer {
        Some(a) => a,
        None => return,
    };
    let space = match space {
        Ok(GetSpaceInfoResponse::SpaceInfo(space)) => space,
        Err(_) => return,
    };
    let ds = match disks {
        Ok(GetDisksResponse::AJSONArrayWithDisksAndTheirStates(ds)) => ds,
        _ => {
            let offline = *count.get(DiskStatusName::Offline);
            count.set(DiskStatusName::Offline, offline + 1);
            return;
        },
    };
    let ghost start = *count;
    let mut active: usize = 0;
    let mut i: usize = 0;
    while i < ds.len()
        invariant
            0 <= i <= ds.len(),
            count.wf(),
            active_disks_fit(space, ds@),
            active as nat == active_count(ds@.take(i as int)),
            active <= i,
            start.value(DiskStatusName::Good) + active_with_status(space, ds@, DiskStatusName::Good) <= u64::MAX,
            start.value(DiskStatusName::Bad) + active_with_status(space, ds@, DiskStatusName::Bad) <= u64::MAX,
            start.value(DiskStatusName::Offline) + active_with_status(space, ds@, DiskStatusName::Offline)
                + (ds@.len() - active_count(ds@)) <= u64::MAX,
            count.value(DiskStatusName::Good) == start.value(DiskStatusName::Good) + active_with_status(space, ds@.take(i as int), DiskStatusName::Good),
            count.value(DiskStatusName::Bad) == start.value(DiskStatusName::Bad) + active_with_status(space, ds@.take(i as int), DiskStatusName::Bad),
            count.value(DiskStatusName::Offline) == start.value(DiskStatusName::Offline) + active_with_status(space, ds@.take(i as int), DiskStatusName::Offline),
        decreases ds.len() - i,
    {
        proof {
            assert(ds@.take(i + 1).drop_last() =~= ds@.take(i as int));
            assert(ds@.take(i + 1).last() == ds@[i as int]);
            lemma_active_counts(space, ds@, i + 1);
        }
        let disk = &ds[i];
        if disk.is_active {
            active = active + 1;
            match DiskStatus::from_space_info(&space, disk.name.as_str()) {
                DiskStatus::Good => {
                    let n = *count.get(DiskStatusName::Good);
                    count.set(DiskStatusName::Good, n + 1);
                },
                DiskStatus::Offline => {
                    let n = *count.get(DiskStatusName::Offline);
                    count.set(DiskStatusName::Offline, n + 1);
                },
                DiskStatus::Bad(_) => {
                    let n = *count.get(DiskStatusName::Bad);
                    count.set(DiskStatusName::Bad, n + 1);
                },
            }
        }
        i = i + 1;
    }
    proof {
        assert(ds@.take(ds.len() as int) =~= ds@);
        lemma_active_counts(space, ds@, ds.len() as int);
        lemma_statuses_partition(space, ds@);
    }
    let offline = *count.get(DiskStatusName::Offline);
    count.set(DiskStatusName::Offline, offline + (ds.len() - active) as u64);
}

/// Whether a node is bad, judged from the readings of its metrics snapshot.
pub open spec fn snapshot_bad(s: MetricsSnapshotModel) -> bool {
    ||| snapshot_reading(s, RawMetricEntry::BackendAlienCount).value != 0
    ||| snapshot_reading(s, RawMetricEntry::BackendCorruptedBlobCount).value != 0
    ||| snapshot_reading(s, RawMetricEntry::HardwareBobCpuLoad).value >= DEFAULT_MAX_CPU
    ||| space_running_out(
        snapshot_reading(s, RawMetricEntry::HardwareFreeSpace).value as int,
        snapshot_reading(s, RawMetricEntry::HardwareTotalSpace).value as int,
    )
    ||| snapshot_reading(s, RawMetricEntry::HardwareBobVirtualRam).value > snapshot_reading(s, RawMetricEntry::HardwareTotalRam).value
}

/// The sum of the counts of every status.
pub open spec fn node_total(c: NodeCount) -> int {
    c.value(NodeStatusName::Good) + c.value(NodeStatusName::Bad) + c.value(NodeStatusName::Offline)
}

/// Counts one node by status, from its answer to the request for its
/// metrics; `None` where the task that asked failed. A node without metrics
/// is offline; one whose metrics show a problem is bad; else it is good.
pub fn count_node(count: &mut NodeCount, answer: Option<Result<GetMetricsResponse, APIError>>)
    requires
        old(count).wf(),
        match answer {
            Some(Ok(GetMetricsResponse::Metrics(m))) => {
                &&& snapshot_reading(m, RawMetricEntry::HardwareFreeSpace).value <= snapshot_reading(m, RawMetricEntry::HardwareTotalSpace).value
                &&& snapshot_bad(m) ==> old(count).value(NodeStatusName::Bad) < u64::MAX
                &&& !snapshot_bad(m) ==> old(count).value(NodeStatusName::Good) < u64::MAX
            },
            _ => old(count).value(NodeStatusName::Offline) < u64::MAX,
        },
    ensures
        final(count).wf(),
        node_total(*final(count)) == node_total(*old(count)) + 1,
        match answer {
            Some(Ok(GetMetricsResponse::Metrics(m))) => if snapshot_bad(m) {
                &&& final(count).value(NodeStatusName::Bad) == old(count).value(NodeStatusName::Bad) + 1
                &&& final(count).value(NodeStatusName::Good) == old(count).value(NodeStatusName::Good)
                &&& final(count).value(NodeStatusName::Offline) == old(count).value(NodeStatusName::Offline)
            } else {
                &&& final(count).value(NodeStatusName::Good) == old(count).value(NodeStatusName::Good) + 1
                &&& final(count).value(NodeStatusName::Bad) == old(count).value(NodeStatusName::Bad)
                &&& final(count).value(NodeStatusName::Offline) == old(count).value(NodeStatusName::Offline)
            },
            _ => {
                &&& final(count).value(NodeStatusName::Offline) == old(count).value(NodeStatusName::Offline) + 1
                &&& final(count).value(NodeStatusName::Good) == old(count).value(NodeStatusName::Good)
                &&& final(count).value(NodeStatusName::Bad) == old(count).value(NodeStatusName::Bad)
            },
        },
{
    let name = match answer {
        Some(Ok(GetMetricsResponse::Metrics(m))) => {
            let metrics = TypedMetrics::from_snapshot(&m);
            if metrics.is_bad_node() {
                NodeStatusName::Bad
            } else {
                NodeStatusName::Good
            }
        },
        _ => NodeStatusName::Offline,
    };
    let n = *count.get(name);
    count.set(name, n + 1);
}

/// Adds the space of one node to the space of the cluster, from its answer
/// to the request for its space; `None` where the task that asked failed.
/// The used space of a node is its total less its free space.
pub fn add_space(total: &mut SpaceInfo, answer: Option<Result<GetSpaceInfoResponse, APIError>>)
    requires
        answer matches Some(Ok(GetSpaceInfoResponse::SpaceInfo(s))) ==> {
            &&& s.free_disk_space_bytes <= s.total_disk_space_bytes
            &&& old(total).total_disk + s.total_disk_space_bytes <= u64::MAX
            &&& old(total).free_disk + s.free_disk_space_bytes <= u64::MAX
            &&& old(total).used_disk + (s.total_disk_space_bytes - s.free_disk_space_bytes) <= u64::MAX
            &&& old(total).occupied_disk + s.occupied_disk_space_bytes <= u64::MAX
        },
    ensures
        match answer {
            Some(Ok(GetSpaceInfoResponse::SpaceInfo(s))) => {
                &&& final(total).total_disk == old(total).total_disk + s.total_disk_space_bytes
                &&& final(total).free_disk == old(total).free_disk + s.free_disk_space_bytes
                &&& final(total).used_disk == old(total).used_disk + (s.total_disk_space_bytes - s.free_disk_space_bytes)
                &&& final(total).occupied_disk == old(total).occupied_disk + s.occupied_disk_space_bytes
            },
            _ => *final(total) == *old(total),
        },
{
    match answer {
        Some(Ok(GetSpaceInfoResponse::SpaceInfo(s))) => {
            total.total_disk = total.total_disk + s.total_disk_space_bytes;
            total.free_disk = total.free_disk + s.free_disk_space_bytes;
            total.used_disk = total.used_disk + (s.total_disk_space_bytes - s.free_disk_space_bytes);
            total.occupied_disk = total.occupied_disk + s.occupied_disk_space_bytes;
        },
        _ => {},
    }
}

/// The problems that a node's metrics snapshot shows, in the order in
/// which they are checked.
pub open spec fn snapshot_problems(s: MetricsSnapshotModel) -> Seq<NodeProblem> {
    (if snapshot_reading(s, RawMetricEntry::BackendAlienCount).value != 0 {
        seq![NodeProblem::AliensExists]
    } else {
        Seq::<NodeProblem>::empty()
    }) + (if snapshot_reading(s, RawMetricEntry::BackendCorruptedBlobCount).value != 0 {
        seq![NodeProblem::CorruptedExists]
    } else {
        Seq::<NodeProblem>::empty()
    }) + (if snapshot_reading(s, RawMetricEntry::HardwareBobCpuLoad).value >= DEFAULT_MAX_CPU {
        seq![NodeProblem::HighCPULoad]
    } else {
        Seq::<NodeProblem>::empty()
    }) + (if space_running_out(
        snapshot_reading(s, RawMetricEntry::HardwareFreeSpace).value as int,
        snapshot_reading(s, RawMetricEntry::HardwareTotalSpace).value as int,
    ) {
        seq![NodeProblem::FreeSpaceRunningOut]
    } else {
        Seq::<NodeProblem>::empty()
    }) + (if snapshot_reading(s, RawMetricEntry::HardwareBobVirtualRam).value > snapshot_reading(s, RawMetricEntry::HardwareTotalRam).value {
        seq![NodeProblem::VirtualMemLargerThanRAM]
    } else {
        Seq::<NodeProblem>::empty()
    })
}

/// The status of a node from its answers to the requests for its metrics
/// and for its space; `None` where the task that asked failed. It is
/// offline unless both came; then it is good without problems, or bad
/// with the problems that its metrics show.
pub fn node_status(
    metrics: Option<Result<GetMetricsResponse, APIError>>,
    space: Option<Result<GetSpaceInfoResponse, APIError>>,
) -> (r: NodeStatus)
    requires
        metrics matches Some(Ok(GetMetricsResponse::Metrics(m))) ==> (space matches Some(Ok(GetSpaceInfoResponse::SpaceInfo(_)))
            ==> snapshot_reading(m, RawMetricEntry::HardwareFreeSpace).value
            <= snapshot_reading(m, RawMetricEntry::HardwareTotalSpace).value),
    ensures
        match (metrics, space) {
            (Some(Ok(GetMetricsResponse::Metrics(m))), Some(Ok(GetSpaceInfoResponse::SpaceInfo(_)))) => {
                &&& snapshot_problems(m).len() == 0 ==> r is Good
                &&& snapshot_problems(m).len() > 0 ==> (r matches NodeStatus::Bad(p) && p@ == snapshot_problems(m))
            },
            _ => r is Offline,
        },
{
    match (metrics, space) {
        (Some(Ok(GetMetricsResponse::Metrics(m))), Some(Ok(GetSpaceInfoResponse::SpaceInfo(_)))) => {
            let typed = TypedMetrics::from_snapshot(&m);
            let problems = NodeProblem::default_from_metrics(&typed);
            assert(problems@ =~= snapshot_problems(m));
            NodeStatus::from_problems(problems)
        },
        _ => NodeStatus::Offline,
    }
}

/// The space of one node from its space report: its total, free and
/// occupied space, and as used space its total less its free space.
pub open spec fn node_space(s: SpaceReport) -> SpaceInfo {
    SpaceInfo {
        total_disk: s.total_disk_space_bytes,
        free_disk: s.free_disk_space_bytes,
        used_disk: (s.total_disk_space_bytes - s.free_disk_space_bytes) as u64,
        occupied_disk: s.occupied_disk_space_bytes,
    }
}

/// What the API reports of a node, from the node's own status, its answers
/// to the requests for its metrics and its space (`None` where the task
/// that asked failed), and its virtual disks as they were found. The status
/// is as [`node_status`] gives it; the counts of alien and corrupted blobs
/// and the space are there only where both the metrics and the space came.
pub fn node_info(
    status: Node,
    metrics: Option<Result<GetMetricsResponse, APIError>>,
    space: Option<Result<GetSpaceInfoResponse, APIError>>,
    vdisks: Vec<VDisk>,
) -> (r: NodeInfo)
    requires
        metrics matches Some(Ok(GetMetricsResponse::Metrics(m))) ==> (space matches Some(Ok(GetSpaceInfoResponse::SpaceInfo(_)))
            ==> snapshot_reading(m, RawMetricEntry::HardwareFreeSpace).value
            <= snapshot_reading(m, RawMetricEntry::HardwareTotalSpace).value),
        metrics matches Some(Ok(GetMetricsResponse::Metrics(_))) ==> (space matches Some(Ok(GetSpaceInfoResponse::SpaceInfo(s)))
            ==> s.free_disk_space_bytes <= s.total_disk_space_bytes),
    ensures
        r.name@ == status.name@,
        r.hostname@ == status.address@,
        r.vdisks@ == vdisks@,
        match (metrics, space) {
            (Some(Ok(GetMetricsResponse::Metrics(m))), Some(Ok(GetSpaceInfoResponse::SpaceInfo(s)))) => {
                &&& snapshot_problems(m).len() == 0 ==> r.status is Good
                &&& snapshot_problems(m).len() > 0 ==> (r.status matches NodeStatus::Bad(p) && p@ == snapshot_problems(m))
                &&& r.alien_count == Some(snapshot_reading(m, RawMetricEntry::BackendAlienCount).value)
                &&& r.corrupted_count == Some(snapshot_reading(m, RawMetricEntry::BackendCorruptedBlobCount).value)
                &&& r.space == Some(node_space(s))
            },
            _ => {
                &&& r.status is Offline
                &&& r.alien_count is None
                &&& r.corrupted_count is None
                &&& r.space is None
            },
        },
{
    let (alien_count, corrupted_count, node_space_info) = match (&metrics, &space) {
        (Some(Ok(GetMetricsResponse::Metrics(m))), Some(Ok(GetSpaceInfoResponse::SpaceInfo(s)))) => {
            let alien = find_reading(m, RawMetricEntry::BackendAlienCount);
            let corrupted = find_reading(m, RawMetricEntry::BackendCorruptedBlobCount);
            let info = SpaceInfo {
                total_disk: s.total_disk_space_bytes,
                free_disk: s.free_disk_space_bytes,
                used_disk: s.total_disk_space_bytes - s.free_disk_space_bytes,
                occupied_disk: s.occupied_disk_space_bytes,
            };
            (Some(alien.value), Some(corrupted.value), Some(info))
        },
        _ => (None, None, None),
    };
    let node_state = node_status(metrics, space);
    NodeInfo {
        name: status.name,
        hostname: status.address,
        vdisks,
        status: node_state,
        alien_count,
        corrupted_count,
        space: node_space_info,
    }
}

/// A node counted bad from its metrics is exactly one whose status lists
/// problems: the count of nodes by status and the status of a node agree.
pub proof fn lemma_counted_bad_iff_problems(m: MetricsSnapshotModel)
    ensures
        snapshot_bad(m) <==> snapshot_problems(m).len() > 0,
{
}

/// What each problem of a node means, from the readings of its metrics:
/// blobs of aliens, corrupted blobs, a CPU load of 90 or more, less than a
/// tenth of the space free, more virtual memory than RAM; and the node is
/// counted bad exactly when one of these holds.
pub proof fn lemma_node_problems_meaning(m: MetricsSnapshotModel)
    ensures
        snapshot_problems(m).contains(NodeProblem::AliensExists)
            <==> snapshot_reading(m, RawMetricEntry::BackendAlienCount).value != 0,
        snapshot_problems(m).contains(NodeProblem::CorruptedExists)
            <==> snapshot_reading(m, RawMetricEntry::BackendCorruptedBlobCount).value != 0,
        snapshot_problems(m).contains(NodeProblem::HighCPULoad)
            <==> snapshot_reading(m, RawMetricEntry::HardwareBobCpuLoad).value >= 90,
        snapshot_problems(m).contains(NodeProblem::FreeSpaceRunningOut)
            <==> snapshot_reading(m, RawMetricEntry::HardwareFreeSpace).value * 10 < snapshot_reading(m, RawMetricEntry::HardwareTotalSpace).value,
        snapshot_problems(m).contains(NodeProblem::VirtualMemLargerThanRAM)
            <==> snapshot_reading(m, RawMetricEntry::HardwareBobVirtualRam).value > snapshot_reading(m, RawMetricEntry::HardwareTotalRam).value,
        snapshot_bad(m) <==> (snapshot_reading(m, RawMetricEntry::BackendAlienCount).value != 0
            || snapshot_reading(m, RawMetricEntry::BackendCorruptedBlobCount).value != 0
            || snapshot_reading(m, RawMetricEntry::HardwareBobCpuLoad).value >= 90
            || snapshot_reading(m, RawMetricEntry::HardwareFreeSpace).value * 10 < snapshot_reading(m, RawMetricEntry::HardwareTotalSpace).value
            || snapshot_reading(m, RawMetricEntry::HardwareBobVirtualRam).value > snapshot_reading(m, RawMetricEntry::HardwareTotalRam).value),
{
    lemma_problems_contain(m, NodeProblem::AliensExists);
    lemma_problems_contain(m, NodeProblem::CorruptedExists);
    lemma_problems_contain(m, NodeProblem::HighCPULoad);
    lemma_problems_contain(m, NodeProblem::FreeSpaceRunningOut);
    lemma_problems_contain(m, NodeProblem::VirtualMemLargerThanRAM);
}

/// A problem is in a concatenation exactly when it is in one of its parts.
proof fn lemma_concat_contains(s: Seq<NodeProblem>, t: Seq<NodeProblem>, p: NodeProblem)
    ensures
        (s + t).contains(p) <==> s.contains(p) || t.contains(p),
{
    if (s + t).contains(p) {
        let i = choose|i: int| 0 <= i < (s + t).len() && (s + t)[i] == p;
        if i < s.len() {
            assert(s[i] == p);
        } else {
            assert(t[i - s.len()] == p);
        }
    }
    if s.contains(p) {
        let i = choose|i: int| 0 <= i < s.len() && s[i] == p;
        assert((s + t)[i] == p);
    }
    if t.contains(p) {
        let i = choose|i: int| 0 <= i < t.len() && t[i] == p;
        assert((s + t)[s.len() + i] == p);
    }
}

/// The part of the problems that one check gives: the problem where the
/// check finds it, else nothing.
spec fn problem_if(found: bool, p: NodeProblem) -> Seq<NodeProblem> {
    if found {
        seq![p]
    } else {
        Seq::<NodeProblem>::empty()
    }
}

proof fn lemma_problem_if(found: bool, p: NodeProblem, q: NodeProblem)
    ensures
        problem_if(found, p).contains(q) <==> found && p == q,
{
    if found {
        assert(problem_if(found, p)[0] == p);
    }
}

/// Which checks put a problem into the problems of a snapshot.
proof fn lemma_problems_contain(m: MetricsSnapshotModel, q: NodeProblem)
    ensures
        snapshot_problems(m).contains(q) <==> (
            (snapshot_reading(m, RawMetricEntry::BackendAlienCount).value != 0 && q == NodeProblem::AliensExists)
            || (snapshot_reading(m, RawMetricEntry::BackendCorruptedBlobCount).value != 0 && q == NodeProblem::CorruptedExists)
            || (snapshot_reading(m, RawMetricEntry::HardwareBobCpuLoad).value >= DEFAULT_MAX_CPU && q == NodeProblem::HighCPULoad)
            || (space_running_out(
                snapshot_reading(m, RawMetricEntry::HardwareFreeSpace).value as int,
                snapshot_reading(m, RawMetricEntry::HardwareTotalSpace).value as int,
            ) && q == NodeProblem::FreeSpaceRunningOut)
            || (snapshot_reading(m, RawMetricEntry::HardwareBobVirtualRam).value > snapshot_reading(m, RawMetricEntry::HardwareTotalRam).value
                && q == NodeProblem::VirtualMemLargerThanRAM)),
{
    let a = problem_if(snapshot_reading(m, RawMetricEntry::BackendAlienCount).value != 0, NodeProblem::AliensExists);
    let b = problem_if(snapshot_reading(m, RawMetricEntry::BackendCorruptedBlobCount).value != 0, NodeProblem::CorruptedExists);
    let c = problem_if(snapshot_reading(m, RawMetricEntry::HardwareBobCpuLoad).value >= DEFAULT_MAX_CPU, NodeProblem::HighCPULoad);
    let d = problem_if(space_running_out(
        snapshot_reading(m, RawMetricEntry::HardwareFreeSpace).value as int,
        snapshot_reading(m, RawMetricEntry::HardwareTotalSpace).value as int,
    ), NodeProblem::FreeSpaceRunningOut);
    let e = problem_if(
        snapshot_reading(m, RawMetricEntry::HardwareBobVirtualRam).value > snapshot_reading(m, RawMetricEntry::HardwareTotalRam).value,
        NodeProblem::VirtualMemLargerThanRAM,
    );
    assert(snapshot_problems(m) == a + b + c + d + e);
    lemma_concat_contains(a + b + c + d, e, q);
    lemma_concat_contains(a + b + c, d, q);
    lemma_concat_contains(a + b, c, q);
    lemma_concat_contains(a, b, q);
    lemma_problem_if(snapshot_reading(m, RawMetricEntry::BackendAlienCount).value != 0, NodeProblem::AliensExists, q);
    lemma_problem_if(snapshot_reading(m, RawMetricEntry::BackendCorruptedBlobCount).value != 0, NodeProblem::CorruptedExists, q);
    lemma_problem_if(snapshot_reading(m, RawMetricEntry::HardwareBobCpuLoad).value >= DEFAULT_MAX_CPU, NodeProblem::HighCPULoad, q);
    lemma_problem_if(space_running_out(
        snapshot_reading(m, RawMetricEntry::HardwareFreeSpace).value as int,
        snapshot_reading(m, RawMetricEntry::HardwareTotalSpace).value as int,
    ), NodeProblem::FreeSpaceRunningOut, q);
    lemma_problem_if(
        snapshot_reading(m, RawMetricEntry::HardwareBobVirtualRam).value > snapshot_reading(m, RawMetricEntry::HardwareTotalRam).value,
        NodeProblem::VirtualMemLargerThanRAM,
        q,
    );
}

/// The problems and the badness that the typed metrics of a snapshot show
/// are those of the snapshot: counting nodes and reporting a node's status
/// judge the same readings alike.
pub proof fn lemma_typed_metrics_agree(m: MetricsSnapshotModel, t: TypedMetrics)
    requires
        forall|k: RawMetricEntry| #[trigger] t.value(k) == snapshot_reading(m, k),
    ensures
        node_problems(t) == snapshot_problems(m),
        bad_node(t) == snapshot_bad(m),
{
    assert(t.value(RawMetricEntry::BackendAlienCount) == snapshot_reading(m, RawMetricEntry::BackendAlienCount));
    assert(t.value(RawMetricEntry::BackendCorruptedBlobCount) == snapshot_reading(m, RawMetricEntry::BackendCorruptedBlobCount));
    assert(t.value(RawMetricEntry::HardwareBobCpuLoad) == snapshot_reading(m, RawMetricEntry::HardwareBobCpuLoad));
    assert(t.value(RawMetricEntry::HardwareFreeSpace) == snapshot_reading(m, RawMetricEntry::HardwareFreeSpace));
    assert(t.value(RawMetricEntry::HardwareTotalSpace) == snapshot_reading(m, RawMetricEntry::HardwareTotalSpace));
    assert(t.value(RawMetricEntry::HardwareBobVirtualRam) == snapshot_reading(m, RawMetricEntry::HardwareBobVirtualRam));
    assert(t.value(RawMetricEntry::HardwareTotalRam) == snapshot_reading(m, RawMetricEntry::HardwareTotalRam));
    assert(node_problems(t) =~= snapshot_problems(m));
}

} // verus!

//! Statuses and problems of the cluster's nodes, disks and replicas, and
//! maps with one value for every variant of a small enumeration.

use vstd::prelude::*;
use crate::connector::dto::{MetricsEntryModel, MetricsSnapshotModel};
use crate::connector::dto::SpaceInfo as SpaceReport;
use crate::form::text_eq;
use crate::text::{chars_of, push_char};

verus! {

/// The CPU load, in percent, from which a node has a problem.
pub const DEFAULT_MAX_CPU: u64 = 90;

/// Space runs out when less than one part in this many is free.
pub const MIN_FREE_SPACE_PARTS: u64 = 10;

/// Less than one part in [`MIN_FREE_SPACE_PARTS`] of `total` is free.
pub open spec fn space_running_out(free: int, total: int) -> bool {
    free * (MIN_FREE_SPACE_PARTS as int) < total
}

/// Whether less than one part in [`MIN_FREE_SPACE_PARTS`] of `total` is free.
pub fn is_space_running_out(free: u64, total: u64) -> (r: bool)
    ensures
        r == space_running_out(free as int, total as int),
{
    let f: u128 = free as u128;
    let parts: u128 = MIN_FREE_SPACE_PARTS as u128;
    assert(f * parts <= 0xffff_ffff_ffff_ffff * 10) by (nonlinear_arith)
        requires
            f <= 0xffff_ffff_ffff_ffff,
            parts == 10,
    ;
    f * parts < (total as u128)
}

/// Defines kind of problem on disk
#[derive(Debug, Clone, Copy, PartialEq, Eq, Structural, PartialOrd, Hash)]
pub enum DiskProblem {
    FreeSpaceRunningOut,
}

/// Defines disk status: the list of problems is empty unless the disk is bad.
#[derive(Debug, Clone, PartialEq, Eq, Hash)]
pub enum DiskStatus {
    Good,
    Bad(Vec<DiskProblem>),
    Offline,
}

/// The space that the disk with this name occupies, the first entry from
/// index `j` on with that name.
pub open spec fn occupied_from(entries: Seq<(String, u64)>, name: Seq<char>, j: int) -> Option<u64>
    decreases entries.len() - j,
{
    if j < 0 || j >= entries.len() {
        None
    } else if entries[j].0@ == name {
        Some(entries[j].1)
    } else {
        occupied_from(entries, name, j + 1)
    }
}

/// The space that the disk with this name occupies, as the node reports it.
pub open spec fn occupied_space(space: SpaceReport, name: Seq<char>) -> Option<u64> {
    occupied_from(space.occupied_disk_space_by_disk@, name, 0)
}

/// The space that the disk with this name occupies, as the node reports it.
pub fn find_occupied(space: &SpaceReport, name: &str) -> (r: Option<u64>)
    ensures
        r == occupied_space(*space, name@),
{
    let entries = &space.occupied_disk_space_by_disk;
    let mut j: usize = 0;
    while j < entries.len()
        invariant
            0 <= j <= entries.len(),
            entries == &space.occupied_disk_space_by_disk,
            occupied_from(entries@, name@, 0) == occupied_from(entries@, name@, j as int),
        decreases entries.len() - j,
    {
        if text_eq(entries[j].0.as_str(), name) {
            return Some(entries[j].1);
        }
        j = j + 1;
    }
    None
}

impl DiskStatus {
    /// The status of a disk from the space report of its node: offline when
    /// the report does not list it, bad when less than a tenth of the
    /// node's space would be free beside what the disk occupies, else good.
    pub fn from_space_info(space: &SpaceReport, disk_name: &str) -> (r: Self)
        requires
            occupied_space(*space, disk_name@) matches Some(o) ==> o <= space.total_disk_space_bytes,
        ensures
            match occupied_space(*space, disk_name@) {
                None => r is Offline,
                Some(o) => if space_running_out(
                    space.total_disk_space_bytes - o,
                    space.total_disk_space_bytes as int,
                ) {
                    r matches DiskStatus::Bad(p) && p@ == seq![DiskProblem::FreeSpaceRunningOut]
                } else {
                    r is Good
                },
            },
    {
        match find_occupied(space, disk_name) {
            Some(occupied) => {
                if is_space_running_out(space.total_disk_space_bytes - occupied, space.total_disk_space_bytes) {
                    let mut problems = Vec::new();
                    problems.push(DiskProblem::FreeSpaceRunningOut);
                    DiskStatus::Bad(problems)
                } else {
                    DiskStatus::Good
                }
            },
            None => DiskStatus::Offline,
        }
    }
}

/// Defines disk status names
#[derive(Debug, Clone, Copy, PartialEq, Eq, Structural, Hash)]
pub enum DiskStatusName {
    Good,
    Bad,
    Offline,
}

/// The name under which a [`DiskStatusName`] is written in JSON.
pub open spec fn disk_status_json_name(k: DiskStatusName) -> Seq<char> {
    match k {
        DiskStatusName::Good => "good"@,
        DiskStatusName::Bad => "bad"@,
        DiskStatusName::Offline => "offline"@,
    }
}

impl DiskStatusName {
    /// The name under which this status is written in JSON.
    pub fn name(&self) -> (r: &'static str)
        ensures
            r@ == disk_status_json_name(*self),
    {
        match self {
            DiskStatusName::Good => "good",
            DiskStatusName::Bad => "bad",
            DiskStatusName::Offline => "offline",
        }
    }
}

/// Defines kind of problem on Node
#[derive(Debug, Clone, Copy, PartialEq, Eq, Structural, PartialOrd, Hash)]
pub enum NodeProblem {
    AliensExists,
    CorruptedExists,
    FreeSpaceRunningOut,
    VirtualMemLargerThanRAM,
    HighCPULoad,
}

/// Defines status of node: the list of problems is empty unless the node is bad.
#[derive(Debug, Clone, PartialEq, Eq, Hash)]
pub enum NodeStatus {
    Good,
    Bad(Vec<NodeProblem>),
    Offline,
}

impl NodeStatus {
    /// Good without problems, else bad with them.
    pub fn from_problems(problems: Vec<NodeProblem>) -> (r: Self)
        ensures
            problems@.len() == 0 ==> r is Good,
            problems@.len() > 0 ==> (r matches NodeStatus::Bad(p) && p@ == problems@),
    {
        if problems.len() == 0 {
            NodeStatus::Good
        } else {
            NodeStatus::Bad(problems)
        }
    }
}

/// Defines node status names
#[derive(Debug, Clone, Copy, PartialEq, Eq, Structural, Hash)]
pub enum NodeStatusName {
    Good,
    Bad,
    Offline,
}

/// The name under which a [`NodeStatusName`] is written in JSON.
pub open spec fn node_status_json_name(k: NodeStatusName) -> Seq<char> {
    match k {
        NodeStatusName::Good => "good"@,
        NodeStatusName::Bad => "bad"@,
        NodeStatusName::Offline => "offline"@,
    }
}

impl NodeStatusName {
    /// The name under which this status is written in JSON.
    pub fn name(&self) -> (r: &'static str)
        ensures
            r@ == node_status_json_name(*self),
    {
        match self {
            NodeStatusName::Good => "good",
            NodeStatusName::Bad => "bad",
            NodeStatusName::Offline => "offline",
        }
    }
}

/// Reasons why Replica is offline
#[derive(Debug, Clone, Copy, PartialEq, Eq, Structural, PartialOrd)]
pub enum ReplicaProblem {
    NodeUnavailable,
    DiskUnavailable,
}

/// Replica status: good, or offline with the reasons why.
#[derive(Debug, Clone, PartialEq, Eq)]
pub enum ReplicaStatus {
    Good,
    Offline(Vec<ReplicaProblem>),
}

/// Disk space information in bytes
#[derive(Debug, Default, Clone, Copy, PartialEq, Eq, Structural)]
pub struct SpaceInfo {
    /// Total disk space amount
    pub total_disk: u64,
    /// The amount of free disk space
    pub free_disk: u64,
    /// Used disk space amount
    pub used_disk: u64,
    /// Disk space occupied only by BOB; no more than the used space
    pub occupied_disk: u64,
}

/// Virtual disk status: bad when at least one of its replicas has problems,
/// offline when all of them have.
#[derive(Debug, Clone, Copy, PartialEq, Eq, Structural)]
pub enum VDiskStatus {
    Good,
    Bad,
    Offline,
}

/// Types of operations on BOB cluster
#[derive(Debug, Clone, Copy, PartialEq, Eq, Structural, PartialOrd, Ord, Hash)]
pub enum Operation {
    Put,
    Get,
    Exist,
    Delete,
}

/// The name under which a [`Operation`] is written in JSON.
pub open spec fn operation_json_name(k: Operation) -> Seq<char> {
    match k {
        Operation::Put => "put"@,
        Operation::Get => "get"@,
        Operation::Exist => "exist"@,
        Operation::Delete => "delete"@,
    }
}

impl Operation {
    /// The name under which this operation is written in JSON.
    pub fn name(&self) -> (r: &'static str)
        ensures
            r@ == operation_json_name(*self),
    {
        match self {
            Operation::Put => "put",
            Operation::Get => "get",
            Operation::Exist => "exist",
            Operation::Delete => "delete",
        }
    }
}

/// The metrics that a node reports.
#[derive(Debug, Clone, Copy, PartialEq, Eq, Structural, PartialOrd, Ord, Hash)]
pub enum RawMetricEntry {
    ClusterGrinderGetCountRate,
    ClusterGrinderPutCountRate,
    ClusterGrinderExistCountRate,
    ClusterGrinderDeleteCountRate,
    PearlExistCountRate,
    PearlGetCountRate,
    PearlPutCountRate,
    PearlDeleteCountRate,
    BackendAlienCount,
    BackendCorruptedBlobCount,
    HardwareBobVirtualRam,
    HardwareTotalRam,
    HardwareUsedRam,
    HardwareBobCpuLoad,
    HardwareFreeSpace,
    HardwareTotalSpace,
    HardwareDescrAmount,
}

/// A small enumeration whose variants are numbered `0..key_count()`.
pub trait TypedKey: Sized + Copy {
    /// The number of this variant.
    spec fn key_index(self) -> int;

    /// How many variants there are.
    spec fn key_count() -> int;

    /// The number of this variant.
    fn index(&self) -> (r: usize)
        ensures
            r as int == self.key_index(),
            0 <= self.key_index() < Self::key_count(),
    ;

    /// How many variants there are.
    fn count() -> (r: usize)
        ensures
            r as int == Self::key_count(),
    ;

    /// The variant with this number.
    fn key_at(i: usize) -> (r: Self)
        requires
            (i as int) < Self::key_count(),
        ensures
            r.key_index() == i as int,
    ;

    /// Every variant has a number in range.
    proof fn lemma_index_range(k: Self)
        ensures
            0 <= k.key_index() < Self::key_count(),
    ;

    /// Two variants with the same number are the same.
    proof fn lemma_index_injective(a: Self, b: Self)
        requires
            a.key_index() == b.key_index(),
        ensures
            a == b,
    ;
}

impl TypedKey for DiskStatusName {
    open spec fn key_index(self) -> int {
        match self {
            DiskStatusName::Good => 0,
            DiskStatusName::Bad => 1,
            DiskStatusName::Offline => 2,
        }
    }

    open spec fn key_count() -> int {
        3
    }

    fn index(&self) -> (r: usize) {
        match self {
            DiskStatusName::Good => 0,
            DiskStatusName::Bad => 1,
            DiskStatusName::Offline => 2,
        }
    }

    fn count() -> (r: usize) {
        3
    }

    fn key_at(i: usize) -> (r: Self) {
        match i {
            0 => DiskStatusName::Good,
            1 => DiskStatusName::Bad,
            _ => DiskStatusName::Offline,
        }
    }

    proof fn lemma_index_range(k: Self) {
    }

    proof fn lemma_index_injective(a: Self, b: Self) {
    }
}

impl TypedKey for NodeStatusName {
    open spec fn key_index(self) -> int {
        match self {
            NodeStatusName::Good => 0,
            NodeStatusName::Bad => 1,
            NodeStatusName::Offline => 2,
        }
    }

    open spec fn key_count() -> int {
        3
    }

    fn index(&self) -> (r: usize) {
        match self {
            NodeStatusName::Good => 0,
            NodeStatusName::Bad => 1,
            NodeStatusName::Offline => 2,
        }
    }

    fn count() -> (r: usize) {
        3
    }

    fn key_at(i: usize) -> (r: Self) {
        match i {
            0 => NodeStatusName::Good,
            1 => NodeStatusName::Bad,
            _ => NodeStatusName::Offline,
        }
    }

    proof fn lemma_index_range(k: Self) {
    }

    proof fn lemma_index_injective(a: Self, b: Self) {
    }
}

impl TypedKey for Operation {
    open spec fn key_index(self) -> int {
        match self {
            Operation::Put => 0,
            Operation::Get => 1,
            Operation::Exist => 2,
            Operation::Delete => 3,
        }
    }

    open spec fn key_count() -> int {
        4
    }

    fn index(&self) -> (r: usize) {
        match self {
            Operation::Put => 0,
            Operation::Get => 1,
            Operation::Exist => 2,
            Operation::Delete => 3,
        }
    }

    fn count() -> (r: usize) {
        4
    }

    fn key_at(i: usize) -> (r: Self) {
        match i {
            0 => Operation::Put,
            1 => Operation::Get,
            2 => Operation::Exist,
            _ => Operation::Delete,
        }
    }

    proof fn lemma_index_range(k: Self) {
    }

    proof fn lemma_index_injective(a: Self, b: Self) {
    }
}

impl TypedKey for RawMetricEntry {
    open spec fn key_index(self) -> int {
        match self {
            RawMetricEntry::ClusterGrinderGetCountRate => 0,
            RawMetricEntry::ClusterGrinderPutCountRate => 1,
            RawMetricEntry::ClusterGrinderExistCountRate => 2,
            RawMetricEntry::ClusterGrinderDeleteCountRate => 3,
            RawMetricEntry::PearlExistCountRate => 4,
            RawMetricEntry::PearlGetCountRate => 5,
            RawMetricEntry::PearlPutCountRate => 6,
            RawMetricEntry::PearlDeleteCountRate => 7,
            RawMetricEntry::BackendAlienCount => 8,
            RawMetricEntry::BackendCorruptedBlobCount => 9,
            RawMetricEntry::HardwareBobVirtualRam => 10,
            RawMetricEntry::HardwareTotalRam => 11,
            RawMetricEntry::HardwareUsedRam => 12,
            RawMetricEntry::HardwareBobCpuLoad => 13,
            RawMetricEntry::HardwareFreeSpace => 14,
            RawMetricEntry::HardwareTotalSpace => 15,
            RawMetricEntry::HardwareDescrAmount => 16,
        }
    }

    open spec fn key_count() -> int {
        17
    }

    fn index(&self) -> (r: usize) {
        match self {
            RawMetricEntry::ClusterGrinderGetCountRate => 0,
            RawMetricEntry::ClusterGrinderPutCountRate => 1,
            RawMetricEntry::ClusterGrinderExistCountRate => 2,
            RawMetricEntry::ClusterGrinderDeleteCountRate => 3,
            RawMetricEntry::PearlExistCountRate => 4,
            RawMetricEntry::PearlGetCountRate => 5,
            RawMetricEntry::PearlPutCountRate => 6,
            RawMetricEntry::PearlDeleteCountRate => 7,
            RawMetricEntry::BackendAlienCount => 8,
            RawMetricEntry::BackendCorruptedBlobCount => 9,
            RawMetricEntry::HardwareBobVirtualRam => 10,
            RawMetricEntry::HardwareTotalRam => 11,
            RawMetricEntry::HardwareUsedRam => 12,
            RawMetricEntry::HardwareBobCpuLoad => 13,
            RawMetricEntry::HardwareFreeSpace => 14,
            RawMetricEntry::HardwareTotalSpace => 15,
            RawMetricEntry::HardwareDescrAmount => 16,
        }
    }

    fn count() -> (r: usize) {
        17
    }

    fn key_at(i: usize) -> (r: Self) {
        match i {
            0 => RawMetricEntry::ClusterGrinderGetCountRate,
            1 => RawMetricEntry::ClusterGrinderPutCountRate,
            2 => RawMetricEntry::ClusterGrinderExistCountRate,
            3 => RawMetricEntry::ClusterGrinderDeleteCountRate,
            4 => RawMetricEntry::PearlExistCountRate,
            5 => RawMetricEntry::PearlGetCountRate,
            6 => RawMetricEntry::PearlPutCountRate,
            7 => RawMetricEntry::PearlDeleteCountRate,
            8 => RawMetricEntry::BackendAlienCount,
            9 => RawMetricEntry::BackendCorruptedBlobCount,
            10 => RawMetricEntry::HardwareBobVirtualRam,
            11 => RawMetricEntry::HardwareTotalRam,
            12 => RawMetricEntry::HardwareUsedRam,
            13 => RawMetricEntry::HardwareBobCpuLoad,
            14 => RawMetricEntry::HardwareFreeSpace,
            15 => RawMetricEntry::HardwareTotalSpace,
            _ => RawMetricEntry::HardwareDescrAmount,
        }
    }

    proof fn lemma_index_range(k: Self) {
    }

    proof fn lemma_index_injective(a: Self, b: Self) {
    }
}

/// The name under which a node reports a metric.
pub open spec fn raw_metric_name(k: RawMetricEntry) -> Seq<char> {
    match k {
        RawMetricEntry::ClusterGrinderGetCountRate => "cluster_grinder.get_count_rate"@,
        RawMetricEntry::ClusterGrinderPutCountRate => "cluster_grinder.put_count_rate"@,
        RawMetricEntry::ClusterGrinderExistCountRate => "cluster_grinder.exist_count_rate"@,
        RawMetricEntry::ClusterGrinderDeleteCountRate => "cluster_grinder.delete_count_rate"@,
        RawMetricEntry::PearlExistCountRate => "pearl.exist_count_rate"@,
        RawMetricEntry::PearlGetCountRate => "pearl.get_count_rate"@,
        RawMetricEntry::PearlPutCountRate => "pearl.put_count_rate"@,
        RawMetricEntry::PearlDeleteCountRate => "pearl.delete_count_rate"@,
        RawMetricEntry::BackendAlienCount => "backend.alien_count"@,
        RawMetricEntry::BackendCorruptedBlobCount => "backend.corrupted_blob_count"@,
        RawMetricEntry::HardwareBobVirtualRam => "hardware.bob_virtual_ram"@,
        RawMetricEntry::HardwareTotalRam => "hardware.total_ram"@,
        RawMetricEntry::HardwareUsedRam => "hardware.used_ram"@,
        RawMetricEntry::HardwareBobCpuLoad => "hardware.bob_cpu_load"@,
        RawMetricEntry::HardwareFreeSpace => "hardware.free_space"@,
        RawMetricEntry::HardwareTotalSpace => "hardware.total_space"@,
        RawMetricEntry::HardwareDescrAmount => "hardware.descr_amount"@,
    }
}

/// Each metric is read under the name that BOB reports it by, in quotes as
/// the snapshot's keys hold them: the rate of gets of pearl under
/// `pearl.get_count_rate`, that of puts under `pearl.put_count_rate`, and so
/// on for every metric.
pub proof fn lemma_metric_names()
    ensures
        snapshot_key(RawMetricEntry::ClusterGrinderGetCountRate) == seq!['"'] + "cluster_grinder.get_count_rate"@ + seq!['"'],
        snapshot_key(RawMetricEntry::ClusterGrinderPutCountRate) == seq!['"'] + "cluster_grinder.put_count_rate"@ + seq!['"'],
        snapshot_key(RawMetricEntry::ClusterGrinderExistCountRate) == seq!['"'] + "cluster_grinder.exist_count_rate"@ + seq!['"'],
        snapshot_key(RawMetricEntry::ClusterGrinderDeleteCountRate) == seq!['"'] + "cluster_grinder.delete_count_rate"@ + seq!['"'],
        snapshot_key(RawMetricEntry::PearlExistCountRate) == seq!['"'] + "pearl.exist_count_rate"@ + seq!['"'],
        snapshot_key(RawMetricEntry::PearlGetCountRate) == seq!['"'] + "pearl.get_count_rate"@ + seq!['"'],
        snapshot_key(RawMetricEntry::PearlPutCountRate) == seq!['"'] + "pearl.put_count_rate"@ + seq!['"'],
        snapshot_key(RawMetricEntry::PearlDeleteCountRate) == seq!['"'] + "pearl.delete_count_rate"@ + seq!['"'],
        snapshot_key(RawMetricEntry::BackendAlienCount) == seq!['"'] + "backend.alien_count"@ + seq!['"'],
        snapshot_key(RawMetricEntry::BackendCorruptedBlobCount) == seq!['"'] + "backend.corrupted_blob_count"@ + seq!['"'],
        snapshot_key(RawMetricEntry::HardwareBobVirtualRam) == seq!['"'] + "hardware.bob_virtual_ram"@ + seq!['"'],
        snapshot_key(RawMetricEntry::HardwareTotalRam) == seq!['"'] + "hardware.total_ram"@ + seq!['"'],
        snapshot_key(RawMetricEntry::HardwareUsedRam) == seq!['"'] + "hardware.used_ram"@ + seq!['"'],
        snapshot_key(RawMetricEntry::HardwareBobCpuLoad) == seq!['"'] + "hardware.bob_cpu_load"@ + seq!['"'],
        snapshot_key(RawMetricEntry::HardwareFreeSpace) == seq!['"'] + "hardware.free_space"@ + seq!['"'],
        snapshot_key(RawMetricEntry::HardwareTotalSpace) == seq!['"'] + "hardware.total_space"@ + seq!['"'],
        snapshot_key(RawMetricEntry::HardwareDescrAmount) == seq!['"'] + "hardware.descr_amount"@ + seq!['"'],
{
}

impl RawMetricEntry {
    /// The name under which a node reports this metric.
    pub fn name(&self) -> (r: &'static str)
        ensures
            r@ == raw_metric_name(*self),
    {
        match self {
            RawMetricEntry::ClusterGrinderGetCountRate => "cluster_grinder.get_count_rate",
            RawMetricEntry::ClusterGrinderPutCountRate => "cluster_grinder.put_count_rate",
            RawMetricEntry::ClusterGrinderExistCountRate => "cluster_grinder.exist_count_rate",
            RawMetricEntry::ClusterGrinderDeleteCountRate => "cluster_grinder.delete_count_rate",
            RawMetricEntry::PearlExistCountRate => "pearl.exist_count_rate",
            RawMetricEntry::PearlGetCountRate => "pearl.get_count_rate",
            RawMetricEntry::PearlPutCountRate => "pearl.put_count_rate",
            RawMetricEntry::PearlDeleteCountRate => "pearl.delete_count_rate",
            RawMetricEntry::BackendAlienCount => "backend.alien_count",
            RawMetricEntry::BackendCorruptedBlobCount => "backend.corrupted_blob_count",
            RawMetricEntry::HardwareBobVirtualRam => "hardware.bob_virtual_ram",
            RawMetricEntry::HardwareTotalRam => "hardware.total_ram",
            RawMetricEntry::HardwareUsedRam => "hardware.used_ram",
            RawMetricEntry::HardwareBobCpuLoad => "hardware.bob_cpu_load",
            RawMetricEntry::HardwareFreeSpace => "hardware.free_space",
            RawMetricEntry::HardwareTotalSpace => "hardware.total_space",
            RawMetricEntry::HardwareDescrAmount => "hardware.descr_amount",
        }
    }
}

/// One value for every variant of `Id`.
#[derive(Debug, Clone)]
pub struct TypedMap<Id: TypedKey, V> {
    map: Vec<(Id, V)>,
}

impl<Id: TypedKey, V> TypedMap<Id, V> {
    /// There is one value for every variant.
    pub closed spec fn wf(&self) -> bool {
        &&& self.map@.len() == Id::key_count()
        &&& forall|i: int| 0 <= i < self.map@.len() ==> (#[trigger] self.map@[i]).0.key_index() == i
    }

    /// The value of a variant.
    pub closed spec fn value(&self, k: Id) -> V {
        self.map@[k.key_index()].1
    }

    /// The value of a variant.
    pub fn get(&self, key: Id) -> (r: &V)
        requires
            self.wf(),
        ensures
            *r == self.value(key),
    {
        let i = key.index();
        &self.map[i].1
    }

    /// Sets the value of a variant, and of no other.
    pub fn set(&mut self, key: Id, v: V)
        requires
            old(self).wf(),
        ensures
            final(self).wf(),
            final(self).value(key) == v,
            forall|k: Id| k != key ==> final(self).value(k) == old(self).value(k),
    {
        let i = key.index();
        self.map.set(i, (key, v));
        proof {
            assert forall|k: Id| k != key implies self.value(k) == old(self).value(k) by {
                Id::lemma_index_range(k);
                if k.key_index() == key.key_index() {
                    Id::lemma_index_injective(k, key);
                }
            }
        }
    }
}

impl<Id: TypedKey, V: Default> TypedMap<Id, V> {
    /// Every variant with the default value.
    pub fn new() -> (r: Self)
        ensures
            r.wf(),
            forall|k: Id| V::default.ensures((), #[trigger] r.value(k)),
    {
        let n = Id::count();
        let mut map: Vec<(Id, V)> = Vec::new();
        while map.len() < n
            invariant
                n as int == Id::key_count(),
                map@.len() <= n,
                forall|i: int| 0 <= i < map@.len() ==> (#[trigger] map@[i]).0.key_index() == i && V::default.ensures((), map@[i].1),
            decreases n - map.len(),
        {
            let k = Id::key_at(map.len());
            map.push((k, V::default()));
        }
        let r = TypedMap { map };
        proof {
            assert forall|k: Id| V::default.ensures((), #[trigger] r.value(k)) by {
                Id::lemma_index_range(k);
            }
        }
        r
    }
}

impl<Id: TypedKey, V: Default> Default for TypedMap<Id, V> {
    /// Every variant with the default value.
    fn default() -> (r: Self)
        ensures
            r.wf(),
            forall|k: Id| V::default.ensures((), #[trigger] r.value(k)),
    {
        Self::new()
    }
}

/// The variants of the keys of a map.
pub trait Util<Id> {
    /// Every variant, in order.
    fn key_iter() -> Vec<Id>;
}

impl<Id: TypedKey, V> Util<Id> for TypedMap<Id, V> {
    /// Every variant, in the order of their numbers.
    fn key_iter() -> (r: Vec<Id>)
        ensures
            r@.len() == Id::key_count(),
            forall|i: int| 0 <= i < r@.len() ==> (#[trigger] r@[i]).key_index() == i,
    {
        let n = Id::count();
        let mut keys: Vec<Id> = Vec::new();
        while keys.len() < n
            invariant
                n as int == Id::key_count(),
                keys@.len() <= n,
                forall|i: int| 0 <= i < keys@.len() ==> (#[trigger] keys@[i]).key_index() == i,
            decreases n - keys.len(),
        {
            let k = Id::key_at(keys.len());
            keys.push(k);
        }
        keys
    }
}

/// Requests per second by operation.
pub type RPS = TypedMap<Operation, u64>;

/// The metrics of a node.
pub type TypedMetrics = TypedMap<RawMetricEntry, MetricsEntryModel>;

/// Node count by status.
pub type NodeCount = TypedMap<NodeStatusName, u64>;

/// Disk count by status.
pub type DiskCount = TypedMap<DiskStatusName, u64>;

/// The key under which a metric is looked up in a snapshot: its name as a
/// JSON string, quotes included.
pub open spec fn snapshot_key(k: RawMetricEntry) -> Seq<char> {
    seq!['"'] + raw_metric_name(k) + seq!['"']
}

/// The reading of the first metric from index `j` on with this name.
pub open spec fn reading_from(ms: Seq<(String, MetricsEntryModel)>, name: Seq<char>, j: int) -> Option<MetricsEntryModel>
    decreases ms.len() - j,
{
    if j < 0 || j >= ms.len() {
        None
    } else if ms[j].0@ == name {
        Some(ms[j].1)
    } else {
        reading_from(ms, name, j + 1)
    }
}

/// The reading that a snapshot gives a metric: the one under its key, or
/// zero at time zero.
pub open spec fn snapshot_reading(snapshot: MetricsSnapshotModel, k: RawMetricEntry) -> MetricsEntryModel {
    match reading_from(snapshot.metrics@, snapshot_key(k), 0) {
        Some(m) => m,
        None => MetricsEntryModel { value: 0, timestamp: 0 },
    }
}

/// The value of a metric.
pub open spec fn metric(m: TypedMetrics, k: RawMetricEntry) -> int {
    m.value(k).value as int
}

/// The problems that a node's metrics show, in the order in which they are checked.
pub open spec fn node_problems(m: TypedMetrics) -> Seq<NodeProblem> {
    (if metric(m, RawMetricEntry::BackendAlienCount) != 0 {
        seq![NodeProblem::AliensExists]
    } else {
        Seq::<NodeProblem>::empty()
    }) + (if metric(m, RawMetricEntry::BackendCorruptedBlobCount) != 0 {
        seq![NodeProblem::CorruptedExists]
    } else {
        Seq::<NodeProblem>::empty()
    }) + (if metric(m, RawMetricEntry::HardwareBobCpuLoad) >= DEFAULT_MAX_CPU {
        seq![NodeProblem::HighCPULoad]
    } else {
        Seq::<NodeProblem>::empty()
    }) + (if space_running_out(metric(m, RawMetricEntry::HardwareFreeSpace), metric(m, RawMetricEntry::HardwareTotalSpace)) {
        seq![NodeProblem::FreeSpaceRunningOut]
    } else {
        Seq::<NodeProblem>::empty()
    }) + (if metric(m, RawMetricEntry::HardwareBobVirtualRam) > metric(m, RawMetricEntry::HardwareTotalRam) {
        seq![NodeProblem::VirtualMemLargerThanRAM]
    } else {
        Seq::<NodeProblem>::empty()
    })
}

/// A node is bad when some metric shows a problem.
pub open spec fn bad_node(m: TypedMetrics) -> bool {
    ||| metric(m, RawMetricEntry::BackendAlienCount) != 0
    ||| metric(m, RawMetricEntry::BackendCorruptedBlobCount) != 0
    ||| metric(m, RawMetricEntry::HardwareBobCpuLoad) >= DEFAULT_MAX_CPU
    ||| space_running_out(metric(m, RawMetricEntry::HardwareFreeSpace), metric(m, RawMetricEntry::HardwareTotalSpace))
    ||| metric(m, RawMetricEntry::HardwareBobVirtualRam) > metric(m, RawMetricEntry::HardwareTotalRam)
}

/// The free space of a node is no more than its total space, as the
/// problem checks need.
pub open spec fn space_metrics_ok(m: TypedMetrics) -> bool {
    metric(m, RawMetricEntry::HardwareFreeSpace) <= metric(m, RawMetricEntry::HardwareTotalSpace)
}

/// The key under which a metric is looked up in a snapshot.
pub fn snapshot_key_text(k: RawMetricEntry) -> (r: String)
    ensures
        r@ == snapshot_key(k),
{
    let mut r = String::new();
    push_char(&mut r, '"');
    let cs = chars_of(k.name());
    let mut i: usize = 0;
    while i < cs.len()
        invariant
            0 <= i <= cs.len(),
            cs@ == raw_metric_name(k),
            r@ == seq!['"'] + cs@.take(i as int),
        decreases cs.len() - i,
    {
        push_char(&mut r, cs[i]);
        assert(cs@.take(i + 1) =~= cs@.take(i as int).push(cs@[i as int]));
        i = i + 1;
    }
    push_char(&mut r, '"');
    assert(cs@.take(cs.len() as int) =~= cs@);
    assert(r@ =~= snapshot_key(k));
    r
}

/// The reading that a snapshot gives a metric.
pub fn find_reading(snapshot: &MetricsSnapshotModel, k: RawMetricEntry) -> (r: MetricsEntryModel)
    ensures
        r == snapshot_reading(*snapshot, k),
{
    let key = snapshot_key_text(k);
    let ms = &snapshot.metrics;
    let mut j: usize = 0;
    while j < ms.len()
        invariant
            0 <= j <= ms.len(),
            ms == &snapshot.metrics,
            key@ == snapshot_key(k),
            reading_from(ms@, key@, 0) == reading_from(ms@, key@, j as int),
        decreases ms.len() - j,
    {
        if text_eq(ms[j].0.as_str(), key.as_str()) {
            return ms[j].1;
        }
        j = j + 1;
    }
    MetricsEntryModel { value: 0, timestamp: 0 }
}

impl TypedMetrics {
    /// The metrics of a snapshot: each under its key, zero where it is missing.
    pub fn from_snapshot(snapshot: &MetricsSnapshotModel) -> (r: Self)
        ensures
            r.wf(),
            forall|k: RawMetricEntry| #[trigger] r.value(k) == snapshot_reading(*snapshot, k),
    {
        let n = RawMetricEntry::count();
        let mut map: Vec<(RawMetricEntry, MetricsEntryModel)> = Vec::new();
        while map.len() < n
            invariant
                n as int == RawMetricEntry::key_count(),
                map@.len() <= n,
                forall|i: int| 0 <= i < map@.len() ==> (#[trigger] map@[i]).0.key_index() == i,
                forall|k: RawMetricEntry| 0 <= k.key_index() < map@.len() ==> map@[k.key_index()].1 == snapshot_reading(*snapshot, k),
            decreases n - map.len(),
        {
            let k = RawMetricEntry::key_at(map.len());
            let reading = find_reading(snapshot, k);
            let ghost before = map@;
            map.push((k, reading));
            proof {
                assert forall|j: RawMetricEntry| 0 <= j.key_index() < map@.len() implies map@[j.key_index()].1 == snapshot_reading(*snapshot, j) by {
                    if j.key_index() == before.len() {
                        RawMetricEntry::lemma_index_injective(j, k);
                    }
                }
            }
        }
        let r = TypedMap { map };
        proof {
            assert forall|k: RawMetricEntry| #[trigger] r.value(k) == snapshot_reading(*snapshot, k) by {
                RawMetricEntry::lemma_index_range(k);
            }
        }
        r
    }

    /// Whether the metrics show a problem.
    pub fn is_bad_node(&self) -> (r: bool)
        requires
            self.wf(),
            space_metrics_ok(*self),
        ensures
            r == bad_node(*self),
    {
        self.get(RawMetricEntry::BackendAlienCount).value != 0
            || self.get(RawMetricEntry::BackendCorruptedBlobCount).value != 0
            || self.get(RawMetricEntry::HardwareBobCpuLoad).value >= DEFAULT_MAX_CPU
            || is_space_running_out(self.get(RawMetricEntry::HardwareFreeSpace).value, self.get(RawMetricEntry::HardwareTotalSpace).value)
            || self.get(RawMetricEntry::HardwareBobVirtualRam).value > self.get(RawMetricEntry::HardwareTotalRam).value
    }
}

impl NodeProblem {
    /// The problems that a node's metrics show, with the default limits.
    pub fn default_from_metrics(node_metrics: &TypedMetrics) -> (r: Vec<NodeProblem>)
        requires
            node_metrics.wf(),
            space_metrics_ok(*node_metrics),
        ensures
            r@ == node_problems(*node_metrics),
    {
        let mut res: Vec<NodeProblem> = Vec::new();
        if node_metrics.get(RawMetricEntry::BackendAlienCount).value != 0 {
            res.push(NodeProblem::AliensExists);
        }
        if node_metrics.get(RawMetricEntry::BackendCorruptedBlobCount).value != 0 {
            res.push(NodeProblem::CorruptedExists);
        }
        if node_metrics.get(RawMetricEntry::HardwareBobCpuLoad).value >= DEFAULT_MAX_CPU {
            res.push(NodeProblem::HighCPULoad);
        }
        if is_space_running_out(node_metrics.get(RawMetricEntry::HardwareFreeSpace).value, node_metrics.get(RawMetricEntry::HardwareTotalSpace).value) {
            res.push(NodeProblem::FreeSpaceRunningOut);
        }
        if node_metrics.get(RawMetricEntry::HardwareBobVirtualRam).value > node_metrics.get(RawMetricEntry::HardwareTotalRam).value {
            res.push(NodeProblem::VirtualMemLargerThanRAM);
        }
        assert(res@ =~= node_problems(*node_metrics));
        res
    }
}

/// A node is bad exactly when its metrics show some problem: the check of
/// a node and the list of its problems agree.
pub proof fn lemma_bad_node_iff_problems(m: TypedMetrics)
    ensures
        bad_node(m) <==> node_problems(m).len() > 0,
{
}

} // verus!

use bob_management::connector::dto::{MetricsEntryModel, MetricsSnapshotModel, SpaceInfo as SpaceReport};
use bob_management::models::api::{
    DiskCount, DiskProblem, DiskStatus, DiskStatusName, NodeCount, NodeProblem, NodeStatus,
    NodeStatusName, Operation, RawMetricEntry, TypedMetrics, Util, RPS,
};

#[test]
fn raw_metrics_entry_iter() {
    for key in TypedMetrics::key_iter() {
        assert!(serde_json::to_string(key.name()).is_ok());
    }
}

#[test]
fn disk_status_iter() {
    for key in DiskCount::key_iter() {
        assert!(serde_json::to_string(key.name()).is_ok());
    }
}

#[test]
fn node_status_iter() {
    for key in NodeCount::key_iter() {
        assert!(serde_json::to_string(key.name()).is_ok());
    }
}

#[test]
fn json_names_of_keys() {
    assert_eq!(DiskStatusName::Offline.name(), "offline");
    assert_eq!(NodeStatusName::Good.name(), "good");
    assert_eq!(Operation::Exist.name(), "exist");
    assert_eq!(RawMetricEntry::HardwareFreeSpace.name(), "hardware.free_space");
    assert_eq!(serde_json::to_string(NodeStatusName::Bad.name()).unwrap(), "\"bad\"");
}

#[test]
fn metrics_index() {
    let metrics = TypedMetrics::default();
    for key in TypedMetrics::key_iter() {
        assert_eq!(*metrics.get(key), MetricsEntryModel::default());
    }
}

#[test]
fn node_count_index() {
    let node_count = NodeCount::default();
    for key in NodeCount::key_iter() {
        assert_eq!(*node_count.get(key), 0);
    }
}

#[test]
fn disk_count_index() {
    let disk_count = DiskCount::default();
    for key in DiskCount::key_iter() {
        assert_eq!(*disk_count.get(key), 0);
    }
}

#[test]
fn rps_index() {
    let rps = RPS::default();
    for key in RPS::key_iter() {
        assert_eq!(*rps.get(key), 0);
    }
}

#[test]
fn key_iter_lists_every_variant_once_in_order() {
    let ops = RPS::key_iter();
    assert_eq!(ops, vec![Operation::Put, Operation::Get, Operation::Exist, Operation::Delete]);
    assert_eq!(TypedMetrics::key_iter().len(), 17);
    assert_eq!(NodeCount::key_iter(), vec![NodeStatusName::Good, NodeStatusName::Bad, NodeStatusName::Offline]);
}

#[test]
fn set_changes_one_value_only() {
    let mut count = DiskCount::new();
    count.set(DiskStatusName::Bad, 7);
    assert_eq!(*count.get(DiskStatusName::Bad), 7);
    assert_eq!(*count.get(DiskStatusName::Good), 0);
    assert_eq!(*count.get(DiskStatusName::Offline), 0);
    count.set(DiskStatusName::Bad, 2);
    assert_eq!(*count.get(DiskStatusName::Bad), 2);
}

fn entry(value: u64) -> MetricsEntryModel {
    MetricsEntryModel { value, timestamp: 1 }
}

fn snapshot(pairs: &[(&str, u64)]) -> MetricsSnapshotModel {
    MetricsSnapshotModel { metrics: pairs.iter().map(|(k, v)| (k.to_string(), entry(*v))).collect() }
}

#[test]
fn snapshot_lookup_uses_quoted_names() {
    let plain = snapshot(&[("backend.alien_count", 3)]);
    let metrics = TypedMetrics::from_snapshot(&plain);
    assert_eq!(metrics.get(RawMetricEntry::BackendAlienCount).value, 0);
    let quoted = snapshot(&[("\"backend.alien_count\"", 3), ("\"hardware.total_space\"", 100)]);
    let metrics = TypedMetrics::from_snapshot(&quoted);
    assert_eq!(metrics.get(RawMetricEntry::BackendAlienCount).value, 3);
    assert_eq!(metrics.get(RawMetricEntry::HardwareTotalSpace).value, 100);
    assert_eq!(metrics.get(RawMetricEntry::HardwareFreeSpace).value, 0);
}

fn metrics_with(pairs: &[(&str, u64)]) -> TypedMetrics {
    let quoted: Vec<(String, u64)> = pairs.iter().map(|(k, v)| (format!("\"{k}\""), *v)).collect();
    let quoted_refs: Vec<(&str, u64)> = quoted.iter().map(|(k, v)| (k.as_str(), *v)).collect();
    TypedMetrics::from_snapshot(&snapshot(&quoted_refs))
}

#[test]
fn healthy_node_has_no_problems() {
    let m = metrics_with(&[("hardware.total_space", 100), ("hardware.free_space", 50), ("hardware.bob_cpu_load", 89)]);
    assert!(!m.is_bad_node());
    assert!(NodeProblem::default_from_metrics(&m).is_empty());
    assert_eq!(NodeStatus::from_problems(NodeProblem::default_from_metrics(&m)), NodeStatus::Good);
}

#[test]
fn node_problems_in_checking_order() {
    let m = metrics_with(&[
        ("backend.alien_count", 1),
        ("backend.corrupted_blob_count", 2),
        ("hardware.bob_cpu_load", 90),
        ("hardware.total_space", 100),
        ("hardware.free_space", 9),
        ("hardware.bob_virtual_ram", 11),
        ("hardware.total_ram", 10),
    ]);
    assert!(m.is_bad_node());
    assert_eq!(
        NodeProblem::default_from_metrics(&m),
        vec![
            NodeProblem::AliensExists,
            NodeProblem::CorruptedExists,
            NodeProblem::HighCPULoad,
            NodeProblem::FreeSpaceRunningOut,
            NodeProblem::VirtualMemLargerThanRAM,
        ]
    );
}

#[test]
fn free_space_threshold_is_one_tenth() {
    let at_tenth = metrics_with(&[("hardware.total_space", 100), ("hardware.free_space", 10)]);
    assert!(!at_tenth.is_bad_node());
    let below = metrics_with(&[("hardware.total_space", 100), ("hardware.free_space", 9)]);
    assert!(below.is_bad_node());
    assert_eq!(NodeProblem::default_from_metrics(&below), vec![NodeProblem::FreeSpaceRunningOut]);
    let empty = metrics_with(&[]);
    assert!(!empty.is_bad_node());
}

#[test]
fn from_problems_is_bad_with_them() {
    let status = NodeStatus::from_problems(vec![NodeProblem::HighCPULoad]);
    assert_eq!(status, NodeStatus::Bad(vec![NodeProblem::HighCPULoad]));
}

fn report(total: u64, disks: &[(&str, u64)]) -> SpaceReport {
    SpaceReport {
        total_disk_space_bytes: total,
        free_disk_space_bytes: 0,
        used_disk_space_bytes: 0,
        occupied_disk_space_bytes: 0,
        occupied_disk_space_by_disk: disks.iter().map(|(k, v)| (k.to_string(), *v)).collect(),
    }
}

#[test]
fn disk_status_from_space_info() {
    let space = report(100, &[("d1", 50), ("d2", 91), ("d3", 90)]);
    assert_eq!(DiskStatus::from_space_info(&space, "d1"), DiskStatus::Good);
    assert_eq!(DiskStatus::from_space_info(&space, "d2"), DiskStatus::Bad(vec![DiskProblem::FreeSpaceRunningOut]));
    assert_eq!(DiskStatus::from_space_info(&space, "d3"), DiskStatus::Good);
    assert_eq!(DiskStatus::from_space_info(&space, "d4"), DiskStatus::Offline);
    let empty = report(0, &[("d1", 0)]);
    assert_eq!(DiskStatus::from_space_info(&empty, "d1"), DiskStatus::Good);
}

use bob_management::connector::dto::{
    Dir, DiskState, DistrFunc, Error, Node, NodeConfiguration, Partition, Replica, StatusExt, VDisk,
    VDiskPartitions, Version, VersionInfo,
};
use bob_management::form::FormError;

#[test]
fn disk_state_round_trip() {
    let d = DiskState::new("disk1".to_string(), "/data/d1".to_string(), true);
    let s = d.to_string();
    assert_eq!(s, "name,disk1,path,/data/d1,is_active,true");
    assert_eq!(DiskState::from_str(&s), Ok(d));
}

#[test]
fn disk_state_errors() {
    assert_eq!(DiskState::from_str("name,a,path"), Err(FormError::MissingValue));
    assert_eq!(DiskState::from_str("name,a,size,3"), Err(FormError::UnexpectedKey));
    assert_eq!(DiskState::from_str("name,a,path,p,is_active,yes"), Err(FormError::InvalidValue));
    assert_eq!(DiskState::from_str("name,a,path,p"), Err(FormError::MissingField));
    assert_eq!(DiskState::from_str(""), Err(FormError::MissingValue));
}

#[test]
fn first_value_wins() {
    let d = DiskState::from_str("name,a,path,p,is_active,false,name,b").unwrap();
    assert_eq!(d.name, "a");
    assert!(!d.is_active);
}

#[test]
fn partition_round_trip_and_numbers() {
    let mut p = Partition::new();
    p.vdisk_id = Some(-12);
    p.disk_name = Some("disk".to_string());
    p.records_count = Some(2147483647);
    let s = p.to_string();
    assert_eq!(s, "vdisk_id,-12,disk_name,disk,records_count,2147483647");
    assert_eq!(Partition::from_str(&s), Ok(p));
    assert_eq!(Partition::from_str("timestamp,2147483648"), Err(FormError::InvalidValue));
    assert_eq!(Partition::from_str("timestamp,+5").unwrap().timestamp, Some(5));
}

#[test]
fn partition_empty_text_fails() {
    let p = Partition::new();
    assert_eq!(p.to_string(), "");
    assert_eq!(Partition::from_str(""), Err(FormError::MissingValue));
}

#[test]
fn status_ext_round_trip() {
    let mut st = StatusExt::new();
    st.status = Some(403);
    st.ok = Some(false);
    st.msg = Some("denied".to_string());
    let s = st.to_string();
    assert_eq!(s, "status,403,ok,false,msg,denied");
    assert_eq!(StatusExt::from_str(&s), Ok(st));
}

#[test]
fn node_skips_vdisks_and_refuses_them() {
    let mut n = Node::new("n1".to_string(), "10.0.0.1:20000".to_string());
    n.vdisks = Some(vec![VDisk::new(3)]);
    assert_eq!(n.to_string(), "name,n1,address,10.0.0.1:20000");
    let back = Node::from_str(&n.to_string()).unwrap();
    assert_eq!(back.name, "n1");
    assert_eq!(back.vdisks, None);
    assert_eq!(Node::from_str("name,n,address,a,vdisks,x"), Err(FormError::UnsupportedContainer));
    assert_eq!(Node::from_str("name,n"), Err(FormError::MissingField));
}

#[test]
fn vdisk_and_replica_round_trip() {
    let v = VDisk::new(42);
    assert_eq!(v.to_string(), "id,42");
    assert_eq!(VDisk::from_str("id,42"), Ok(v));
    assert_eq!(VDisk::from_str("id,x"), Err(FormError::InvalidValue));
    let r = Replica::new("n".to_string(), "d".to_string(), "/p".to_string());
    assert_eq!(r.to_string(), "node,n,disk,d,path,/p");
    assert_eq!(Replica::from_str(&r.to_string()), Ok(r));
}

#[test]
fn vdisk_partitions_write_joined_list() {
    let mut p = VDiskPartitions::new();
    p.vdisk = Some(1);
    p.partitions = Some(vec!["a".to_string(), "b".to_string()]);
    assert_eq!(p.to_string(), "vdisk,1,partitions,a,b");
    assert_eq!(VDiskPartitions::from_str(&p.to_string()), Err(FormError::UnsupportedContainer));
    p.partitions = None;
    p.node = Some("n".to_string());
    assert_eq!(VDiskPartitions::from_str(&p.to_string()), Ok(p));
}

#[test]
fn small_dtos() {
    let mut f = DistrFunc::new();
    assert_eq!(f.to_string(), "");
    f.func = Some("mod".to_string());
    assert_eq!(DistrFunc::from_str(&f.to_string()), Ok(f));
    let e = Error::new("500".to_string(), "boom".to_string());
    assert_eq!(e.to_string(), "code,500,message,boom");
    assert_eq!(Error::from_str(&e.to_string()), Ok(e));
    let mut c = NodeConfiguration::new();
    c.root_dir_name = Some("bob".to_string());
    assert_eq!(c.to_string(), "root_dir_name,bob");
    assert_eq!(NodeConfiguration::from_str("root_dir_name,bob"), Ok(c));
    let mut v = Version::new();
    v.version = Some("2.1".to_string());
    v.build_time = Some("today".to_string());
    assert_eq!(Version::from_str(&v.to_string()), Ok(v));
    let mut d = Dir::new();
    d.name = Some("dir".to_string());
    assert_eq!(d.to_string(), "name,dir");
    assert_eq!(Dir::from_str("name,dir,children,x"), Err(FormError::UnsupportedContainer));
}

#[test]
fn version_info_writes_nothing() {
    let mut vi = VersionInfo::new();
    let mut v = Version::new();
    v.version = Some("1".to_string());
    vi.bobversion = Some(v);
    assert_eq!(vi.to_string(), "");
    assert_eq!(VersionInfo::from_str("bobversion,version"), Err(FormError::InvalidValue));
    assert_eq!(VersionInfo::from_str("other,x"), Err(FormError::UnexpectedKey));
    assert_eq!(VersionInfo::from_str(""), Err(FormError::MissingValue));
}

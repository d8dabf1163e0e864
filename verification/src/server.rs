//! The pages of the web server: the address of a node's API, and what the
//! cluster page shows.

use vstd::prelude::*;
use crate::text::{chars_of, push_char};

verus! {

/// Why a BOB node could not be asked.
#[derive(Debug, Clone, Copy, PartialEq, Eq, Structural)]
pub enum BobError {
    Unreachable,
    UnexpectedResponse,
}

/// A replica of a virtual disk, as a node lists it.
#[derive(Debug, Clone, PartialEq, Eq)]
pub struct Replica {
    pub node: String,
    pub disk: String,
    pub path: String,
}

/// A virtual disk, as a node lists it.
#[derive(Debug, Clone, PartialEq, Eq)]
pub struct VDisk {
    pub id: u32,
    pub replicas: Vec<Replica>,
}

/// The port of the API of a node.
pub const API_PORT: u16 = 8000;

/// The address of a path on a node: `http://`, the node's address and the path.
pub fn get_addr(node_addr: &str, absolute_path: &str) -> (r: String)
    ensures
        r@ == "http://"@ + node_addr@ + absolute_path@,
{
    let mut result = String::from_str("http://");
    let a = chars_of(node_addr);
    let b = chars_of(absolute_path);
    let ghost start = result@;
    let mut i: usize = 0;
    while i < a.len()
        invariant
            0 <= i <= a.len(),
            a@ == node_addr@,
            result@ == start + a@.take(i as int),
        decreases a.len() - i,
    {
        push_char(&mut result, a[i]);
        assert(a@.take(i + 1) =~= a@.take(i as int).push(a@[i as int]));
        i = i + 1;
    }
    assert(a@.take(a.len() as int) =~= a@);
    let ghost mid = result@;
    let mut j: usize = 0;
    while j < b.len()
        invariant
            0 <= j <= b.len(),
            b@ == absolute_path@,
            result@ == mid + b@.take(j as int),
        decreases b.len() - j,
    {
        push_char(&mut result, b[j]);
        assert(b@.take(j + 1) =~= b@.take(j as int).push(b@[j as int]));
        j = j + 1;
    }
    assert(b@.take(b.len() as int) =~= b@);
    assert(result@ =~= "http://"@ + node_addr@ + absolute_path@);
    result
}

/// The cluster address that a user entered on the login page.
#[derive(Debug, Clone, PartialEq, Eq)]
pub struct LoginUserInput {
    pub cluster_addr: String,
}

/// A node as the cluster page shows it.
#[derive(Debug, Clone, PartialEq, Eq)]
pub struct NodeDto {
    name: String,
    addr: String,
    active: bool,
}

impl NodeDto {
    /// A node with this name, address and activity.
    pub fn new(name: &str, addr: &str, active: bool) -> (r: Self)
        ensures
            r.name_spec() == name@,
            r.addr_spec() == addr@,
            r.active_spec() == active,
    {
        NodeDto { name: String::from_str(name), addr: String::from_str(addr), active }
    }

    /// The name of the node.
    pub closed spec fn name_spec(&self) -> Seq<char> {
        self.name@
    }

    /// The address of the node.
    pub closed spec fn addr_spec(&self) -> Seq<char> {
        self.addr@
    }

    /// Whether the node is active.
    pub closed spec fn active_spec(&self) -> bool {
        self.active
    }

    /// The name of the node.
    pub fn name(&self) -> (r: &str)
        ensures
            r@ == self.name_spec(),
    {
        self.name.as_str()
    }

    /// The address of the node.
    pub fn addr(&self) -> (r: &str)
        ensures
            r@ == self.addr_spec(),
    {
        self.addr.as_str()
    }

    /// Whether the node is active.
    pub fn active(&self) -> (r: bool)
        ensures
            r == self.active_spec(),
    {
        self.active
    }
}

/// What the cluster page shows.
#[derive(Debug, Clone, PartialEq, Eq)]
pub struct IndexContext {
    pub nodes: Vec<NodeDto>,
}

/// The cluster page for the cluster address kept for the user: its two
/// placeholder nodes at that address, the first active; none without an
/// address, and the user is sent to the login page.
pub fn cluster_index(addr: Option<&str>) -> (r: Option<IndexContext>)
    ensures
        match addr {
            Some(a) => r matches Some(c) && c.nodes@.len() == 2
                && c.nodes@[0].name_spec() == "Dummy1"@ && c.nodes@[0].addr_spec() == a@ && c.nodes@[0].active_spec()
                && c.nodes@[1].name_spec() == "Dummy2"@ && c.nodes@[1].addr_spec() == a@ && !c.nodes@[1].active_spec(),
            None => r is None,
        },
{
    match addr {
        Some(a) => {
            let mut nodes: Vec<NodeDto> = Vec::new();
            nodes.push(NodeDto::new("Dummy1", a, true));
            nodes.push(NodeDto::new("Dummy2", a, false));
            Some(IndexContext { nodes })
        },
        None => None,
    }
}

} // verus!

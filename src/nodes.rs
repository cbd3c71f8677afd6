//! Typed network endpoints of the simulation.

use vstd::prelude::*;

verus! {

/// Kinds of network node.
#[derive(Debug, Clone, Copy, PartialEq, Eq, Structural)]
pub enum NodeType {
    /// Datacenter server (high bandwidth, low latency, stable)
    Datacenter,
    /// Edge server (medium bandwidth, low latency, fairly stable)
    EdgeServer,
    /// Mobile device (variable bandwidth, higher latency, unstable)
    MobileDevice,
    /// Client device (medium bandwidth, medium latency, mostly stable)
    ClientDevice,
}

/// A node of the simulated network. Its location is in fixed-point units on a
/// `[0, 1000]` square.
#[derive(Debug)]
pub struct SimulationNode {
    id: usize,
    name: String,
    node_type: NodeType,
    connected_nodes: Vec<usize>,
    is_mobile: bool,
    location: (u64, u64),
}

impl SimulationNode {
    /// Mobility follows the type, and no id is listed twice among the neighbours.
    pub closed spec fn wf(&self) -> bool {
        &&& self.is_mobile == (self.node_type == NodeType::MobileDevice)
        &&& self.connected_nodes@.no_duplicates()
    }

    pub closed spec fn spec_id(&self) -> usize {
        self.id
    }

    pub closed spec fn spec_name(&self) -> Seq<char> {
        self.name@
    }

    pub closed spec fn spec_node_type(&self) -> NodeType {
        self.node_type
    }

    pub closed spec fn spec_location(&self) -> (u64, u64) {
        self.location
    }

    pub closed spec fn spec_is_mobile(&self) -> bool {
        self.is_mobile
    }

    pub closed spec fn spec_neighbours(&self) -> Seq<usize> {
        self.connected_nodes@
    }

    /// A node with no neighbours; it is mobile exactly when it is a mobile device.
    pub fn new(id: usize, name: String, node_type: NodeType, location: (u64, u64)) -> (r: SimulationNode)
        ensures
            r.spec_id() == id,
            r.spec_name() == name@,
            r.spec_node_type() == node_type,
            r.spec_location() == location,
            r.spec_is_mobile() == (node_type == NodeType::MobileDevice),
            r.spec_neighbours().len() == 0,
            r.wf(),
    {
        let is_mobile = match node_type {
            NodeType::MobileDevice => true,
            _ => false,
        };
        SimulationNode { id, name, node_type, connected_nodes: Vec::new(), is_mobile, location }
    }

    pub fn id(&self) -> (r: usize)
        ensures
            r == self.spec_id(),
    {
        self.id
    }

    pub fn name(&self) -> (r: &str)
        ensures
            r@ == self.spec_name(),
    {
        self.name.as_str()
    }

    pub fn node_type(&self) -> (r: NodeType)
        ensures
            r == self.spec_node_type(),
    {
        self.node_type
    }

    pub fn location(&self) -> (r: (u64, u64))
        ensures
            r == self.spec_location(),
    {
        self.location
    }

    pub fn set_location(&mut self, x: u64, y: u64)
        ensures
            final(self).spec_location() == (x, y),
            final(self).spec_id() == old(self).spec_id(),
            final(self).spec_name() == old(self).spec_name(),
            final(self).spec_node_type() == old(self).spec_node_type(),
            final(self).spec_is_mobile() == old(self).spec_is_mobile(),
            final(self).spec_neighbours() == old(self).spec_neighbours(),
            old(self).wf() ==> final(self).wf(),
    {
        self.location = (x, y);
    }

    pub fn is_mobile(&self) -> (r: bool)
        ensures
            r == self.spec_is_mobile(),
    {
        self.is_mobile
    }

    /// Records `node_id` as a neighbour; a second record of the same id changes nothing.
    pub fn add_connection(&mut self, node_id: usize)
        requires
            old(self).wf(),
        ensures
            final(self).wf(),
            final(self).spec_neighbours().to_set() == old(self).spec_neighbours().to_set().insert(node_id),
            final(self).spec_id() == old(self).spec_id(),
            final(self).spec_name() == old(self).spec_name(),
            final(self).spec_node_type() == old(self).spec_node_type(),
            final(self).spec_location() == old(self).spec_location(),
            final(self).spec_is_mobile() == old(self).spec_is_mobile(),
    {
        if !self.is_connected_to(node_id) {
            self.connected_nodes.push(node_id);
            proof {
                assert(self.connected_nodes@.to_set() =~= old(self).connected_nodes@.to_set().insert(node_id)) by {
                    assert forall|x: usize| #[trigger] self.connected_nodes@.contains(x) <==> (old(self).connected_nodes@.contains(x) || x == node_id) by {
                        if old(self).connected_nodes@.contains(x) {
                            let i = choose|i: int| 0 <= i < old(self).connected_nodes@.len() && old(self).connected_nodes@[i] == x;
                            assert(self.connected_nodes@[i] == x);
                        }
                        if x == node_id {
                            assert(self.connected_nodes@[self.connected_nodes@.len() - 1] == x);
                        }
                    }
                }
            }
        } else {
            assert(self.connected_nodes@.to_set() =~= old(self).connected_nodes@.to_set().insert(node_id));
        }
    }

    pub fn is_connected_to(&self, node_id: usize) -> (r: bool)
        ensures
            r == self.spec_neighbours().contains(node_id),
    {
        let mut i: usize = 0;
        while i < self.connected_nodes.len()
            invariant
                i <= self.connected_nodes@.len(),
                forall|k: int| 0 <= k < i ==> self.connected_nodes@[k] != node_id,
            decreases self.connected_nodes@.len() - i,
        {
            if self.connected_nodes[i] == node_id {
                return true;
            }
            i = i + 1;
        }
        false
    }

    pub fn connected_nodes(&self) -> (r: &Vec<usize>)
        ensures
            r@ == self.spec_neighbours(),
    {
        &self.connected_nodes
    }
}

} // verus!

//! Declarative task-graph descriptions: which task nodes run on which
//! queue family, which node must run before which, and which buffers the
//! host writes. The GPU layer compiles such a description into an
//! executable schedule with the barriers it implies; what is verified
//! here is the construction — the graphs the renderer and the update
//! worker hand over for compilation.

use vstd::prelude::*;

verus! {

/// The queue family a task node is scheduled on.
#[derive(Clone, Copy, Debug, PartialEq, Eq, Structural)]
pub enum QueueFamilyType {
    Graphics,
    Compute,
    Transfer,
}

/// How the host accesses a buffer around the graph's execution.
#[derive(Clone, Copy, Debug, PartialEq, Eq, Structural)]
pub enum HostAccessKind {
    Read,
    Write,
}

/// A declarative task graph: task nodes by queue family, ordering edges
/// between them, and the buffers the host accesses, each named by an
/// opaque id.
pub struct TaskGraphSpec {
    nodes: Vec<QueueFamilyType>,
    edges: Vec<(usize, usize)>,
    host_accesses: Vec<(u64, HostAccessKind)>,
}

impl TaskGraphSpec {
    pub closed spec fn nodes(&self) -> Seq<QueueFamilyType> {
        self.nodes@
    }

    pub closed spec fn edges(&self) -> Seq<(usize, usize)> {
        self.edges@
    }

    pub closed spec fn host_accesses(&self) -> Seq<(u64, HostAccessKind)> {
        self.host_accesses@
    }

    /// Every edge joins two distinct existing nodes.
    pub open spec fn wf(&self) -> bool {
        forall|i: int|
            0 <= i < self.edges().len() ==> {
                &&& (#[trigger] self.edges()[i]).0 < self.nodes().len()
                &&& self.edges()[i].1 < self.nodes().len()
                &&& self.edges()[i].0 != self.edges()[i].1
            }
    }

    /// The task nodes' queue families, in node-id order.
    pub fn queue_families(&self) -> (r: &Vec<QueueFamilyType>)
        ensures
            r@ == self.nodes(),
    {
        &self.nodes
    }

    /// The ordering edges, in the order they were added.
    pub fn ordering_edges(&self) -> (r: &Vec<(usize, usize)>)
        ensures
            r@ == self.edges(),
    {
        &self.edges
    }

    /// The declared host buffer accesses, in the order they were added.
    pub fn host_buffer_accesses(&self) -> (r: &Vec<(u64, HostAccessKind)>)
        ensures
            r@ == self.host_accesses(),
    {
        &self.host_accesses
    }

    /// An empty graph.
    pub fn new() -> (r: TaskGraphSpec)
        ensures
            r.wf(),
            r.nodes().len() == 0,
            r.edges().len() == 0,
            r.host_accesses().len() == 0,
    {
        TaskGraphSpec { nodes: Vec::new(), edges: Vec::new(), host_accesses: Vec::new() }
    }

    /// Add a task node on a queue family; returns its id.
    pub fn create_task_node(&mut self, queue_family: QueueFamilyType) -> (r: usize)
        requires
            old(self).wf(),
            old(self).nodes().len() < usize::MAX,
        ensures
            final(self).wf(),
            r == old(self).nodes().len(),
            final(self).nodes() == old(self).nodes().push(queue_family),
            final(self).edges() == old(self).edges(),
            final(self).host_accesses() == old(self).host_accesses(),
    {
        let id = self.nodes.len();
        self.nodes.push(queue_family);
        proof {
            assert forall|i: int|
                0 <= i < self.edges@.len() implies {
                &&& (#[trigger] self.edges@[i]).0 < self.nodes@.len()
                &&& self.edges@[i].1 < self.nodes@.len()
                &&& self.edges@[i].0 != self.edges@[i].1
            } by {
                assert((#[trigger] old(self).edges()[i]).0 < old(self).nodes().len());
            }
        }
        id
    }

    /// Require node `from` to run before node `to`.
    pub fn add_edge(&mut self, from: usize, to: usize)
        requires
            old(self).wf(),
            from < old(self).nodes().len(),
            to < old(self).nodes().len(),
            from != to,
        ensures
            final(self).wf(),
            final(self).nodes() == old(self).nodes(),
            final(self).edges() == old(self).edges().push((from, to)),
            final(self).host_accesses() == old(self).host_accesses(),
    {
        self.edges.push((from, to));
        proof {
            let n = self.edges@.len() - 1;
            assert forall|i: int|
                0 <= i < self.edges@.len() implies {
                &&& (#[trigger] self.edges@[i]).0 < self.nodes@.len()
                &&& self.edges@[i].1 < self.nodes@.len()
                &&& self.edges@[i].0 != self.edges@[i].1
            } by {
                if i < n {
                    assert((#[trigger] old(self).edges()[i]).0 < old(self).nodes().len());
                } else {
                    assert(self.edges@[n] == (from, to));
                }
            }
        }
    }

    /// Declare a host access to a buffer around the graph's execution.
    pub fn add_host_buffer_access(&mut self, buffer_id: u64, access: HostAccessKind)
        requires
            old(self).wf(),
        ensures
            final(self).wf(),
            final(self).nodes() == old(self).nodes(),
            final(self).edges() == old(self).edges(),
            final(self).host_accesses() == old(self).host_accesses().push((buffer_id, access)),
    {
        self.host_accesses.push((buffer_id, access));
        proof {
            assert forall|i: int|
                0 <= i < self.edges@.len() implies {
                &&& (#[trigger] self.edges@[i]).0 < self.nodes@.len()
                &&& self.edges@[i].1 < self.nodes@.len()
                &&& self.edges@[i].0 != self.edges@[i].1
            } by {
                assert((#[trigger] old(self).edges()[i]).0 < old(self).nodes().len());
            }
        }
    }
}

/// The graph the update worker compiles once at startup: a single compute
/// node that updates the back-buffer TLAS, with host write access to the
/// instance buffer it reads.
pub fn worker_graph(instance_buffer_id: u64) -> (r: TaskGraphSpec)
    ensures
        r.wf(),
        r.nodes() == seq![QueueFamilyType::Compute],
        r.edges() == Seq::<(usize, usize)>::empty(),
        r.host_accesses() == seq![(instance_buffer_id, HostAccessKind::Write)],
{
    let mut graph = TaskGraphSpec::new();
    graph.add_host_buffer_access(instance_buffer_id, HostAccessKind::Write);
    let _ = graph.create_task_node(QueueFamilyType::Compute);
    proof {
        assert(graph.nodes() =~= seq![QueueFamilyType::Compute]);
        assert(graph.host_accesses() =~= seq![(instance_buffer_id, HostAccessKind::Write)]);
    }
    graph
}

/// The graph the render loop compiles once per surface: the ray-tracing
/// node on the graphics queue, the acceleration-structure update node on
/// the compute queue, an edge making the update follow the renderer, and
/// host write access to the TLAS instance buffer.
pub fn render_graph(instance_buffer_id: u64) -> (r: TaskGraphSpec)
    ensures
        r.wf(),
        r.nodes() == seq![QueueFamilyType::Graphics, QueueFamilyType::Compute],
        r.edges() == seq![(0usize, 1usize)],
        r.host_accesses() == seq![(instance_buffer_id, HostAccessKind::Write)],
{
    let mut graph = TaskGraphSpec::new();
    let renderer_node_id = graph.create_task_node(QueueFamilyType::Graphics);
    let update_node_id = graph.create_task_node(QueueFamilyType::Compute);
    graph.add_edge(renderer_node_id, update_node_id);
    graph.add_host_buffer_access(instance_buffer_id, HostAccessKind::Write);
    proof {
        assert(graph.nodes() =~= seq![QueueFamilyType::Graphics, QueueFamilyType::Compute]);
        assert(graph.edges() =~= seq![(0usize, 1usize)]);
        assert(graph.host_accesses() =~= seq![(instance_buffer_id, HostAccessKind::Write)]);
    }
    graph
}

} // verus!

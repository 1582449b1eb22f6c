//! The directed graph that the registry keeps its formats and codecs in: a `petgraph::Graph`
//! whose nodes are formats and whose edges carry no weight (edge `k` stands for the `k`-th
//! registered codec).
use petgraph::graph::EdgeIndex;
use petgraph::graph::Graph;
use petgraph::graph::NodeIndex;
use petgraph::Directed;
use vstd::prelude::*;

use crate::transcoder::DataFormat;

verus! {

#[verifier::external_type_specification]
#[verifier::external_body]
#[verifier::reject_recursive_types(N)]
#[verifier::reject_recursive_types(E)]
#[verifier::reject_recursive_types(Ty)]
#[verifier::reject_recursive_types(Ix)]
pub struct ExGraph<N, E, Ty, Ix>(Graph<N, E, Ty, Ix>);

#[verifier::external_type_specification]
#[verifier::external_body]
#[verifier::reject_recursive_types(Ix)]
pub struct ExNodeIndex<Ix>(NodeIndex<Ix>);

#[verifier::external_type_specification]
#[verifier::external_body]
#[verifier::reject_recursive_types(Ix)]
pub struct ExEdgeIndex<Ix>(EdgeIndex<Ix>);

#[verifier::external_type_specification]
#[verifier::external_body]
pub struct ExDirected(Directed);

/// The formats held as nodes, in the order of their indices.
pub uninterp spec fn graph_nodes(g: Graph<DataFormat, ()>) -> Seq<DataFormat>;

/// The edges, in the order of their indices, each as (source index, target index).
pub uninterp spec fn graph_edges(g: Graph<DataFormat, ()>) -> Seq<(usize, usize)>;

/// The position that a node index stands for (`NodeIndex::index`).
pub uninterp spec fn node_index_value(n: NodeIndex) -> usize;

/// The position that an edge index stands for (`EdgeIndex::index`).
pub uninterp spec fn edge_index_value(e: EdgeIndex) -> usize;

/// Calls `Graph::default`: a graph with no nodes and no edges.
#[verifier::external_body]
pub fn empty_graph() -> (g: Graph<DataFormat, ()>)
    ensures
        graph_nodes(g) == Seq::<DataFormat>::empty(),
        graph_edges(g) == Seq::<(usize, usize)>::empty(),
{
    Graph::default()
}

/// Calls `Graph::node_count`: the number of nodes.
#[verifier::external_body]
pub fn node_count(g: &Graph<DataFormat, ()>) -> (r: usize)
    ensures
        r == graph_nodes(*g).len(),
{
    g.node_count()
}

/// Calls `Graph::edge_count`: the number of edges.
#[verifier::external_body]
pub fn edge_count(g: &Graph<DataFormat, ()>) -> (r: usize)
    ensures
        r == graph_edges(*g).len(),
{
    g.edge_count()
}

/// Calls `Graph::add_node`: appends `weight` as a new node, whose index is the old node count,
/// and leaves the edges alone. It panics when the node count has reached `u32::MAX`, the end
/// index of the default index type; `requires` leaves that out.
#[verifier::external_body]
pub fn add_node(g: &mut Graph<DataFormat, ()>, weight: DataFormat) -> (r: NodeIndex)
    requires
        graph_nodes(*old(g)).len() < u32::MAX,
    ensures
        graph_nodes(*final(g)) == graph_nodes(*old(g)).push(weight),
        graph_edges(*final(g)) == graph_edges(*old(g)),
        node_index_value(r) == graph_nodes(*old(g)).len(),
{
    g.add_node(weight)
}

/// Calls `Graph::add_edge`: appends an edge from `a` to `b`, whose index is the old edge count,
/// and leaves the nodes alone. It panics when either node does not exist or when the edge count
/// has reached `u32::MAX`; `requires` leaves both out.
#[verifier::external_body]
pub fn add_edge(g: &mut Graph<DataFormat, ()>, a: NodeIndex, b: NodeIndex) -> (r: EdgeIndex)
    requires
        node_index_value(a) < graph_nodes(*old(g)).len(),
        node_index_value(b) < graph_nodes(*old(g)).len(),
        graph_edges(*old(g)).len() < u32::MAX,
    ensures
        graph_nodes(*final(g)) == graph_nodes(*old(g)),
        graph_edges(*final(g)) == graph_edges(*old(g)).push(
            (node_index_value(a), node_index_value(b)),
        ),
        edge_index_value(r) == graph_edges(*old(g)).len(),
{
    g.add_edge(a, b, ())
}

/// Calls `Index<NodeIndex>` on the graph: the weight of node `a`, which must exist (it panics
/// otherwise).
#[verifier::external_body]
pub fn node_weight(g: &Graph<DataFormat, ()>, a: NodeIndex) -> (r: &DataFormat)
    requires
        node_index_value(a) < graph_nodes(*g).len(),
    ensures
        *r == graph_nodes(*g)[node_index_value(a) as int],
{
    &g[a]
}

/// Calls `Graph::edge_endpoints`: the source and target of edge `e`, and `None` when there is
/// no such edge.
#[verifier::external_body]
pub fn edge_endpoints(g: &Graph<DataFormat, ()>, e: EdgeIndex) -> (r: Option<(NodeIndex, NodeIndex)>)
    ensures
        r is Some <==> edge_index_value(e) < graph_edges(*g).len(),
        r matches Some((a, b)) ==> (node_index_value(a), node_index_value(b)) == graph_edges(
            *g,
        )[edge_index_value(e) as int],
{
    g.edge_endpoints(e)
}

/// Calls `NodeIndex::new`, which keeps `x` as a `u32`; `requires` keeps `x` within that range,
/// where `NodeIndex::index` gives `x` back.
#[verifier::external_body]
pub fn node_index_new(x: usize) -> (r: NodeIndex)
    requires
        x <= u32::MAX,
    ensures
        node_index_value(r) == x,
{
    NodeIndex::new(x)
}

/// Calls `EdgeIndex::index`.
#[verifier::external_body]
pub fn edge_index_get(e: EdgeIndex) -> (r: usize)
    ensures
        r == edge_index_value(e),
{
    e.index()
}

/// Calls `NodeIndex::index`.
#[verifier::external_body]
pub fn node_index_get(n: NodeIndex) -> (r: usize)
    ensures
        r == node_index_value(n),
{
    n.index()
}

} // verus!

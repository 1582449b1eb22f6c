//! [`Registry`] and [`Plugin`]: a directed graph of [`DataFormat`] nodes and codec edges.
//!
//! Each [`Registry::add_codec`] call inserts or reuses nodes for the codec's input and output
//! formats and adds one edge between them. A route found through the graph (its nodes, and the
//! edge taken for each hop) is turned into the codecs along it by [`Registry::route_codecs`].
use petgraph::graph::EdgeIndex;
use petgraph::graph::Graph;
use petgraph::graph::NodeIndex;
use vstd::prelude::*;

use crate::graph::add_edge;
use crate::graph::add_node;
use crate::graph::edge_count;
use crate::graph::edge_endpoints;
use crate::graph::edge_index_get;
use crate::graph::edge_index_value;
use crate::graph::empty_graph;
use crate::graph::graph_edges;
use crate::graph::graph_nodes;
use crate::graph::node_count;
use crate::graph::node_index_get;
use crate::graph::node_index_new;
use crate::graph::node_index_value;
use crate::graph::node_weight;
use crate::transcoder::DataFormat;
use crate::transcoder::FormatKey;

verus! {

/// The keys after registering a format with key `k`: unchanged when `k` is already there, and
/// `k` appended otherwise.
pub open spec fn with_key(keys: Seq<FormatKey>, k: FormatKey) -> Seq<FormatKey> {
    if keys.contains(k) {
        keys
    } else {
        keys.push(k)
    }
}

/// What every registry keeps, whatever was done to it: each format is registered at most once,
/// every edge joins two registered formats, and there is exactly one codec per edge.
pub open spec fn consistent(keys: Seq<FormatKey>, hops: Seq<(usize, usize)>, codec_count: nat) -> bool {
    &&& keys.no_duplicates()
    &&& codec_count == hops.len()
    &&& forall|k: int|
        0 <= k < hops.len() ==> (#[trigger] hops[k]).0 < keys.len() && hops[k].1 < keys.len()
}

/// `i` is the first position at which `k` occurs in `keys`.
pub open spec fn is_first_index(keys: Seq<FormatKey>, k: FormatKey, i: int) -> bool {
    &&& 0 <= i < keys.len()
    &&& keys[i] == k
    &&& forall|j: int| 0 <= j < i ==> keys[j] != k
}

/// The positions that a sequence of node indices stands for.
pub open spec fn positions(nodes: Seq<NodeIndex>) -> Seq<usize> {
    nodes.map_values(|n: NodeIndex| node_index_value(n))
}

/// The positions that a sequence of edge indices stands for.
pub open spec fn edge_positions(edges: Seq<EdgeIndex>) -> Seq<usize> {
    edges.map_values(|e: EdgeIndex| edge_index_value(e))
}

/// `edges` walks `route`: one edge per hop, and edge `i` is an existing edge from node `i` of
/// the route to node `i + 1`.
pub open spec fn follows(hops: Seq<(usize, usize)>, route: Seq<usize>, edges: Seq<usize>) -> bool {
    &&& edges.len() == if route.len() == 0 {
        0
    } else {
        route.len() - 1
    }
    &&& forall|i: int|
        0 <= i < edges.len() ==> #[trigger] edges[i] < hops.len() && hops[edges[i] as int] == (
            route[i],
            route[i + 1],
        )
}

/// Extension hook to register a batch of codecs on a [`Registry`].
pub trait Plugin<E>: Sized {
    /// Registers this plugin's codecs on `registry`.
    fn register(self, registry: &mut Registry<E>);
}

/// Owns the conversion graph: formats as nodes, codecs as edges. The `k`-th edge of the graph
/// stands for `codecs[k]`.
#[derive(Debug)]
pub struct Registry<E> {
    graph: Graph<DataFormat, ()>,
    codecs: Vec<E>,
}

impl<E> Registry<E> {
    /// The keys of the registered formats, by node index.
    pub closed spec fn keys(&self) -> Seq<FormatKey> {
        graph_keys(self.graph)
    }

    /// The edges, by index, as (source node, target node).
    pub closed spec fn hops(&self) -> Seq<(usize, usize)> {
        graph_edges(self.graph)
    }

    /// The codecs, by edge index.
    pub closed spec fn codec_seq(&self) -> Seq<E> {
        self.codecs@
    }

    /// Well-formedness: one codec per edge, every edge between existing nodes, no format
    /// registered twice, and node indices within the `u32` range of the graph.
    #[verifier::type_invariant]
    closed spec fn wf(self) -> bool {
        &&& self.codecs@.len() == graph_edges(self.graph).len()
        &&& graph_nodes(self.graph).len() <= u32::MAX
        &&& forall|k: int|
            0 <= k < graph_edges(self.graph).len() ==> {
                &&& (#[trigger] graph_edges(self.graph)[k]).0 < graph_nodes(self.graph).len()
                &&& graph_edges(self.graph)[k].1 < graph_nodes(self.graph).len()
            }
        &&& self.keys().no_duplicates()
    }

    /// An empty registry.
    pub fn new() -> (r: Self)
        ensures
            r.keys() == Seq::<FormatKey>::empty(),
            r.hops() == Seq::<(usize, usize)>::empty(),
            r.codec_seq() == Seq::<E>::empty(),
            consistent(r.keys(), r.hops(), r.codec_seq().len()),
    {
        let r = Registry { graph: empty_graph(), codecs: Vec::new() };
        assert(r.keys() =~= Seq::<FormatKey>::empty());
        r
    }

    /// The graph of formats; edge `k` stands for the `k`-th codec.
    pub fn graph(&self) -> (r: &Graph<DataFormat, ()>)
        ensures
            graph_nodes(*r).map_values(|f: DataFormat| f@) == self.keys(),
            graph_edges(*r) == self.hops(),
    {
        &self.graph
    }

    /// The codecs, by edge index.
    pub fn codecs(&self) -> (r: &Vec<E>)
        ensures
            r@ == self.codec_seq(),
    {
        &self.codecs
    }

    /// The number of registered formats.
    pub fn format_count(&self) -> (r: usize)
        ensures
            r == self.keys().len(),
    {
        node_count(&self.graph)
    }

    /// The number of registered codecs.
    pub fn codec_count(&self) -> (r: usize)
        ensures
            r == self.hops().len(),
            r == self.codec_seq().len(),
    {
        proof {
            use_type_invariant(self);
        }
        edge_count(&self.graph)
    }

    /// Registers all codecs provided by `plugin`.
    pub fn add_plugin<P: Plugin<E>>(&mut self, plugin: P)
        ensures
            consistent(final(self).keys(), final(self).hops(), final(self).codec_seq().len()),
            exists|m: &mut Registry<E>|
                call_ensures(P::register, (plugin, m), ()) && mut_ref_current(m) == *old(self)
                    && mut_ref_future(m) == *final(self),
    {
        let register = P::register;
        let m = &mut *self;
        register(plugin, m);
        proof {
            use_type_invariant(&*self);
        }
    }

    /// The node index of `data_format`: its first occurrence, or `None` when it is not
    /// registered.
    pub fn find_data_format(&self, data_format: DataFormat) -> (r: Option<NodeIndex>)
        ensures
            match r {
                Some(n) => is_first_index(self.keys(), data_format@, node_index_value(n) as int),
                None => !self.keys().contains(data_format@),
            },
            r matches Some(n) ==> node_index_value(n) < self.keys().len() && self.keys()[node_index_value(
                n,
            ) as int] == data_format@,
    {
        proof {
            use_type_invariant(self);
        }
        let r = find_in(&self.graph, data_format);
        proof {
            if let Some(n) = r {
                lemma_first_index_is_exact(self.keys(), data_format@, node_index_value(n) as int);
            }
        }
        r
    }

    /// Registers `data_format` as a node unless it is already one, and returns its node index.
    /// The edges and codecs are left alone.
    pub fn add_data_format(&mut self, data_format: DataFormat) -> (r: NodeIndex)
        requires
            old(self).keys().contains(data_format@) || old(self).keys().len() < u32::MAX,
        ensures
            final(self).keys() == with_key(old(self).keys(), data_format@),
            final(self).hops() == old(self).hops(),
            final(self).codec_seq() == old(self).codec_seq(),
            node_index_value(r) < final(self).keys().len(),
            final(self).keys()[node_index_value(r) as int] == data_format@,
            consistent(final(self).keys(), final(self).hops(), final(self).codec_seq().len()),
    {
        let mut taken = Registry::new();
        std::mem::swap(self, &mut taken);
        proof {
            use_type_invariant(&taken);
        }
        let Registry { mut graph, codecs } = taken;
        let n = add_format_to(&mut graph, data_format);
        proof {
            lemma_with_key_no_duplicates(graph_keys(taken.graph), data_format@);
        }
        *self = Registry { graph, codecs };
        proof {
            use_type_invariant(&*self);
        }
        n
    }

    /// Registers `codec` as an edge from `decodes` to `encodes`, adding either format as a node
    /// first when it is not registered yet.
    pub fn add_codec(&mut self, decodes: DataFormat, encodes: DataFormat, codec: E)
        requires
            with_key(with_key(old(self).keys(), decodes@), encodes@).len() <= u32::MAX,
            old(self).hops().len() < u32::MAX,
        ensures
            final(self).keys() == with_key(with_key(old(self).keys(), decodes@), encodes@),
            final(self).hops().len() == old(self).hops().len() + 1,
            final(self).hops().drop_last() == old(self).hops(),
            final(self).keys()[final(self).hops().last().0 as int] == decodes@,
            final(self).keys()[final(self).hops().last().1 as int] == encodes@,
            final(self).codec_seq() == old(self).codec_seq().push(codec),
            consistent(final(self).keys(), final(self).hops(), final(self).codec_seq().len()),
    {
        let mut taken = Registry::new();
        std::mem::swap(self, &mut taken);
        proof {
            use_type_invariant(&taken);
        }
        let Registry { mut graph, mut codecs } = taken;
        let ghost keys0 = graph_keys(graph);
        let dec = add_format_to(&mut graph, decodes);
        proof {
            lemma_with_key_no_duplicates(keys0, decodes@);
        }
        let ghost keys1 = graph_keys(graph);
        let enc = add_format_to(&mut graph, encodes);
        proof {
            lemma_with_key_no_duplicates(keys1, encodes@);
        }
        let ghost edges1 = graph_edges(graph);
        add_edge(&mut graph, dec, enc);
        codecs.push(codec);
        proof {
            assert(graph_edges(graph).drop_last() =~= edges1);
            assert forall|k: int| 0 <= k < graph_edges(graph).len() implies {
                &&& (#[trigger] graph_edges(graph)[k]).0 < graph_nodes(graph).len()
                &&& graph_edges(graph)[k].1 < graph_nodes(graph).len()
            } by {
                if k < edges1.len() {
                    assert(graph_edges(graph)[k] == edges1[k]);
                }
            }
        }
        *self = Registry { graph, codecs };
        proof {
            use_type_invariant(&*self);
        }
    }

    /// The end points of a search from `in_format` to `out_format`: the node index of each,
    /// or `None` when either format is not registered.
    pub fn path_endpoints(&self, in_format: DataFormat, out_format: DataFormat) -> (r: Option<
        (NodeIndex, NodeIndex),
    >)
        ensures
            r is None <==> !self.keys().contains(in_format@) || !self.keys().contains(
                out_format@,
            ),
            r matches Some((start, target)) ==> {
                &&& is_first_index(self.keys(), in_format@, node_index_value(start) as int)
                &&& is_first_index(self.keys(), out_format@, node_index_value(target) as int)
            },
            r matches Some((start, target)) ==> {
                &&& node_index_value(start) < self.keys().len()
                &&& self.keys()[node_index_value(start) as int] == in_format@
                &&& node_index_value(target) < self.keys().len()
                &&& self.keys()[node_index_value(target) as int] == out_format@
            },
    {
        let start = match self.find_data_format(in_format) {
            Some(n) => n,
            None => return None,
        };
        let target = match self.find_data_format(out_format) {
            Some(n) => n,
            None => return None,
        };
        Some((start, target))
    }

    /// Whether `edges` walks `nodes`: one edge per hop, each from that hop's node to the next.
    pub fn follows_route(&self, nodes: &Vec<NodeIndex>, edges: &Vec<EdgeIndex>) -> (r: bool)
        ensures
            r == follows(self.hops(), positions(nodes@), edge_positions(edges@)),
            r <==> {
                &&& edges.len() + 1 == nodes.len() || (nodes.len() == 0 && edges.len() == 0)
                &&& forall|i: int|
                    0 <= i < edges.len() ==> {
                        &&& edge_index_value(#[trigger] edges[i]) < self.hops().len()
                        &&& self.hops()[edge_index_value(edges[i]) as int].0 == node_index_value(
                            nodes[i],
                        )
                        &&& self.hops()[edge_index_value(edges[i]) as int].1 == node_index_value(
                            nodes[i + 1],
                        )
                    }
            },
    {
        proof {
            lemma_follows_exactly(self.hops(), positions(nodes@), edge_positions(edges@));
            assert forall|i: int| 0 <= i < edges.len() implies edge_positions(edges@)[i]
                == edge_index_value(#[trigger] edges[i]) by {}
            assert forall|i: int| 0 <= i < nodes.len() implies positions(nodes@)[i]
                == node_index_value(#[trigger] nodes[i]) by {}
        }
        let ghost route = positions(nodes@);
        let ghost chain = edge_positions(edges@);
        let hop_count = if nodes.len() == 0 {
            0
        } else {
            nodes.len() - 1
        };
        if edges.len() != hop_count {
            return false;
        }
        let mut i: usize = 0;
        while i < edges.len()
            invariant
                route == positions(nodes@),
                chain == edge_positions(edges@),
                edges.len() == hop_count,
                hop_count == if nodes.len() == 0 {
                    0
                } else {
                    nodes.len() - 1
                },
                i <= edges.len(),
                forall|j: int|
                    0 <= j < i ==> #[trigger] chain[j] < self.hops().len() && self.hops()[chain[j] as int]
                        == (route[j], route[j + 1]),
            decreases edges.len() - i,
        {
            proof {
                assert(chain[i as int] == edge_index_value(edges[i as int]));
                assert(route[i as int] == node_index_value(nodes[i as int]));
                assert(route[i + 1] == node_index_value(nodes[i + 1]));
            }
            match edge_endpoints(&self.graph, edges[i]) {
                None => return false,
                Some((a, b)) => {
                    if node_index_get(a) != node_index_get(nodes[i]) || node_index_get(b)
                        != node_index_get(nodes[i + 1]) {
                        return false;
                    }
                },
            }
            i += 1;
        }
        true
    }

    /// The codecs along a route found from one format to another, together with the cost the
    /// search reported: the codec of each edge the search took, hop by hop. `None` when no
    /// route was found.
    pub fn route_codecs<K>(&self, found: Option<(K, Vec<NodeIndex>, Vec<EdgeIndex>)>) -> (r: Option<
        (K, Vec<&E>),
    >)
        requires
            found matches Some((_, nodes, edges)) ==> follows(
                self.hops(),
                positions(nodes@),
                edge_positions(edges@),
            ),
        ensures
            r is None <==> found is None,
            r matches Some((cost, codecs)) ==> found matches Some((found_cost, nodes, edges)) && {
                &&& cost == found_cost
                &&& codecs.len() == edges.len()
                &&& forall|i: int|
                    0 <= i < codecs.len() ==> edge_index_value(edges[i]) < self.codec_seq().len()
                        && *codecs[i] == self.codec_seq()[edge_index_value(#[trigger] edges[i]) as int]
            },
    {
        proof {
            use_type_invariant(self);
        }
        match found {
            None => None,
            Some((cost, nodes, edges)) => {
                let ghost chain = edge_positions(edges@);
                let mut codecs: Vec<&E> = Vec::new();
                let mut i: usize = 0;
                while i < edges.len()
                    invariant
                        chain == edge_positions(edges@),
                        forall|j: int| 0 <= j < edges.len() ==> #[trigger] chain[j] < self.hops().len(),
                        self.codecs@.len() == self.hops().len(),
                        i <= edges.len(),
                        codecs.len() == i,
                        forall|j: int|
                            0 <= j < i ==> edge_index_value(edges[j]) < self.codecs@.len() && *codecs[j]
                                == self.codecs@[edge_index_value(#[trigger] edges[j]) as int],
                    decreases edges.len() - i,
                {
                    proof {
                        assert(chain[i as int] < self.hops().len());
                    }
                    let k = edge_index_get(edges[i]);
                    codecs.push(&self.codecs[k]);
                    i += 1;
                }
                Some((cost, codecs))
            },
        }
    }
}

impl<E> Default for Registry<E> {
    fn default() -> (r: Self)
        ensures
            r.keys() == Seq::<FormatKey>::empty(),
            r.hops() == Seq::<(usize, usize)>::empty(),
            r.codec_seq() == Seq::<E>::empty(),
            consistent(r.keys(), r.hops(), r.codec_seq().len()),
    {
        Registry::new()
    }
}


/// What the route check accepts, said without [`follows`]: exactly one edge per hop (none for
/// an empty or a single-node route), and each edge an existing one whose source is the hop's
/// node and whose target is the next node. Nothing about the order of node indices enters.
pub proof fn lemma_follows_exactly(hops: Seq<(usize, usize)>, route: Seq<usize>, edges: Seq<usize>)
    ensures
        follows(hops, route, edges) <==> {
            &&& edges.len() + 1 == route.len() || (route.len() == 0 && edges.len() == 0)
            &&& forall|i: int|
                0 <= i < edges.len() ==> {
                    &&& #[trigger] edges[i] < hops.len()
                    &&& hops[edges[i] as int].0 == route[i]
                    &&& hops[edges[i] as int].1 == route[i + 1]
                }
        },
{
}

/// The lookup's answer names the format itself: the first index of a key holds that very key,
/// and no earlier index does.
pub proof fn lemma_first_index_is_exact(keys: Seq<FormatKey>, k: FormatKey, i: int)
    ensures
        is_first_index(keys, k, i) ==> 0 <= i < keys.len() && keys[i] == k,
        is_first_index(keys, k, i) ==> forall|j: int| 0 <= j < i ==> keys[j] != k,
        (0 <= i < keys.len() && keys[i] == k && forall|j: int| 0 <= j < i ==> keys[j] != k)
            ==> is_first_index(keys, k, i),
{
}

/// Registering a format that is already registered changes nothing: registering the same
/// format twice is the same as registering it once.
pub proof fn lemma_with_key_idempotent(keys: Seq<FormatKey>, k: FormatKey)
    ensures
        with_key(with_key(keys, k), k) == with_key(keys, k),
        with_key(keys, k).contains(k),
{
    if !keys.contains(k) {
        assert(keys.push(k)[keys.len() as int] == k);
    }
}

/// Registering a format never moves a format that was already registered: the earlier keys
/// keep their node indices.
pub proof fn lemma_with_key_keeps_indices(keys: Seq<FormatKey>, k: FormatKey)
    ensures
        with_key(keys, k).len() >= keys.len(),
        with_key(keys, k).subrange(0, keys.len() as int) == keys,
{
    assert(with_key(keys, k).subrange(0, keys.len() as int) =~= keys);
}

/// In a registry, where no format occurs twice, the node that holds a format is the one that
/// lookup finds: after `add_data_format` returns a node, `find_data_format` finds that node.
pub proof fn lemma_registered_format_is_found(keys: Seq<FormatKey>, k: FormatKey, i: int)
    requires
        keys.no_duplicates(),
        0 <= i < keys.len(),
        keys[i] == k,
    ensures
        is_first_index(keys, k, i),
{
}

/// Adding codecs never breaks a route: edges that walk a route before more edges are added
/// still walk it afterwards, and so still pick the same codecs.
pub proof fn lemma_route_survives_new_codecs(
    hops: Seq<(usize, usize)>,
    more: Seq<(usize, usize)>,
    route: Seq<usize>,
    edges: Seq<usize>,
)
    requires
        follows(hops, route, edges),
    ensures
        follows(hops + more, route, edges),
{
    assert forall|i: int| 0 <= i < edges.len() implies #[trigger] edges[i] < (hops + more).len()
        && (hops + more)[edges[i] as int] == (route[i], route[i + 1]) by {
        assert(edges[i] < hops.len());
    }
}

/// Edge `k` joins the formats that codec `k` was registered with: `declared[k]` is the pair
/// (decodes, encodes) given to the `k`-th `add_codec`.
pub open spec fn joins_declared(
    keys: Seq<FormatKey>,
    hops: Seq<(usize, usize)>,
    declared: Seq<(FormatKey, FormatKey)>,
) -> bool {
    &&& declared.len() == hops.len()
    &&& forall|k: int|
        0 <= k < hops.len() ==> {
            &&& (#[trigger] hops[k]).0 < keys.len()
            &&& hops[k].1 < keys.len()
            &&& keys[hops[k].0 as int] == declared[k].0
            &&& keys[hops[k].1 as int] == declared[k].1
        }
}

/// Registering a codec keeps every edge joining its codec's formats: what holds of the
/// registry before `add_codec(decodes, encodes, _)` (its keys and hops then), holds after it
/// (its keys and hops as `add_codec` leaves them) with the new pair declared last. The empty
/// registry holds it with nothing declared.
pub proof fn lemma_add_codec_keeps_codec_formats(
    keys: Seq<FormatKey>,
    hops: Seq<(usize, usize)>,
    declared: Seq<(FormatKey, FormatKey)>,
    decodes: FormatKey,
    encodes: FormatKey,
    keys2: Seq<FormatKey>,
    hops2: Seq<(usize, usize)>,
)
    requires
        joins_declared(keys, hops, declared),
        keys2 == with_key(with_key(keys, decodes), encodes),
        hops2.len() == hops.len() + 1,
        hops2.drop_last() == hops,
        hops2.last().0 < keys2.len(),
        hops2.last().1 < keys2.len(),
        keys2[hops2.last().0 as int] == decodes,
        keys2[hops2.last().1 as int] == encodes,
    ensures
        joins_declared(keys2, hops2, declared.push((decodes, encodes))),
        joins_declared(Seq::empty(), Seq::empty(), Seq::empty()),
{
    let keys1 = with_key(keys, decodes);
    lemma_with_key_keeps_indices(keys, decodes);
    lemma_with_key_keeps_indices(keys1, encodes);
    let d2 = declared.push((decodes, encodes));
    assert forall|k: int| 0 <= k < hops2.len() implies {
        &&& (#[trigger] hops2[k]).0 < keys2.len()
        &&& hops2[k].1 < keys2.len()
        &&& keys2[hops2[k].0 as int] == d2[k].0
        &&& keys2[hops2[k].1 as int] == d2[k].1
    } by {
        if k < hops.len() {
            assert(hops2[k] == hops2.drop_last()[k]);
            assert(keys1.subrange(0, keys.len() as int)[hops[k].0 as int] == keys[hops[k].0 as int]);
            assert(keys2.subrange(0, keys1.len() as int)[hops[k].0 as int] == keys1[hops[k].0 as int]);
            assert(keys1.subrange(0, keys.len() as int)[hops[k].1 as int] == keys[hops[k].1 as int]);
            assert(keys2.subrange(0, keys1.len() as int)[hops[k].1 as int] == keys1[hops[k].1 as int]);
        }
    }
}

/// A route of a single node (a search from a format to itself) is walked by no edge, and so
/// uses no codec.
pub proof fn lemma_single_node_route(hops: Seq<(usize, usize)>, a: usize)
    ensures
        follows(hops, seq![a], Seq::<usize>::empty()),
{
}

/// The keys of the formats held as nodes, by node index.
pub open spec fn graph_keys(g: Graph<DataFormat, ()>) -> Seq<FormatKey> {
    graph_nodes(g).map_values(|f: DataFormat| f@)
}

/// Registering a key keeps a sequence of keys free of duplicates.
proof fn lemma_with_key_no_duplicates(keys: Seq<FormatKey>, k: FormatKey)
    requires
        keys.no_duplicates(),
    ensures
        with_key(keys, k).no_duplicates(),
{
    if !keys.contains(k) {
        let s = keys.push(k);
        assert forall|i: int, j: int| 0 <= i < s.len() && 0 <= j < s.len() && i != j implies s[i]
            != s[j] by {
            if i < keys.len() && j < keys.len() {
                assert(s[i] == keys[i] && s[j] == keys[j]);
            } else if i < keys.len() {
                assert(s[i] == keys[i]);
            } else if j < keys.len() {
                assert(s[j] == keys[j]);
            }
        }
    }
}

/// The first node of `graph` that holds `data_format`, or `None`.
fn find_in(graph: &Graph<DataFormat, ()>, data_format: DataFormat) -> (r: Option<NodeIndex>)
    requires
        graph_nodes(*graph).len() <= u32::MAX,
    ensures
        match r {
            Some(n) => is_first_index(graph_keys(*graph), data_format@, node_index_value(n) as int),
            None => !graph_keys(*graph).contains(data_format@),
        },
{
    let count = node_count(graph);
    let mut i: usize = 0;
    while i < count
        invariant
            count == graph_keys(*graph).len(),
            count <= u32::MAX,
            i <= count,
            forall|j: int| 0 <= j < i ==> graph_keys(*graph)[j] != data_format@,
        decreases count - i,
    {
        let n = node_index_new(i);
        if node_weight(graph, n).same_as(&data_format) {
            return Some(n);
        }
        i += 1;
    }
    proof {
        if graph_keys(*graph).contains(data_format@) {
            let j = choose|j: int|
                0 <= j < graph_keys(*graph).len() && graph_keys(*graph)[j] == data_format@;
            assert(graph_keys(*graph)[j] != data_format@);
        }
    }
    None
}

/// Adds `data_format` as a node of `graph` unless it is already one; returns its node index.
fn add_format_to(graph: &mut Graph<DataFormat, ()>, data_format: DataFormat) -> (r: NodeIndex)
    requires
        graph_nodes(*old(graph)).len() <= u32::MAX,
        graph_keys(*old(graph)).contains(data_format@) || graph_nodes(*old(graph)).len()
            < u32::MAX,
    ensures
        graph_keys(*final(graph)) == with_key(graph_keys(*old(graph)), data_format@),
        graph_edges(*final(graph)) == graph_edges(*old(graph)),
        graph_nodes(*final(graph)).len() <= u32::MAX,
        node_index_value(r) < graph_nodes(*final(graph)).len(),
        graph_keys(*final(graph))[node_index_value(r) as int] == data_format@,
{
    match find_in(graph, data_format) {
        Some(n) => n,
        None => {
            let n = add_node(graph, data_format);
            proof {
                assert(graph_keys(*graph) =~= graph_keys(*old(graph)).push(data_format@));
            }
            n
        },
    }
}

} // verus!

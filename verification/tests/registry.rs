use itertools::Itertools;
use petgraph::algo::astar;
use petgraph::graph::{EdgeIndex, EdgeReference};
use petgraph::visit::EdgeRef;
use polypeek_core::registry::Registry;
use polypeek_core::transcoder::{Data, DataFormat, DataFormatMeta};

#[derive(Debug, Default)]
struct Fa;

#[derive(Debug, Default)]
struct Fb;

#[derive(Debug, Default)]
struct Fc;

#[derive(Debug, Default)]
struct Fd;

impl Data for Fa {
    fn data_format_meta() -> &'static DataFormatMeta {
        &DataFormatMeta { name: "fa", description: "" }
    }
}

impl Data for Fb {
    fn data_format_meta() -> &'static DataFormatMeta {
        &DataFormatMeta { name: "fb", description: "" }
    }
}

impl Data for Fc {
    fn data_format_meta() -> &'static DataFormatMeta {
        &DataFormatMeta { name: "fc", description: "" }
    }
}

impl Data for Fd {}

/// The lowest-cost route from `from` to `to`, each codec weighing its `cost`, with the
/// cheapest edge of each hop.
fn path<E>(
    registry: &Registry<E>,
    from: DataFormat,
    to: DataFormat,
    cost: impl Fn(&E) -> f32,
) -> Option<(f32, Vec<&E>)> {
    let (start, target) = registry.path_endpoints(from, to)?;
    let edge_cost = |e: &EdgeReference<'_, ()>| cost(&registry.codecs()[e.id().index()]);
    let found = astar(registry.graph(), start, |i| i == target, |e| edge_cost(&e), |_| 0.0);
    let found = found.map(|(total, nodes)| {
        let edges: Vec<EdgeIndex> = nodes
            .iter()
            .copied()
            .tuple_windows()
            .map(|(a, b)| {
                registry
                    .graph()
                    .edges_connecting(a, b)
                    .min_by(|x, y| edge_cost(x).partial_cmp(&edge_cost(y)).unwrap())
                    .unwrap()
                    .id()
            })
            .collect();
        (total, nodes, edges)
    });
    if let Some((_, nodes, edges)) = &found {
        assert!(registry.follows_route(nodes, edges));
    }
    registry.route_codecs(found)
}

#[test]
fn path_prefers_lower_planning_cost_sum() {
    let mut registry: Registry<f32> = Registry::default();
    registry.add_codec(Fa::data_format(), Fb::data_format(), 1.0);
    registry.add_codec(Fb::data_format(), Fc::data_format(), 1.0);
    registry.add_codec(Fa::data_format(), Fc::data_format(), 10.0);

    let (total, chain) = path(&registry, Fa::data_format(), Fc::data_format(), |c| *c)
        .expect("path fa -> fc");

    assert!((total - 2.0).abs() < f32::EPSILON);
    assert_eq!(chain.len(), 2);
}

#[test]
fn new_registry_is_empty() {
    let registry: Registry<u8> = Registry::new();
    assert_eq!(registry.format_count(), 0);
    assert_eq!(registry.codec_count(), 0);
    assert!(registry.codecs().is_empty());
    assert!(registry.find_data_format(Fa::data_format()).is_none());
}

#[test]
fn add_codec_adds_each_format_once() {
    let mut registry: Registry<u8> = Registry::new();
    registry.add_codec(Fa::data_format(), Fb::data_format(), 1);
    assert_eq!(registry.format_count(), 2);
    registry.add_codec(Fb::data_format(), Fa::data_format(), 2);
    assert_eq!(registry.format_count(), 2);
    assert_eq!(registry.codec_count(), 2);
    registry.add_codec(Fa::data_format(), Fc::data_format(), 3);
    assert_eq!(registry.format_count(), 3);
    assert_eq!(registry.codecs(), &vec![1, 2, 3]);
    assert_eq!(registry.find_data_format(Fa::data_format()).unwrap().index(), 0);
    assert_eq!(registry.find_data_format(Fb::data_format()).unwrap().index(), 1);
    assert_eq!(registry.find_data_format(Fc::data_format()).unwrap().index(), 2);
}

#[test]
fn add_data_format_twice_is_add_once() {
    let mut registry: Registry<u8> = Registry::new();
    let first = registry.add_data_format(Fb::data_format());
    let count = registry.format_count();
    let second = registry.add_data_format(Fb::data_format());
    assert_eq!(first, second);
    assert_eq!(registry.format_count(), count);
    assert_eq!(registry.find_data_format(Fb::data_format()), Some(first));
}

#[test]
fn codec_is_an_edge_between_its_formats() {
    let mut registry: Registry<u8> = Registry::new();
    registry.add_codec(Fc::data_format(), Fa::data_format(), 7);
    let graph = registry.graph();
    assert_eq!(graph.edge_count(), 1);
    let (a, b) = graph.edge_endpoints(petgraph::graph::EdgeIndex::new(0)).unwrap();
    assert!(graph[a] == Fc::data_format());
    assert!(graph[b] == Fa::data_format());
}

#[test]
fn format_with_default_meta_is_found() {
    let mut registry: Registry<u8> = Registry::new();
    registry.add_codec(Fd::data_format(), Fa::data_format(), 1);
    assert_eq!(registry.find_data_format(Fd::data_format()).unwrap().index(), 0);
    assert!(registry.find_data_format(Fc::data_format()).is_none());
}

#[test]
fn endpoints_need_both_formats() {
    let mut registry: Registry<u8> = Registry::new();
    registry.add_codec(Fa::data_format(), Fb::data_format(), 1);
    assert!(registry.path_endpoints(Fa::data_format(), Fc::data_format()).is_none());
    assert!(registry.path_endpoints(Fc::data_format(), Fa::data_format()).is_none());
    let (start, target) = registry.path_endpoints(Fb::data_format(), Fa::data_format()).unwrap();
    assert_eq!(start.index(), 1);
    assert_eq!(target.index(), 0);
}

#[test]
fn no_route_gives_no_codecs() {
    let mut registry: Registry<f32> = Registry::new();
    registry.add_codec(Fa::data_format(), Fb::data_format(), 1.0);
    registry.add_codec(Fc::data_format(), Fb::data_format(), 1.0);
    assert!(path(&registry, Fa::data_format(), Fc::data_format(), |c| *c).is_none());
    assert!(path(&registry, Fa::data_format(), Fd::data_format(), |c| *c).is_none());
    assert!(registry.route_codecs::<f32>(None).is_none());
}

#[test]
fn route_from_a_format_to_itself_uses_no_codec() {
    let mut registry: Registry<f32> = Registry::new();
    registry.add_codec(Fa::data_format(), Fb::data_format(), 1.0);
    let (total, chain) = path(&registry, Fa::data_format(), Fa::data_format(), |c| *c).unwrap();
    assert_eq!(total, 0.0);
    assert!(chain.is_empty());
}

#[test]
fn cheapest_of_parallel_codecs_is_used() {
    let mut registry: Registry<f32> = Registry::new();
    registry.add_codec(Fa::data_format(), Fb::data_format(), 1.0);
    registry.add_codec(Fa::data_format(), Fb::data_format(), 5.0);
    let (total, chain) = path(&registry, Fa::data_format(), Fb::data_format(), |c| *c).unwrap();
    assert_eq!(total, 1.0);
    assert_eq!(chain, vec![&1.0]);
}

#[test]
fn route_costs_sum_to_the_total() {
    let mut registry: Registry<f32> = Registry::new();
    registry.add_codec(Fa::data_format(), Fb::data_format(), 2.0);
    registry.add_codec(Fb::data_format(), Fc::data_format(), 3.0);
    registry.add_codec(Fb::data_format(), Fc::data_format(), 0.5);
    registry.add_codec(Fa::data_format(), Fc::data_format(), 9.0);
    let (total, chain) = path(&registry, Fa::data_format(), Fc::data_format(), |c| *c).unwrap();
    let sum: f32 = chain.iter().map(|c| **c).sum();
    assert_eq!(total, sum);
    assert_eq!(chain, vec![&2.0, &0.5]);
}

#[test]
fn route_codecs_gives_the_codecs_of_the_chosen_edges() {
    let mut registry: Registry<&str> = Registry::new();
    registry.add_codec(Fa::data_format(), Fb::data_format(), "first");
    registry.add_codec(Fb::data_format(), Fc::data_format(), "hop");
    registry.add_codec(Fa::data_format(), Fb::data_format(), "second");
    let a = registry.find_data_format(Fa::data_format()).unwrap();
    let b = registry.find_data_format(Fb::data_format()).unwrap();
    let c = registry.find_data_format(Fc::data_format()).unwrap();
    let nodes = vec![a, b, c];
    let edges = vec![EdgeIndex::new(0), EdgeIndex::new(1)];
    assert!(registry.follows_route(&nodes, &edges));
    let (cost, chain) = registry.route_codecs(Some((42u32, nodes, edges))).unwrap();
    assert_eq!(cost, 42);
    assert_eq!(chain, vec![&"first", &"hop"]);
}

#[test]
fn empty_route_uses_no_codec() {
    let registry: Registry<u8> = Registry::new();
    let (cost, chain) = registry.route_codecs(Some((1u8, vec![], vec![]))).unwrap();
    assert_eq!(cost, 1);
    assert!(chain.is_empty());
}

#[test]
fn follows_route_checks_every_hop() {
    let mut registry: Registry<u8> = Registry::new();
    registry.add_codec(Fa::data_format(), Fb::data_format(), 1);
    registry.add_codec(Fb::data_format(), Fc::data_format(), 2);
    let a = registry.find_data_format(Fa::data_format()).unwrap();
    let b = registry.find_data_format(Fb::data_format()).unwrap();
    let c = registry.find_data_format(Fc::data_format()).unwrap();
    let e0 = EdgeIndex::new(0);
    let e1 = EdgeIndex::new(1);
    assert!(registry.follows_route(&vec![a, b, c], &vec![e0, e1]));
    assert!(registry.follows_route(&vec![a], &vec![]));
    assert!(registry.follows_route(&vec![], &vec![]));
    assert!(!registry.follows_route(&vec![a, b, c], &vec![e1, e0]));
    assert!(!registry.follows_route(&vec![a, b, c], &vec![e0]));
    assert!(!registry.follows_route(&vec![a, c], &vec![e0]));
    assert!(!registry.follows_route(&vec![a, b], &vec![EdgeIndex::new(7)]));
}

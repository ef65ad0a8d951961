//! The connectivity graph over a device set: directed edges weighted by
//! distance and transmit quality, rebuilt from scratch every tick, with
//! shortest-path, delay, diameter and degree queries.
//!
//! The graph itself is petgraph's `GraphMap`; the shortest-path queries
//! are rustworkx-core's `dijkstra` and `astar`.  Verus sees those only
//! through the trusted contracts below; everything built on top of them
//! is verified.
use vstd::prelude::*;

use crate::device::DeviceId;
use crate::device::BROADCAST_ID;
use crate::idmaps::IdToDelayMap;
use crate::idmaps::IdToDeviceMap;
use crate::idmaps::lemma_device_unique_index;
use crate::mathphysics::Frequency;
use crate::mathphysics::MAX_DISTANCE;
use crate::mathphysics::lemma_distance_bounded;
use crate::mathphysics::spec_distance;
use crate::trx::spec_tx_level_at;

verus! {

broadcast use vstd::set::group_set_axioms, vstd::set_lib::group_set_lib_default;

/// Largest number of devices a graph is built over.
pub const MAX_GRAPH_NODES: usize = 65_536;

/// Upper bound on any path distance the shortest-path queries return: a
/// shortest path visits each node at most once, so its distance stays
/// below `MAX_GRAPH_NODES * MAX_DISTANCE`.
pub const MAX_PATH_DISTANCE: u64 = 230_000_000_000_000_000;

/// Failure of a point-to-point shortest-path query.
#[derive(Clone, Copy, Debug, PartialEq, Eq, Structural)]
pub enum ShortestPathError {
    /// The destination cannot be reached from the source.
    NoPathFound,
    /// The found path has fewer than two nodes: source and destination
    /// are the same device.
    PathTooShort,
}

/// How the graph is derived from the device set.
#[derive(Clone, Copy, Debug, PartialEq, Eq, Structural)]
pub enum Topology {
    /// Every ordered pair of distinct devices is tested for
    /// reachability.
    Mesh,
    /// Only pairs involving the command device are tested.
    Star,
}

/// An edge weight: the distance between the devices in millimeters, and
/// the strength (in thousandths) the transmitter delivers at that
/// distance.
pub type EdgeWeight = (u64, i64);

/// The directed graph value the outside crates operate on.
pub type ConnMap = petgraph::graphmap::GraphMap<
    DeviceId,
    EdgeWeight,
    petgraph::Directed,
    std::collections::hash_map::RandomState,
>;

#[verifier::external_type_specification]
#[verifier::external_body]
pub struct ExDirected(petgraph::Directed);

#[verifier::external_type_specification]
#[verifier::external_body]
#[verifier::reject_recursive_types(N)]
#[verifier::reject_recursive_types(E)]
#[verifier::reject_recursive_types(Ty)]
#[verifier::reject_recursive_types(S)]
pub struct ExGraphMap<N, E, Ty, S>(petgraph::graphmap::GraphMap<N, E, Ty, S>) where
    S: std::hash::BuildHasher,
;

/// The directed edges a graph value holds: each ordered pair of nodes it
/// connects, mapped to the edge's weight.
pub uninterp spec fn graph_edge_map(g: ConnMap) -> Map<(DeviceId, DeviceId), EdgeWeight>;

/// The nodes a graph value holds.
pub uninterp spec fn graph_node_set(g: ConnMap) -> Set<DeviceId>;

/// What dijkstra computes from a graph's edges: the map from each node
/// reachable from `source` to its shortest path distance, weighted by the
/// distance component of the edge weights.
pub uninterp spec fn dijkstra_distances(
    edges: Map<(DeviceId, DeviceId), EdgeWeight>,
    source: DeviceId,
) -> Map<DeviceId, u64>;

/// The graph value holds no nodes and no edges.
pub open spec fn graph_is_empty(g: ConnMap) -> bool {
    &&& graph_edge_map(g) == Map::<(DeviceId, DeviceId), EdgeWeight>::empty()
    &&& graph_node_set(g) == Set::<DeviceId>::empty()
}

/// Relies on petgraph's GraphMap::new: a graph with no nodes or edges.
#[verifier::external_body]
fn graph_new() -> (g: ConnMap)
    ensures
        graph_is_empty(g),
{
    petgraph::graphmap::GraphMap::new()
}

/// Relies on petgraph's GraphMap::clear: removes all nodes and edges.
#[verifier::external_body]
fn graph_clear(g: &mut ConnMap)
    ensures
        graph_is_empty(*final(g)),
{
    g.clear()
}

/// Relies on petgraph's GraphMap::add_edge on a directed graph: inserts
/// the edge from `a` to `b` with the given weight, overwriting an earlier
/// weight, and inserts both endpoints as nodes.
#[verifier::external_body]
fn graph_add_edge(g: &mut ConnMap, a: DeviceId, b: DeviceId, weight: EdgeWeight)
    ensures
        graph_edge_map(*final(g)) == graph_edge_map(*old(g)).insert((a, b), weight),
        graph_node_set(*final(g)) == graph_node_set(*old(g)).insert(a).insert(b),
{
    g.add_edge(a, b, weight);
}

/// Relies on petgraph's GraphMap::contains_node.
#[verifier::external_body]
fn graph_contains_node(g: &ConnMap, n: DeviceId) -> (r: bool)
    ensures
        r == graph_node_set(*g).contains(n),
{
    g.contains_node(n)
}

/// Relies on petgraph's GraphMap::contains_edge on a directed graph.
#[verifier::external_body]
fn graph_contains_edge(g: &ConnMap, a: DeviceId, b: DeviceId) -> (r: bool)
    ensures
        r == graph_edge_map(*g).dom().contains((a, b)),
{
    g.contains_edge(a, b)
}

/// Relies on petgraph's GraphMap::edge_count.
#[verifier::external_body]
fn graph_edge_count(g: &ConnMap) -> (r: usize)
    requires
        graph_edge_map(*g).dom().finite(),
    ensures
        r == graph_edge_map(*g).dom().len(),
{
    g.edge_count()
}

/// Relies on petgraph's GraphMap::node_count.
#[verifier::external_body]
fn graph_node_count(g: &ConnMap) -> (r: usize)
    requires
        graph_node_set(*g).finite(),
    ensures
        r == graph_node_set(*g).len(),
{
    g.node_count()
}

/// A sequence of edges lists each edge of the map exactly once.
pub open spec fn edges_list_exact(
    s: Seq<(DeviceId, DeviceId, EdgeWeight)>,
    edges: Map<(DeviceId, DeviceId), EdgeWeight>,
) -> bool {
    &&& forall|i: int, j: int|
        0 <= i < j < s.len() ==> ((#[trigger] s[i]).0, s[i].1) != ((#[trigger] s[j]).0, s[j].1)
    &&& forall|i: int|
        0 <= i < s.len() ==> edges.dom().contains(((#[trigger] s[i]).0, s[i].1)) && edges[(
            s[i].0,
            s[i].1,
        )] == s[i].2
    &&& forall|e: (DeviceId, DeviceId)|
        edges.dom().contains(e) ==> exists|i: int|
            0 <= i < s.len() && ((#[trigger] s[i]).0, s[i].1) == e
}

/// Relies on petgraph's GraphMap::all_edges on a directed graph: every
/// edge appears exactly once, with its weight; the order is the graph
/// value's own iteration order, which no contract fixes.
#[verifier::external_body]
fn graph_all_edges(g: &ConnMap) -> (r: Vec<(DeviceId, DeviceId, EdgeWeight)>)
    ensures
        edges_list_exact(r@, graph_edge_map(*g)),
{
    g.all_edges().map(|(a, b, w)| (a, b, *w)).collect()
}

/// A sequence of nodes lists each node of the set exactly once.
pub open spec fn nodes_list_exact(s: Seq<DeviceId>, nodes: Set<DeviceId>) -> bool {
    &&& forall|i: int, j: int| 0 <= i < j < s.len() ==> s[i] != s[j]
    &&& forall|i: int| 0 <= i < s.len() ==> nodes.contains(#[trigger] s[i])
    &&& forall|n: DeviceId| nodes.contains(n) ==> exists|i: int| 0 <= i < s.len() && s[i] == n
}

/// Relies on petgraph's GraphMap::nodes: every node appears exactly once;
/// the order is the graph value's own iteration order, which no contract
/// fixes.
#[verifier::external_body]
fn graph_nodes(g: &ConnMap) -> (r: Vec<DeviceId>)
    ensures
        nodes_list_exact(r@, graph_node_set(*g)),
{
    g.nodes().collect()
}

/// Two identifiers are the same; handed to the shortest-path search as
/// its goal test.
fn ids_match(a: DeviceId, b: DeviceId) -> (r: bool)
    ensures
        r == (a == b),
{
    a == b
}

/// The graph's size and weights are small enough that no path distance
/// can overflow.
pub open spec fn graph_bounded(g: ConnMap) -> bool {
    &&& graph_edge_map(g).dom().finite()
    &&& graph_node_set(g).finite()
    &&& graph_node_set(g).len() <= MAX_GRAPH_NODES
    &&& forall|e: (DeviceId, DeviceId)|
        #[trigger] graph_edge_map(g).dom().contains(e) ==> graph_edge_map(g)[e].0 <= MAX_DISTANCE
}

/// The node sequence is a path from `a` to `b` through the edge map.
pub open spec fn spec_is_path(
    edges: Map<(DeviceId, DeviceId), EdgeWeight>,
    p: Seq<DeviceId>,
    a: DeviceId,
    b: DeviceId,
) -> bool {
    &&& p.len() >= 1
    &&& p[0] == a
    &&& p[p.len() - 1] == b
    &&& forall|i: int| 0 <= i < p.len() - 1 ==> edges.dom().contains(((#[trigger] p[i]), p[i + 1]))
}

/// The total distance along a path.
pub open spec fn spec_path_cost(
    edges: Map<(DeviceId, DeviceId), EdgeWeight>,
    p: Seq<DeviceId>,
) -> int
    decreases p.len(),
{
    if p.len() <= 1 {
        0
    } else {
        edges[(p[0], p[1])].0 + spec_path_cost(edges, p.drop_first())
    }
}

/// The result sequence of a single-source shortest-distance query is
/// exact for `edges` and `source`: nodes appear at most once, the content
/// is [`dijkstra_distances`], the source costs zero, each distance is the
/// cost of some path and no path costs less, and every node a path
/// reaches appears.
pub open spec fn dijkstra_results_exact(
    edges: Map<(DeviceId, DeviceId), EdgeWeight>,
    source: DeviceId,
    rs: Seq<(DeviceId, u64)>,
) -> bool {
    &&& forall|i: int, j: int| 0 <= i < j < rs.len() ==> (#[trigger] rs[i]).0 != (
    #[trigger] rs[j]).0
    &&& forall|i: int|
        0 <= i < rs.len() ==> {
            &&& dijkstra_distances(edges, source).dom().contains((#[trigger] rs[i]).0)
            &&& dijkstra_distances(edges, source)[rs[i].0] == rs[i].1
            &&& rs[i].1 <= MAX_PATH_DISTANCE
        }
    &&& forall|id: DeviceId|
        dijkstra_distances(edges, source).dom().contains(id) ==> exists|i: int|
            0 <= i < rs.len() && (#[trigger] rs[i]).0 == id
    &&& exists|i: int| 0 <= i < rs.len() && (#[trigger] rs[i]) == (source, 0u64)
    &&& forall|i: int|
        0 <= i < rs.len() ==> exists|p: Seq<DeviceId>|
            #[trigger] spec_is_path(edges, p, source, (#[trigger] rs[i]).0) && spec_path_cost(
                edges,
                p,
            ) == rs[i].1
    &&& forall|i: int, p: Seq<DeviceId>|
        0 <= i < rs.len() && #[trigger] spec_is_path(edges, p, source, (#[trigger] rs[i]).0)
            ==> spec_path_cost(edges, p) >= rs[i].1
    &&& forall|id: DeviceId, p: Seq<DeviceId>|
        #[trigger] spec_is_path(edges, p, source, id) ==> exists|i: int|
            0 <= i < rs.len() && (#[trigger] rs[i]).0 == id
}

/// Relies on rustworkx-core's dijkstra with no goal: computes, for every
/// node reachable from `source`, the length of the shortest path from
/// `source`, weighted by the distance component of the edge weights: each
/// returned distance is the cost of some path and no path costs less, and
/// every node a path leads to is returned.  The pairs come in the
/// algorithm's own order, which no contract fixes; their content is
/// exactly [`dijkstra_distances`] of the graph's edges.
#[verifier::external_body]
fn run_dijkstra(g: &ConnMap, source: DeviceId) -> (r: Vec<(DeviceId, u64)>)
    requires
        graph_node_set(*g).contains(source),
        graph_bounded(*g),
    ensures
        dijkstra_results_exact(graph_edge_map(*g), source, r@),
        forall|i: int|
            0 <= i < r@.len() ==> dijkstra_distances(graph_edge_map(*g), source).dom().contains(
                (#[trigger] r@[i]).0,
            ),
{
    let scores: rustworkx_core::dictmap::DictMap<DeviceId, u64> =
        rustworkx_core::shortest_path::dijkstra(
        g,
        source,
        None,
        |edge| {
            let weight: &EdgeWeight = petgraph::visit::EdgeRef::weight(&edge);
            rustworkx_core::Result::<u64>::Ok(weight.0)
        },
        None,
    ).unwrap();
    scores.into_iter().collect()
}

/// Relies on rustworkx-core's astar with a zero estimate (which makes it
/// dijkstra's algorithm): `None` exactly when no path leads from `source`
/// to `destination`; otherwise a path of minimal total distance together
/// with that distance.  The goal test runs before anything else, so a
/// search from a node to itself returns the single-node path at cost
/// zero.
#[verifier::external_body]
fn run_astar(g: &ConnMap, source: DeviceId, destination: DeviceId) -> (r: Option<
    (u64, Vec<DeviceId>),
>)
    requires
        graph_bounded(*g),
    ensures
        source == destination ==> (match r {
            Option::Some((cost, path)) => cost == 0 && path@ =~= seq![source],
            Option::None => false,
        }),
        match r {
            Option::None => forall|p: Seq<DeviceId>|
                !spec_is_path(graph_edge_map(*g), p, source, destination),
            Option::Some((cost, path)) => {
                &&& spec_is_path(graph_edge_map(*g), path@, source, destination)
                &&& cost == spec_path_cost(graph_edge_map(*g), path@)
                &&& forall|p: Seq<DeviceId>|
                    spec_is_path(graph_edge_map(*g), p, source, destination) ==> spec_path_cost(
                        graph_edge_map(*g),
                        p,
                    ) >= cost
            },
        },
{
    let result: rustworkx_core::Result<Option<(u64, Vec<DeviceId>)>> =
        rustworkx_core::shortest_path::astar(
        g,
        source,
        |finish| rustworkx_core::Result::<bool>::Ok(ids_match(finish, destination)),
        |edge| {
            let weight: &EdgeWeight = petgraph::visit::EdgeRef::weight(&edge);
            rustworkx_core::Result::<u64>::Ok(weight.0)
        },
        |_| rustworkx_core::Result::<u64>::Ok(0u64),
    );
    result.unwrap()
}

/// The condition under which the rebuilt graph holds a directed edge from
/// `a` to `b`: the command device and both endpoints stand in the map,
/// the endpoints are distinct, the topology admits the pair, and `a`'s
/// transmitter reaches `b` on the control frequency.
pub open spec fn spec_edge_present(
    topology: Topology,
    command_id: DeviceId,
    dm: IdToDeviceMap,
    a: DeviceId,
    b: DeviceId,
) -> bool {
    &&& a != b
    &&& dm.spec_contains_id(command_id)
    &&& dm.spec_contains_id(a)
    &&& dm.spec_contains_id(b)
    &&& (topology is Star ==> a == command_id || b == command_id)
    &&& spec_tx_level_at(
        dm.spec_get(a)->0.trx_system.tx_module,
        Frequency::Control,
        spec_distance(dm.spec_get(a)->0.real_position, dm.spec_get(b)->0.real_position),
    ) is Some
}

/// The weight the rebuilt graph attaches to a present edge: the distance
/// between the devices, and the strength delivered over it.
pub open spec fn spec_edge_weight(dm: IdToDeviceMap, a: DeviceId, b: DeviceId) -> EdgeWeight {
    let da = dm.spec_get(a)->0;
    let db = dm.spec_get(b)->0;
    let d = spec_distance(da.real_position, db.real_position);
    (
        d as u64,
        spec_tx_level_at(da.trx_system.tx_module, Frequency::Control, d)->0.spec_strength() as i64,
    )
}

/// The directed connectivity graph over the device set, with its
/// topology mode.
pub struct ConnectionGraph {
    pub graph: ConnMap,
    pub topology: Topology,
}

/// Every edge's endpoints are nodes of the graph.
pub open spec fn edges_within_nodes(g: ConnMap) -> bool {
    forall|e: (DeviceId, DeviceId)|
        #[trigger] graph_edge_map(g).dom().contains(e) ==> graph_node_set(g).contains(e.0)
            && graph_node_set(g).contains(e.1)
}

/// The edges are sound for the device set: every present edge meets
/// [`spec_edge_present`] and carries [`spec_edge_weight`].
pub open spec fn edges_sound(
    g: ConnMap,
    topology: Topology,
    command_id: DeviceId,
    dm: IdToDeviceMap,
) -> bool {
    forall|a: DeviceId, b: DeviceId|
        #[trigger] graph_edge_map(g).dom().contains((a, b)) ==> spec_edge_present(
            topology,
            command_id,
            dm,
            a,
            b,
        ) && graph_edge_map(g)[(a, b)] == spec_edge_weight(dm, a, b)
}

impl ConnectionGraph {
    /// The graph's size and weights stay inside the model's bounds and it
    /// holds no self-loops.
    pub open spec fn wf(self) -> bool {
        &&& graph_bounded(self.graph)
        &&& forall|e: (DeviceId, DeviceId)|
            #[trigger] graph_edge_map(self.graph).dom().contains(e) ==> e.0 != e.1
        &&& edges_within_nodes(self.graph)
    }

    pub fn new(topology: Topology) -> (r: Self)
        ensures
            r.topology == topology,
            graph_edge_map(r.graph) == Map::<(DeviceId, DeviceId), EdgeWeight>::empty(),
            graph_node_set(r.graph) == Set::<DeviceId>::empty(),
            r.wf(),
    {
        let graph = graph_new();
        Self { graph, topology }
    }

    pub fn topology(&self) -> (r: Topology)
        ensures
            r == self.topology,
    {
        self.topology
    }

    /// The number of directed edges.
    pub fn edge_count(&self) -> (r: usize)
        requires
            self.wf(),
        ensures
            r == graph_edge_map(self.graph).dom().len(),
    {
        graph_edge_count(&self.graph)
    }

    /// The number of nodes.
    pub fn node_count(&self) -> (r: usize)
        requires
            self.wf(),
        ensures
            r == graph_node_set(self.graph).len(),
    {
        graph_node_count(&self.graph)
    }

    /// The graph holds a directed edge from `a` to `b`.
    pub fn contains_edge(&self, a: DeviceId, b: DeviceId) -> (r: bool)
        ensures
            r == graph_edge_map(self.graph).dom().contains((a, b)),
    {
        graph_contains_edge(&self.graph, a, b)
    }

    /// The graph holds the node.
    pub fn contains_node(&self, n: DeviceId) -> (r: bool)
        ensures
            r == graph_node_set(self.graph).contains(n),
    {
        graph_contains_node(&self.graph, n)
    }

    /// Clears the graph and rebuilds it from the device set: a mesh
    /// connects every ordered pair of distinct devices whose transmitter
    /// reaches the other; a star does the same for the pairs involving
    /// the command device.  A set without its command device yields an
    /// empty graph.
    pub fn update(&mut self, command_device_id: DeviceId, device_map: &IdToDeviceMap)
        requires
            device_map.wf(),
            device_map.devices@.len() <= MAX_GRAPH_NODES,
        ensures
            final(self).topology == old(self).topology,
            final(self).wf(),
            forall|a: DeviceId, b: DeviceId|
                #[trigger] graph_edge_map(final(self).graph).dom().contains((a, b))
                    <==> spec_edge_present(
                    old(self).topology,
                    command_device_id,
                    *device_map,
                    a,
                    b,
                ),
            forall|a: DeviceId, b: DeviceId|
                #[trigger] graph_edge_map(final(self).graph).dom().contains((a, b))
                    ==> graph_edge_map(final(self).graph)[(a, b)] == spec_edge_weight(
                    *device_map,
                    a,
                    b,
                ),
            forall|n: DeviceId|
                #[trigger] graph_node_set(final(self).graph).contains(n)
                    ==> device_map.spec_contains_id(n),
    {
        graph_clear(&mut self.graph);
        let command_index = match device_map.index_of(command_device_id) {
            Some(k) => k,
            None => {
                return ;
            },
        };
        let n = device_map.devices.len();
        match self.topology {
            Topology::Star => {
                let mut j: usize = 0;
                while j < n
                    invariant
                        device_map.wf(),
                        n == device_map.devices@.len(),
                        n <= MAX_GRAPH_NODES,
                        self.topology == old(self).topology,
                        self.topology is Star,
                        (command_index as int) < n as int,
                        device_map.devices@[command_index as int].id == command_device_id,
                        device_map.spec_contains_id(command_device_id),
                        j <= n,
                        graph_edge_map(self.graph).dom().finite(),
                        graph_node_set(self.graph).finite(),
                        edges_within_nodes(self.graph),
                        edges_sound(self.graph, self.topology, command_device_id, *device_map),
                        forall|y: int|
                            0 <= y < j && spec_edge_present(
                                self.topology,
                                command_device_id,
                                *device_map,
                                command_device_id,
                                (#[trigger] device_map.devices@[y]).id,
                            ) ==> graph_edge_map(self.graph).dom().contains(
                                (command_device_id, device_map.devices@[y].id),
                            ),
                        forall|y: int|
                            0 <= y < j && spec_edge_present(
                                self.topology,
                                command_device_id,
                                *device_map,
                                (#[trigger] device_map.devices@[y]).id,
                                command_device_id,
                            ) ==> graph_edge_map(self.graph).dom().contains(
                                (device_map.devices@[y].id, command_device_id),
                            ),
                        forall|nd: DeviceId|
                            #[trigger] graph_node_set(self.graph).contains(nd)
                                ==> device_map.spec_contains_id(nd),
                    decreases n - j,
                {
                    self.connect_one_direction(device_map, command_index, j, command_device_id);
                    self.connect_one_direction(device_map, j, command_index, command_device_id);
                    j = j + 1;
                }
            },
            Topology::Mesh => {
                let mut i: usize = 0;
                while i < n
                    invariant
                        device_map.wf(),
                        n == device_map.devices@.len(),
                        n <= MAX_GRAPH_NODES,
                        self.topology == old(self).topology,
                        self.topology is Mesh,
                        device_map.spec_contains_id(command_device_id),
                        i <= n,
                        graph_edge_map(self.graph).dom().finite(),
                        graph_node_set(self.graph).finite(),
                        edges_within_nodes(self.graph),
                        edges_sound(self.graph, self.topology, command_device_id, *device_map),
                        forall|x: int, y: int|
                            0 <= x < i && 0 <= y < n as int && spec_edge_present(
                                self.topology,
                                command_device_id,
                                *device_map,
                                (#[trigger] device_map.devices@[x]).id,
                                (#[trigger] device_map.devices@[y]).id,
                            ) ==> graph_edge_map(self.graph).dom().contains(
                                (device_map.devices@[x].id, device_map.devices@[y].id),
                            ),
                        forall|nd: DeviceId|
                            #[trigger] graph_node_set(self.graph).contains(nd)
                                ==> device_map.spec_contains_id(nd),
                    decreases n - i,
                {
                    let mut j: usize = 0;
                    while j < n
                        invariant
                            device_map.wf(),
                            n == device_map.devices@.len(),
                            n <= MAX_GRAPH_NODES,
                            self.topology == old(self).topology,
                            self.topology is Mesh,
                            device_map.spec_contains_id(command_device_id),
                            i < n,
                            j <= n,
                            graph_edge_map(self.graph).dom().finite(),
                            graph_node_set(self.graph).finite(),
                            edges_within_nodes(self.graph),
                            edges_sound(self.graph, self.topology, command_device_id, *device_map),
                            forall|x: int, y: int|
                                0 <= x < i && 0 <= y < n as int && spec_edge_present(
                                    self.topology,
                                    command_device_id,
                                    *device_map,
                                    (#[trigger] device_map.devices@[x]).id,
                                    (#[trigger] device_map.devices@[y]).id,
                                ) ==> graph_edge_map(self.graph).dom().contains(
                                    (device_map.devices@[x].id, device_map.devices@[y].id),
                                ),
                            forall|y: int|
                                0 <= y < j && spec_edge_present(
                                    self.topology,
                                    command_device_id,
                                    *device_map,
                                    device_map.devices@[i as int].id,
                                    (#[trigger] device_map.devices@[y]).id,
                                ) ==> graph_edge_map(self.graph).dom().contains(
                                    (device_map.devices@[i as int].id,
                                    device_map.devices@[y].id),
                                ),
                            forall|nd: DeviceId|
                                #[trigger] graph_node_set(self.graph).contains(nd)
                                    ==> device_map.spec_contains_id(nd),
                        decreases n - j,
                    {
                        self.connect_one_direction(device_map, i, j, command_device_id);
                        j = j + 1;
                    }
                    i = i + 1;
                }
            },
        }
        proof {
            self.lemma_rebuild_exact(old(self).topology, command_device_id, *device_map);
            self.lemma_rebuild_wf(old(self).topology, command_device_id, *device_map);
        }
    }

    /// Adds the directed edge from device `x` to device `y` when the
    /// transmitter reaches; a no-op on a self-pair or out of range.
    fn connect_one_direction(
        &mut self,
        device_map: &IdToDeviceMap,
        x: usize,
        y: usize,
        command_device_id: DeviceId,
    )
        requires
            device_map.wf(),
            x < device_map.devices@.len(),
            y < device_map.devices@.len(),
            device_map.spec_contains_id(command_device_id),
            old(self).topology is Star ==> device_map.devices@[x as int].id == command_device_id
                || device_map.devices@[y as int].id == command_device_id,
            graph_edge_map(old(self).graph).dom().finite(),
            graph_node_set(old(self).graph).finite(),
            edges_sound(old(self).graph, old(self).topology, command_device_id, *device_map),
        ensures
            final(self).topology == old(self).topology,
            graph_edge_map(final(self).graph).dom().finite(),
            graph_node_set(final(self).graph).finite(),
            edges_sound(final(self).graph, final(self).topology, command_device_id, *device_map),
            spec_edge_present(
                old(self).topology,
                command_device_id,
                *device_map,
                device_map.devices@[x as int].id,
                device_map.devices@[y as int].id,
            ) ==> graph_edge_map(final(self).graph).dom().contains(
                (device_map.devices@[x as int].id, device_map.devices@[y as int].id),
            ),
            forall|e: (DeviceId, DeviceId)|
                #[trigger] graph_edge_map(old(self).graph).dom().contains(e) ==> graph_edge_map(
                    final(self).graph,
                ).dom().contains(e),
            forall|nd: DeviceId|
                #[trigger] graph_node_set(final(self).graph).contains(nd) ==> graph_node_set(
                    old(self).graph,
                ).contains(nd) || nd == device_map.devices@[x as int].id || nd
                    == device_map.devices@[y as int].id,
            edges_within_nodes(old(self).graph) ==> edges_within_nodes(final(self).graph),
    {
        let tx = &device_map.devices[x];
        let rx = &device_map.devices[y];
        proof {
            lemma_device_unique_index(*device_map, tx.id, x as int);
            lemma_device_unique_index(*device_map, rx.id, y as int);
        }
        if tx.id() == rx.id() {
            return ;
        }
        let distance = tx.distance_to(rx);
        let level = match tx.tx_signal_level_at(rx, Frequency::Control) {
            Some(level) => level,
            None => { return },
        };
        graph_add_edge(&mut self.graph, tx.id(), rx.id(), (distance, level.strength().value()));
        proof {
            let a = device_map.devices@[x as int].id;
            let b = device_map.devices@[y as int].id;
            assert(spec_edge_present(self.topology, command_device_id, *device_map, a, b));
            assert(graph_edge_map(self.graph)[(a, b)] == spec_edge_weight(*device_map, a, b));
            assert forall|p: DeviceId, q: DeviceId|
                #[trigger] graph_edge_map(self.graph).dom().contains((p, q)) implies
                spec_edge_present(self.topology, command_device_id, *device_map, p, q)
                    && graph_edge_map(self.graph)[(p, q)] == spec_edge_weight(
                    *device_map,
                    p,
                    q,
                ) by {
                if (p, q) != (a, b) {
                    assert(graph_edge_map(old(self).graph).dom().contains((p, q)));
                }
            }
        }
    }

    /// After both loops have run, index-level completeness and soundness
    /// give the exact edge characterization.
    proof fn lemma_rebuild_exact(
        &self,
        topology: Topology,
        command_device_id: DeviceId,
        dm: IdToDeviceMap,
    )
        requires
            dm.wf(),
            self.topology == topology,
            edges_sound(self.graph, topology, command_device_id, dm),
            topology is Star ==> forall|y: int|
                0 <= y < dm.devices@.len() && spec_edge_present(
                    topology,
                    command_device_id,
                    dm,
                    command_device_id,
                    (#[trigger] dm.devices@[y]).id,
                ) ==> graph_edge_map(self.graph).dom().contains(
                    (command_device_id, dm.devices@[y].id),
                ),
            topology is Star ==> forall|y: int|
                0 <= y < dm.devices@.len() && spec_edge_present(
                    topology,
                    command_device_id,
                    dm,
                    (#[trigger] dm.devices@[y]).id,
                    command_device_id,
                ) ==> graph_edge_map(self.graph).dom().contains(
                    (dm.devices@[y].id, command_device_id),
                ),
            topology is Mesh ==> forall|x: int, y: int|
                0 <= x < dm.devices@.len() && 0 <= y < dm.devices@.len() && spec_edge_present(
                    topology,
                    command_device_id,
                    dm,
                    (#[trigger] dm.devices@[x]).id,
                    (#[trigger] dm.devices@[y]).id,
                ) ==> graph_edge_map(self.graph).dom().contains(
                    (dm.devices@[x].id, dm.devices@[y].id),
                ),
        ensures
            forall|a: DeviceId, b: DeviceId|
                #[trigger] graph_edge_map(self.graph).dom().contains((a, b)) <==> spec_edge_present(
                    topology,
                    command_device_id,
                    dm,
                    a,
                    b,
                ),
    {
        assert forall|a: DeviceId, b: DeviceId| spec_edge_present(
            topology,
            command_device_id,
            dm,
            a,
            b,
        ) implies #[trigger] graph_edge_map(self.graph).dom().contains((a, b)) by {
            let ia = dm.spec_index_of(a);
            let ib = dm.spec_index_of(b);
            assert(dm.devices@[ia].id == a && 0 <= ia < dm.devices@.len());
            assert(dm.devices@[ib].id == b && 0 <= ib < dm.devices@.len());
            match topology {
                Topology::Star => {
                    if a == command_device_id {
                        assert(dm.devices@[ib].id == b);
                    } else {
                        assert(b == command_device_id);
                        assert(dm.devices@[ia].id == a);
                    }
                },
                Topology::Mesh => {
                    assert(dm.devices@[ia].id == a && dm.devices@[ib].id == b);
                },
            }
        }
    }

    /// A sound edge set over a bounded device set is well formed.
    proof fn lemma_rebuild_wf(
        &self,
        topology: Topology,
        command_device_id: DeviceId,
        dm: IdToDeviceMap,
    )
        requires
            dm.wf(),
            dm.devices@.len() <= MAX_GRAPH_NODES,
            edges_sound(self.graph, topology, command_device_id, dm),
            graph_edge_map(self.graph).dom().finite(),
            graph_node_set(self.graph).finite(),
            edges_within_nodes(self.graph),
            forall|nd: DeviceId|
                #[trigger] graph_node_set(self.graph).contains(nd) ==> dm.spec_contains_id(nd),
        ensures
            self.wf(),
    {
        assert forall|e: (DeviceId, DeviceId)| #[trigger] graph_edge_map(
            self.graph,
        ).dom().contains(e) implies graph_edge_map(self.graph)[e].0 <= MAX_DISTANCE && e.0
            != e.1 by {
            assert(spec_edge_present(topology, command_device_id, dm, e.0, e.1));
            let da = dm.spec_get(e.0)->0;
            let db = dm.spec_get(e.1)->0;
            let ia = dm.spec_index_of(e.0);
            let ib = dm.spec_index_of(e.1);
            assert(da == dm.devices@[ia] && da.wf());
            assert(db == dm.devices@[ib] && db.wf());
            lemma_distance_bounded(da.real_position, db.real_position);
        }
        let ids = dm.devices@.map(|i: int, d: crate::device::Device| d.id);
        assert forall|nd: DeviceId| #[trigger] graph_node_set(self.graph).contains(nd) implies
            ids.to_set().contains(nd) by {
            let k = dm.spec_index_of(nd);
            assert(ids[k] == nd);
        }
        lemma_seq_to_set_len(ids);
        vstd::set_lib::lemma_len_subset(graph_node_set(self.graph), ids.to_set());
    }
}

impl ConnectionGraph {
    /// Single-source shortest distances from `source`, weighted by the
    /// distance attached to each edge: each returned pair carries the
    /// minimal path cost to its node, every node a path reaches is
    /// returned, and the content is exactly [`dijkstra_distances`] on the
    /// graph's edges, in no fixed order.
    pub fn dijkstra(&self, source: DeviceId) -> (r: Vec<(DeviceId, u64)>)
        requires
            self.wf(),
            graph_node_set(self.graph).contains(source),
        ensures
            dijkstra_results_exact(graph_edge_map(self.graph), source, r@),
    {
        run_dijkstra(&self.graph, source)
    }

    /// The point-to-point shortest path and its total distance, or why
    /// there is none: `NoPathFound` exactly when no path connects the
    /// devices, `PathTooShort` exactly when source and destination are
    /// the same device.
    pub fn find_shortest_path_from_to(&self, source: DeviceId, destination: DeviceId) -> (r:
        Result<(u64, Vec<DeviceId>), ShortestPathError>)
        requires
            self.wf(),
        ensures
            match r {
                Ok((distance, path)) => {
                    &&& spec_is_path(graph_edge_map(self.graph), path@, source, destination)
                    &&& path@.len() >= 2
                    &&& source != destination
                    &&& distance == spec_path_cost(graph_edge_map(self.graph), path@)
                    &&& forall|p: Seq<DeviceId>|
                        spec_is_path(graph_edge_map(self.graph), p, source, destination)
                            ==> spec_path_cost(graph_edge_map(self.graph), p) >= distance
                },
                Err(e) => match e {
                    ShortestPathError::NoPathFound => source != destination && forall|
                        p: Seq<DeviceId>,
                    | !spec_is_path(graph_edge_map(self.graph), p, source, destination),
                    ShortestPathError::PathTooShort => source == destination,
                },
            },
            r == Result::<(u64, Vec<DeviceId>), ShortestPathError>::Err(
                ShortestPathError::PathTooShort,
            ) <==> source == destination,
    {
        let Some((distance, path)) = run_astar(&self.graph, source, destination) else {
            return Err(ShortestPathError::NoPathFound);
        };
        if path.len() < 2 {
            proof {
                assert(path@[0] == source && path@[path@.len() - 1] == destination);
            }
            return Err(ShortestPathError::PathTooShort);
        }
        Ok((distance, path))
    }

    /// Builds the per-destination delay map for a signal sent by
    /// `source_device`.  A source inside the graph uses shortest-path
    /// distances; one outside it falls back to the straight-line distance
    /// to each relevant device.  A broadcast addresses every reachable
    /// node, a unicast only its destination.
    #[verifier::rlimit(100)]
    pub fn delay_map(
        &self,
        source_device: &crate::device::Device,
        destination_id: DeviceId,
        device_map: &IdToDeviceMap,
        delay_multiplier: u64,
    ) -> (r: IdToDelayMap)
        requires
            self.wf(),
            source_device.wf(),
            device_map.wf(),
            delay_multiplier <= crate::mathphysics::MAX_DELAY_MULTIPLIER,
        ensures
            r.wf(),
            graph_node_set(self.graph).contains(source_device.id) ==> ({
                let dd = dijkstra_distances(graph_edge_map(self.graph), source_device.id);
                if destination_id == crate::device::BROADCAST_ID {
                    forall|id: DeviceId|
                        #[trigger] r.spec_get(id) == if dd.dom().contains(id) {
                            Some(
                                crate::mathphysics::spec_delay_to(
                                    dd[id] as int,
                                    delay_multiplier as int,
                                ) as u64,
                            )
                        } else {
                            None::<u64>
                        }
                } else {
                    forall|id: DeviceId|
                        #[trigger] r.spec_get(id) == if id == destination_id && dd.dom().contains(
                            id,
                        ) {
                            Some(
                                crate::mathphysics::spec_delay_to(
                                    dd[id] as int,
                                    delay_multiplier as int,
                                ) as u64,
                            )
                        } else {
                            None::<u64>
                        }
                }
            }),
            !graph_node_set(self.graph).contains(source_device.id) ==> forall|id: DeviceId|
                #[trigger] r.spec_get(id) == if (destination_id == crate::device::BROADCAST_ID
                    || id == destination_id) && graph_node_set(self.graph).contains(id)
                    && device_map.spec_contains_id(id) {
                    Some(
                        crate::mathphysics::spec_delay_to(
                            spec_distance(
                                source_device.real_position,
                                device_map.spec_get(id)->0.real_position,
                            ),
                            delay_multiplier as int,
                        ) as u64,
                    )
                } else {
                    None::<u64>
                },
    {
        let mut result = IdToDelayMap::new();
        if graph_contains_node(&self.graph, source_device.id()) {
            let distances = run_dijkstra(&self.graph, source_device.id());
            let ghost dd = dijkstra_distances(graph_edge_map(self.graph), source_device.id);
            let mut i: usize = 0;
            while i < distances.len()
                invariant
                    self.wf(),
                    forall|a: int, b: int| 0 <= a < b < distances@.len() ==> (
                    #[trigger] distances@[a]).0 != (#[trigger] distances@[b]).0,
                    forall|a: int|
                        0 <= a < distances@.len() ==> dd.dom().contains((
                        #[trigger] distances@[a]).0) && dd[distances@[a].0] == distances@[a].1
                            && distances@[a].1 <= MAX_PATH_DISTANCE,
                    i <= distances@.len(),
                    delay_multiplier <= crate::mathphysics::MAX_DELAY_MULTIPLIER,
                    result.wf(),
                    forall|id: DeviceId|
                        #[trigger] result.spec_get(id) == if (destination_id
                            == crate::device::BROADCAST_ID || id == destination_id) && exists|
                            a: int,
                        |
                            0 <= a < i && (#[trigger] distances@[a]).0 == id {
                            Some(
                                crate::mathphysics::spec_delay_to(
                                    dd[id] as int,
                                    delay_multiplier as int,
                                ) as u64,
                            )
                        } else {
                            None::<u64>
                        },
                decreases distances@.len() - i,
            {
                let (id, distance) = distances[i];
                if destination_id == BROADCAST_ID || id == destination_id {
                    let delay = crate::mathphysics::delay_to(distance, delay_multiplier);
                    result.insert(id, delay);
                }
                i = i + 1;
                proof {
                    assert forall|id2: DeviceId| true implies #[trigger] result.spec_get(id2)
                        == if (destination_id == crate::device::BROADCAST_ID || id2
                        == destination_id) && exists|a: int|
                        0 <= a < i && (#[trigger] distances@[a]).0 == id2 {
                        Some(
                            crate::mathphysics::spec_delay_to(
                                dd[id2] as int,
                                delay_multiplier as int,
                            ) as u64,
                        )
                    } else {
                        None::<u64>
                    } by {
                        if id2 == distances@[i - 1].0 {
                            assert(distances@[i - 1].0 == id2);
                        } else {
                            if exists|a: int| 0 <= a < i && (#[trigger] distances@[a]).0 == id2 {
                                let a = choose|a: int|
                                    0 <= a < i && (#[trigger] distances@[a]).0 == id2;
                                assert(a < i - 1);
                            }
                        }
                    }
                }
            }
            proof {
                if graph_node_set(self.graph).contains(source_device.id) {
                    assert forall|id: DeviceId| true implies #[trigger] result.spec_get(id)
                        == if (destination_id == crate::device::BROADCAST_ID || id
                        == destination_id) && dd.dom().contains(id) {
                        Some(
                            crate::mathphysics::spec_delay_to(
                                dd[id] as int,
                                delay_multiplier as int,
                            ) as u64,
                        )
                    } else {
                        None::<u64>
                    } by {
                        if dd.dom().contains(id) {
                            let a = choose|a: int|
                                0 <= a < distances@.len() && (#[trigger] distances@[a]).0 == id;
                        }
                    }
                }
            }
            result
        } else {
            let ghost src_in = graph_node_set(self.graph).contains(source_device.id);
            let mut i: usize = 0;
            let n = device_map.devices.len();
            while i < n
                invariant
                    !src_in,
                    self.wf(),
                    source_device.wf(),
                    device_map.wf(),
                    n == device_map.devices@.len(),
                    i <= n,
                    delay_multiplier <= crate::mathphysics::MAX_DELAY_MULTIPLIER,
                    result.wf(),
                    forall|id: DeviceId|
                        #[trigger] result.spec_get(id) == if (destination_id
                            == crate::device::BROADCAST_ID || id == destination_id)
                            && graph_node_set(self.graph).contains(id) && exists|a: int|
                            0 <= a < i && (#[trigger] device_map.devices@[a]).id == id {
                            Some(
                                crate::mathphysics::spec_delay_to(
                                    spec_distance(
                                        source_device.real_position,
                                        device_map.spec_get(id)->0.real_position,
                                    ),
                                    delay_multiplier as int,
                                ) as u64,
                            )
                        } else {
                            None::<u64>
                        },
                decreases n - i,
            {
                let device = &device_map.devices[i];
                proof {
                    lemma_device_unique_index(*device_map, device.id, i as int);
                    assert(device_map.devices@[i as int].wf());
                }
                if (destination_id == BROADCAST_ID || device.id() == destination_id)
                    && graph_contains_node(&self.graph, device.id()) {
                    let distance = source_device.distance_to(device);
                    let delay = crate::mathphysics::delay_to(distance, delay_multiplier);
                    result.insert(device.id(), delay);
                }
                i = i + 1;
                proof {
                    assert forall|id2: DeviceId| true implies #[trigger] result.spec_get(id2)
                        == if (destination_id == crate::device::BROADCAST_ID || id2
                        == destination_id) && graph_node_set(self.graph).contains(id2) && exists|
                        a: int,
                    |
                        0 <= a < i && (#[trigger] device_map.devices@[a]).id == id2 {
                        Some(
                            crate::mathphysics::spec_delay_to(
                                spec_distance(
                                    source_device.real_position,
                                    device_map.spec_get(id2)->0.real_position,
                                ),
                                delay_multiplier as int,
                            ) as u64,
                        )
                    } else {
                        None::<u64>
                    } by {
                        if id2 == device_map.devices@[i - 1].id {
                            assert(device_map.devices@[i - 1].id == id2);
                        } else {
                            if exists|a: int|
                                0 <= a < i && (#[trigger] device_map.devices@[a]).id == id2 {
                                let a = choose|a: int|
                                    0 <= a < i && (#[trigger] device_map.devices@[a]).id == id2;
                                assert(a < i - 1);
                            }
                        }
                    }
                }
            }
            proof {
                assert forall|id: DeviceId| device_map.spec_contains_id(id) implies exists|a: int|
                    0 <= a < n as int && (#[trigger] device_map.devices@[a]).id == id by {
                    let a = device_map.spec_index_of(id);
                    assert(device_map.devices@[a].id == id);
                }
                assert forall|id: DeviceId| !device_map.spec_contains_id(id) implies !(exists|
                    a: int,
                |
                    0 <= a < n as int && (#[trigger] device_map.devices@[a]).id == id) by {
                    if exists|a: int| 0 <= a < n as int && (#[trigger] device_map.devices@[a]).id
                        == id {
                        let a = choose|a: int|
                            0 <= a < n as int && (#[trigger] device_map.devices@[a]).id == id;
                        assert(device_map.spec_contains_id(id));
                    }
                }
            }
            result
        }
    }

    /// The diameter: the largest single-source shortest-path distance in
    /// the graph; zero for an empty graph.  Whenever some path connects a
    /// node to a device, a path no longer than the diameter connects
    /// them, and a nonzero diameter is attained by some pair's shortest
    /// path distance.
    #[verifier::rlimit(100)]
    pub fn diameter(&self) -> (r: u64)
        requires
            self.wf(),
        ensures
            forall|n: DeviceId, d: DeviceId|
                graph_node_set(self.graph).contains(n) && (#[trigger] dijkstra_distances(
                    graph_edge_map(self.graph),
                    n,
                ).dom().contains(d)) ==> dijkstra_distances(graph_edge_map(self.graph), n)[d] <= r,
            forall|n: DeviceId, d: DeviceId, q: Seq<DeviceId>|
                graph_node_set(self.graph).contains(n) && #[trigger] spec_is_path(
                    graph_edge_map(self.graph),
                    q,
                    n,
                    d,
                ) ==> exists|p: Seq<DeviceId>|
                    spec_is_path(graph_edge_map(self.graph), p, n, d) && spec_path_cost(
                        graph_edge_map(self.graph),
                        p,
                    ) <= r,
            r != 0 ==> exists|n: DeviceId, d: DeviceId, p: Seq<DeviceId>|
                {
                    &&& graph_node_set(self.graph).contains(n)
                    &&& #[trigger] spec_is_path(graph_edge_map(self.graph), p, n, d)
                    &&& spec_path_cost(graph_edge_map(self.graph), p) == r
                    &&& forall|q: Seq<DeviceId>|
                        #[trigger] spec_is_path(graph_edge_map(self.graph), q, n, d)
                            ==> spec_path_cost(graph_edge_map(self.graph), q) >= r
                },
    {
        let ghost edges = graph_edge_map(self.graph);
        let nodes = graph_nodes(&self.graph);
        let mut best: u64 = 0;
        let mut i: usize = 0;
        while i < nodes.len()
            invariant
                self.wf(),
                edges == graph_edge_map(self.graph),
                nodes_list_exact(nodes@, graph_node_set(self.graph)),
                i <= nodes@.len(),
                forall|x: int, d: DeviceId|
                    0 <= x < i && (#[trigger] dijkstra_distances(edges, nodes@[x]).dom().contains(
                        d,
                    )) ==> dijkstra_distances(edges, nodes@[x])[d] <= best,
                forall|x: int, d: DeviceId, q: Seq<DeviceId>|
                    0 <= x < i && #[trigger] spec_is_path(edges, q, nodes@[x], d) ==> exists|
                        p: Seq<DeviceId>,
                    | spec_is_path(edges, p, nodes@[x], d) && spec_path_cost(edges, p) <= best,
                best != 0 ==> exists|n: DeviceId, d: DeviceId, p: Seq<DeviceId>|
                    {
                        &&& graph_node_set(self.graph).contains(n)
                        &&& #[trigger] spec_is_path(edges, p, n, d)
                        &&& spec_path_cost(edges, p) == best
                        &&& forall|q: Seq<DeviceId>|
                            #[trigger] spec_is_path(edges, q, n, d) ==> spec_path_cost(edges, q)
                                >= best
                    },
            decreases nodes@.len() - i,
        {
            let source = nodes[i];
            let ghost old_best = best;
            let distances = run_dijkstra(&self.graph, source);
            let mut k: usize = 0;
            while k < distances.len()
                invariant
                    self.wf(),
                    edges == graph_edge_map(self.graph),
                    graph_node_set(self.graph).contains(source),
                    dijkstra_results_exact(edges, source, distances@),
                    k <= distances@.len(),
                    old_best <= best,
                    forall|a: int| 0 <= a < k ==> (#[trigger] distances@[a]).1 <= best,
                    best != 0 ==> exists|n: DeviceId, d: DeviceId, p: Seq<DeviceId>|
                        {
                            &&& graph_node_set(self.graph).contains(n)
                            &&& #[trigger] spec_is_path(edges, p, n, d)
                            &&& spec_path_cost(edges, p) == best
                            &&& forall|q: Seq<DeviceId>|
                                #[trigger] spec_is_path(edges, q, n, d) ==> spec_path_cost(
                                    edges,
                                    q,
                                ) >= best
                        },
                decreases distances@.len() - k,
            {
                let (id, distance) = distances[k];
                if distance > best {
                    best = distance;
                    proof {
                        let p = choose|p: Seq<DeviceId>|
                            #[trigger] spec_is_path(edges, p, source, distances@[k as int].0)
                                && spec_path_cost(edges, p) == distances@[k as int].1;
                        assert(spec_is_path(edges, p, source, distances@[k as int].0)
                            && spec_path_cost(edges, p) == best);
                        assert forall|q: Seq<DeviceId>|
                            #[trigger] spec_is_path(
                                edges,
                                q,
                                source,
                                distances@[k as int].0,
                            ) implies spec_path_cost(edges, q) >= best by {
                            assert(spec_path_cost(edges, q) >= distances@[k as int].1);
                        }
                    }
                }
                k = k + 1;
            }
            i = i + 1;
            proof {
                assert forall|x: int, d: DeviceId|
                    0 <= x < i && (#[trigger] dijkstra_distances(edges, nodes@[x]).dom().contains(
                        d,
                    )) implies dijkstra_distances(edges, nodes@[x])[d] <= best by {
                    if x == i - 1 {
                        let a = choose|a: int|
                            0 <= a < distances@.len() && (#[trigger] distances@[a]).0 == d;
                    }
                }
                assert forall|x: int, d: DeviceId, q: Seq<DeviceId>|
                    0 <= x < i && #[trigger] spec_is_path(edges, q, nodes@[x], d) implies exists|
                        p: Seq<DeviceId>,
                    | spec_is_path(edges, p, nodes@[x], d) && spec_path_cost(edges, p)
                        <= best by {
                    if x == i - 1 {
                        let a = choose|a: int|
                            0 <= a < distances@.len() && (#[trigger] distances@[a]).0 == d;
                        let p = choose|p: Seq<DeviceId>|
                            #[trigger] spec_is_path(edges, p, nodes@[x], distances@[a].0)
                                && spec_path_cost(edges, p) == distances@[a].1;
                        assert(spec_is_path(edges, p, nodes@[x], d) && spec_path_cost(edges, p)
                            <= best);
                    }
                }
            }
        }
        proof {
            assert forall|n: DeviceId, d: DeviceId|
                graph_node_set(self.graph).contains(n) && (#[trigger] dijkstra_distances(
                    edges,
                    n,
                ).dom().contains(d)) implies dijkstra_distances(edges, n)[d] <= best by {
                let x = choose|x: int| 0 <= x < nodes@.len() && nodes@[x] == n;
            }
            assert forall|n: DeviceId, d: DeviceId, q: Seq<DeviceId>|
                graph_node_set(self.graph).contains(n) && #[trigger] spec_is_path(
                    edges,
                    q,
                    n,
                    d,
                ) implies exists|p: Seq<DeviceId>|
                spec_is_path(edges, p, n, d) && spec_path_cost(edges, p) <= best by {
                let x = choose|x: int| 0 <= x < nodes@.len() && nodes@[x] == n;
                assert(spec_is_path(edges, q, nodes@[x], d));
            }
        }
        best
    }

    /// The number of edges arriving at the device.
    pub fn in_degree(&self, id: DeviceId) -> (r: usize)
        requires
            self.wf(),
        ensures
            r == graph_edge_map(self.graph).dom().filter(
                |e: (DeviceId, DeviceId)| e.1 == id,
            ).len(),
    {
        let edges = graph_all_edges(&self.graph);
        let ghost target = graph_edge_map(self.graph).dom().filter(
            |e: (DeviceId, DeviceId)| e.1 == id,
        );
        proof {
            vstd::set_lib::lemma_len_subset(target, graph_edge_map(self.graph).dom());
        }
        let mut count: usize = 0;
        let ghost mut seen: Set<(DeviceId, DeviceId)> = Set::empty();
        let mut i: usize = 0;
        while i < edges.len()
            invariant
                self.wf(),
                edges_list_exact(edges@, graph_edge_map(self.graph)),
                i <= edges@.len(),
                seen.finite(),
                count == seen.len(),
                target == graph_edge_map(self.graph).dom().filter(
                    |e: (DeviceId, DeviceId)| e.1 == id,
                ),
                seen == target.intersect(
                    Set::new(
                        |e: (DeviceId, DeviceId)|
                            exists|a: int|
                                0 <= a < i && ((#[trigger] edges@[a]).0, edges@[a].1) == e,
                    ),
                ),
                count <= i,
            decreases edges@.len() - i,
        {
            let edge = edges[i];
            let ghost pair = (edges@[i as int].0, edges@[i as int].1);
            let ghost prefix = Set::new(
                |e: (DeviceId, DeviceId)|
                    exists|a: int| 0 <= a < i && ((#[trigger] edges@[a]).0, edges@[a].1) == e,
            );
            let ghost prefix2 = Set::new(
                |e: (DeviceId, DeviceId)|
                    exists|a: int| 0 <= a < i + 1 && ((#[trigger] edges@[a]).0, edges@[a].1) == e,
            );
            proof {
                assert forall|e: (DeviceId, DeviceId)| prefix2.contains(e) implies prefix.contains(
                    e,
                ) || e == pair by {
                    let a = choose|a: int|
                        0 <= a < i + 1 && ((#[trigger] edges@[a]).0, edges@[a].1) == e;
                    if a < i {
                        assert(prefix.contains(e));
                    }
                }
                assert(prefix2 =~= prefix.insert(pair));
                assert(!prefix.contains(pair)) by {
                    if prefix.contains(pair) {
                        let a = choose|a: int|
                            0 <= a < i && ((#[trigger] edges@[a]).0, edges@[a].1) == pair;
                        assert(((edges@[a]).0, edges@[a].1) == ((edges@[i as int]).0,
                        edges@[i as int].1));
                    }
                }
            }
            if edge.1 == id {
                count = count + 1;
                proof {
                    seen = seen.insert(pair);
                    assert(graph_edge_map(self.graph).dom().contains(pair));
                    assert(pair.1 == id);
                    assert(target.contains(pair));
                    assert(target.intersect(prefix2) =~= target.intersect(prefix).insert(pair));
                }
            } else {
                proof {
                    assert(pair.1 != id);
                    assert(!target.contains(pair));
                    assert(target.intersect(prefix2) =~= target.intersect(prefix));
                }
            }
            i = i + 1;
        }
        proof {
            let all = Set::new(
                |e: (DeviceId, DeviceId)|
                    exists|a: int|
                        0 <= a < edges@.len() && ((#[trigger] edges@[a]).0, edges@[a].1) == e,
            );
            assert forall|e: (DeviceId, DeviceId)| target.contains(e) implies all.contains(e) by {
                let a = choose|a: int|
                    0 <= a < edges@.len() && ((#[trigger] edges@[a]).0, edges@[a].1) == e;
            }
            assert(target.intersect(all) =~= target);
        }
        count
    }

    /// The number of edges leaving the device.
    pub fn out_degree(&self, id: DeviceId) -> (r: usize)
        requires
            self.wf(),
        ensures
            r == graph_edge_map(self.graph).dom().filter(
                |e: (DeviceId, DeviceId)| e.0 == id,
            ).len(),
    {
        let edges = graph_all_edges(&self.graph);
        let ghost target = graph_edge_map(self.graph).dom().filter(
            |e: (DeviceId, DeviceId)| e.0 == id,
        );
        proof {
            vstd::set_lib::lemma_len_subset(target, graph_edge_map(self.graph).dom());
        }
        let mut count: usize = 0;
        let ghost mut seen: Set<(DeviceId, DeviceId)> = Set::empty();
        let mut i: usize = 0;
        while i < edges.len()
            invariant
                self.wf(),
                edges_list_exact(edges@, graph_edge_map(self.graph)),
                i <= edges@.len(),
                seen.finite(),
                count == seen.len(),
                target == graph_edge_map(self.graph).dom().filter(
                    |e: (DeviceId, DeviceId)| e.0 == id,
                ),
                seen == target.intersect(
                    Set::new(
                        |e: (DeviceId, DeviceId)|
                            exists|a: int|
                                0 <= a < i && ((#[trigger] edges@[a]).0, edges@[a].1) == e,
                    ),
                ),
                count <= i,
            decreases edges@.len() - i,
        {
            let edge = edges[i];
            let ghost pair = (edges@[i as int].0, edges@[i as int].1);
            let ghost prefix = Set::new(
                |e: (DeviceId, DeviceId)|
                    exists|a: int| 0 <= a < i && ((#[trigger] edges@[a]).0, edges@[a].1) == e,
            );
            let ghost prefix2 = Set::new(
                |e: (DeviceId, DeviceId)|
                    exists|a: int| 0 <= a < i + 1 && ((#[trigger] edges@[a]).0, edges@[a].1) == e,
            );
            proof {
                assert forall|e: (DeviceId, DeviceId)| prefix2.contains(e) implies prefix.contains(
                    e,
                ) || e == pair by {
                    let a = choose|a: int|
                        0 <= a < i + 1 && ((#[trigger] edges@[a]).0, edges@[a].1) == e;
                    if a < i {
                        assert(prefix.contains(e));
                    }
                }
                assert(prefix2 =~= prefix.insert(pair));
                assert(!prefix.contains(pair)) by {
                    if prefix.contains(pair) {
                        let a = choose|a: int|
                            0 <= a < i && ((#[trigger] edges@[a]).0, edges@[a].1) == pair;
                        assert(((edges@[a]).0, edges@[a].1) == ((edges@[i as int]).0,
                        edges@[i as int].1));
                    }
                }
            }
            if edge.0 == id {
                count = count + 1;
                proof {
                    seen = seen.insert(pair);
                    assert(graph_edge_map(self.graph).dom().contains(pair));
                    assert(pair.0 == id);
                    assert(target.contains(pair));
                    assert(target.intersect(prefix2) =~= target.intersect(prefix).insert(pair));
                }
            } else {
                proof {
                    assert(pair.0 != id);
                    assert(!target.contains(pair));
                    assert(target.intersect(prefix2) =~= target.intersect(prefix));
                }
            }
            i = i + 1;
        }
        proof {
            let all = Set::new(
                |e: (DeviceId, DeviceId)|
                    exists|a: int|
                        0 <= a < edges@.len() && ((#[trigger] edges@[a]).0, edges@[a].1) == e,
            );
            assert forall|e: (DeviceId, DeviceId)| target.contains(e) implies all.contains(e) by {
                let a = choose|a: int|
                    0 <= a < edges@.len() && ((#[trigger] edges@[a]).0, edges@[a].1) == e;
            }
            assert(target.intersect(all) =~= target);
        }
        count
    }

    /// The graph's edges as a list, for persisting a snapshot: each edge
    /// exactly once with its weight.
    pub fn to_edge_list(&self) -> (r: Vec<(DeviceId, DeviceId, EdgeWeight)>)
        requires
            self.wf(),
        ensures
            edges_list_exact(r@, graph_edge_map(self.graph)),
    {
        graph_all_edges(&self.graph)
    }

    /// Rebuilds a graph from a persisted edge list.  The list must hold
    /// each edge once, without self-loops, with in-range weights, over at
    /// most [`MAX_GRAPH_NODES`] distinct endpoints.
    pub fn from_edge_list(topology: Topology, edges: &Vec<(DeviceId, DeviceId, EdgeWeight)>) -> (r:
        Self)
        requires
            forall|i: int, j: int|
                0 <= i < j < edges@.len() ==> ((#[trigger] edges@[i]).0, edges@[i].1) != ((
                #[trigger] edges@[j]).0, edges@[j].1),
            forall|i: int| 0 <= i < edges@.len() ==> (#[trigger] edges@[i]).0 != edges@[i].1,
            forall|i: int| 0 <= i < edges@.len() ==> (#[trigger] edges@[i]).2.0 <= MAX_DISTANCE,
            spec_endpoint_set(edges@).len() <= MAX_GRAPH_NODES,
        ensures
            r.topology == topology,
            r.wf(),
            edges_list_exact(edges@, graph_edge_map(r.graph)),
    {
        let mut result = Self::new(topology);
        proof {
            lemma_endpoint_set_len(edges@);
        }
        let mut i: usize = 0;
        while i < edges.len()
            invariant
                forall|a: int, b: int|
                    0 <= a < b < edges@.len() ==> ((#[trigger] edges@[a]).0, edges@[a].1) != ((
                    #[trigger] edges@[b]).0, edges@[b].1),
                forall|a: int| 0 <= a < edges@.len() ==> (#[trigger] edges@[a]).0 != edges@[a].1,
                forall|a: int| 0 <= a < edges@.len() ==> (#[trigger] edges@[a]).2.0 <= MAX_DISTANCE,
                spec_endpoint_set(edges@).len() <= MAX_GRAPH_NODES,
                spec_endpoint_set(edges@).finite(),
                result.topology == topology,
                i <= edges@.len(),
                graph_edge_map(result.graph).dom().finite(),
                graph_node_set(result.graph).finite(),
                edges_within_nodes(result.graph),
                graph_node_set(result.graph).subset_of(spec_endpoint_set(edges@)),
                forall|e: (DeviceId, DeviceId)|
                    #[trigger] graph_edge_map(result.graph).dom().contains(e) ==> e.0 != e.1
                        && graph_edge_map(result.graph)[e].0 <= MAX_DISTANCE,
                forall|a: int|
                    0 <= a < i ==> graph_edge_map(result.graph).dom().contains(
                        ((#[trigger] edges@[a]).0, edges@[a].1),
                    ) && graph_edge_map(result.graph)[(edges@[a].0, edges@[a].1)] == edges@[a].2,
                forall|e: (DeviceId, DeviceId)|
                    #[trigger] graph_edge_map(result.graph).dom().contains(e) ==> exists|a: int|
                        0 <= a < i && ((#[trigger] edges@[a]).0, edges@[a].1) == e,
            decreases edges@.len() - i,
        {
            let (a, b, weight) = edges[i];
            graph_add_edge(&mut result.graph, a, b, weight);
            proof {
                assert(spec_endpoint_set(edges@).contains(a) && spec_endpoint_set(
                    edges@,
                ).contains(b));
                assert forall|e: (DeviceId, DeviceId)|
                    #[trigger] graph_edge_map(result.graph).dom().contains(e) implies exists|
                    c: int,
                |
                    0 <= c < i + 1 && ((#[trigger] edges@[c]).0, edges@[c].1) == e by {
                    if e == (a, b) {
                        assert(((edges@[i as int]).0, edges@[i as int].1) == e);
                    }
                }
            }
            i = i + 1;
        }
        proof {
            vstd::set_lib::lemma_len_subset(
                graph_node_set(result.graph),
                spec_endpoint_set(edges@),
            );
        }
        result
    }
}

/// The set of endpoints an edge list mentions.
pub open spec fn spec_endpoint_set(s: Seq<(DeviceId, DeviceId, EdgeWeight)>) -> Set<DeviceId> {
    Set::new(
        |n: DeviceId|
            exists|i: int| 0 <= i < s.len() && ((#[trigger] s[i]).0 == n || s[i].1 == n),
    )
}

/// An edge list's endpoint set is finite, with at most two endpoints per
/// edge.
pub proof fn lemma_endpoint_set_len(s: Seq<(DeviceId, DeviceId, EdgeWeight)>)
    ensures
        spec_endpoint_set(s).finite(),
        spec_endpoint_set(s).len() <= 2 * s.len(),
    decreases s.len(),
{
    if s.len() == 0 {
        assert(spec_endpoint_set(s) =~= Set::<DeviceId>::empty());
    } else {
        lemma_endpoint_set_len(s.drop_last());
        assert forall|n: DeviceId| spec_endpoint_set(s).contains(n) implies spec_endpoint_set(
            s.drop_last(),
        ).insert(s.last().0).insert(s.last().1).contains(n) by {
            let i = choose|i: int| 0 <= i < s.len() && ((#[trigger] s[i]).0 == n || s[i].1 == n);
            if i < s.len() - 1 {
                assert(s.drop_last()[i] == s[i]);
                assert(spec_endpoint_set(s.drop_last()).contains(n));
            }
        }
        assert forall|n: DeviceId|
            spec_endpoint_set(s.drop_last()).insert(s.last().0).insert(s.last().1).contains(
                n,
            ) implies spec_endpoint_set(s).contains(n) by {
            if spec_endpoint_set(s.drop_last()).contains(n) {
                let i = choose|i: int|
                    0 <= i < s.drop_last().len() && ((#[trigger] s.drop_last()[i]).0 == n
                        || s.drop_last()[i].1 == n);
                assert(s[i] == s.drop_last()[i]);
            } else {
                assert(s[s.len() - 1].0 == n || s[s.len() - 1].1 == n);
            }
        }
        assert(spec_endpoint_set(s) =~= spec_endpoint_set(s.drop_last()).insert(
            s.last().0,
        ).insert(s.last().1));
    }
}


/// In a star topology, every present edge is incident to the command
/// device.
pub proof fn lemma_star_edges_incident(
    command_id: DeviceId,
    dm: IdToDeviceMap,
    a: DeviceId,
    b: DeviceId,
)
    requires
        spec_edge_present(Topology::Star, command_id, dm, a, b),
    ensures
        a == command_id || b == command_id,
{
}

/// No topology ever yields a self-loop.
pub proof fn lemma_no_self_loop(
    topology: Topology,
    command_id: DeviceId,
    dm: IdToDeviceMap,
    a: DeviceId,
)
    ensures
        !spec_edge_present(topology, command_id, dm, a, a),
{
}

/// In a mesh, a directed edge is present exactly when that direction's
/// transmitter reaches the other device: edge existence in each direction
/// depends only on that direction's transmit reachability.
pub proof fn lemma_mesh_edge_iff_reachability(
    command_id: DeviceId,
    dm: IdToDeviceMap,
    a: DeviceId,
    b: DeviceId,
)
    requires
        dm.spec_contains_id(command_id),
        dm.spec_contains_id(a),
        dm.spec_contains_id(b),
        a != b,
    ensures
        spec_edge_present(Topology::Mesh, command_id, dm, a, b) <==> spec_tx_level_at(
            dm.spec_get(a)->0.trx_system.tx_module,
            Frequency::Control,
            spec_distance(dm.spec_get(a)->0.real_position, dm.spec_get(b)->0.real_position),
        ) is Some,
{
}

/// An edge list pins the edge map down: two maps listed by the same
/// sequence are equal, which makes a persisted edge list lossless.
pub proof fn lemma_edge_list_determines_map(
    s: Seq<(DeviceId, DeviceId, EdgeWeight)>,
    m1: Map<(DeviceId, DeviceId), EdgeWeight>,
    m2: Map<(DeviceId, DeviceId), EdgeWeight>,
)
    requires
        edges_list_exact(s, m1),
        edges_list_exact(s, m2),
    ensures
        m1 == m2,
{
    assert forall|e: (DeviceId, DeviceId)| m1.dom().contains(e) implies m2.dom().contains(e)
        && m1[e] == m2[e] by {
        let i = choose|i: int| 0 <= i < s.len() && ((#[trigger] s[i]).0, s[i].1) == e;
        assert(m2.dom().contains((s[i].0, s[i].1)));
    }
    assert forall|e: (DeviceId, DeviceId)| m2.dom().contains(e) implies m1.dom().contains(e) by {
        let i = choose|i: int| 0 <= i < s.len() && ((#[trigger] s[i]).0, s[i].1) == e;
        assert(m1.dom().contains((s[i].0, s[i].1)));
    }
    assert(m1 =~= m2);
}

/// The directed pairs from the command device to every other device
/// among the first `k` devices of the collection.
pub open spec fn spec_star_pairs(
    dm: IdToDeviceMap,
    command_id: DeviceId,
    k: int,
) -> Set<(DeviceId, DeviceId)> {
    Set::new(
        |p: (DeviceId, DeviceId)|
            exists|y: int|
                0 <= y < k && (#[trigger] dm.devices@[y]).id != command_id && p == (
                    command_id,
                    dm.devices@[y].id,
                ),
    )
}

proof fn lemma_star_pairs_card(dm: IdToDeviceMap, command_id: DeviceId, k: int)
    requires
        dm.wf(),
        dm.spec_contains_id(command_id),
        0 <= k <= dm.devices@.len(),
    ensures
        spec_star_pairs(dm, command_id, k).finite(),
        spec_star_pairs(dm, command_id, k).len() == if dm.spec_index_of(command_id) < k {
            k - 1
        } else {
            k
        },
    decreases k,
{
    let ci = dm.spec_index_of(command_id);
    lemma_device_unique_index(dm, command_id, ci);
    if k == 0 {
        assert(spec_star_pairs(dm, command_id, 0) =~= Set::<(DeviceId, DeviceId)>::empty());
    } else {
        lemma_star_pairs_card(dm, command_id, k - 1);
        let prev = spec_star_pairs(dm, command_id, k - 1);
        let cur = spec_star_pairs(dm, command_id, k);
        if k - 1 == ci {
            assert forall|p: (DeviceId, DeviceId)| cur.contains(p) implies prev.contains(p) by {
                let y = choose|y: int|
                    0 <= y < k && (#[trigger] dm.devices@[y]).id != command_id && p == (
                        command_id,
                        dm.devices@[y].id,
                    );
                assert(y != k - 1);
            }
            assert(cur =~= prev);
        } else {
            let fresh = (command_id, dm.devices@[k - 1].id);
            assert(dm.devices@[k - 1].id != command_id) by {
                if dm.devices@[k - 1].id == command_id {
                    lemma_device_unique_index(dm, command_id, k - 1);
                }
            }
            assert(cur.contains(fresh));
            assert(!prev.contains(fresh)) by {
                if prev.contains(fresh) {
                    let y = choose|y: int|
                        0 <= y < k - 1 && (#[trigger] dm.devices@[y]).id != command_id && fresh
                            == (command_id, dm.devices@[y].id);
                    assert(dm.devices@[y].id < dm.devices@[k - 1].id);
                }
            }
            assert forall|p: (DeviceId, DeviceId)| cur.contains(p) implies prev.insert(
                fresh,
            ).contains(p) by {
                let y = choose|y: int|
                    0 <= y < k && (#[trigger] dm.devices@[y]).id != command_id && p == (
                        command_id,
                        dm.devices@[y].id,
                    );
                if y < k - 1 {
                    assert(prev.contains(p));
                }
            }
            assert(cur =~= prev.insert(fresh));
        }
    }
}

/// Over a device set where only the command device's transmitter reaches
/// anyone and it reaches every other device, a star graph holds exactly
/// one edge per other device: a set of N devices yields N - 1 edges, all
/// of them leaving the command device.
pub proof fn lemma_star_edge_count(
    edges: Map<(DeviceId, DeviceId), EdgeWeight>,
    command_id: DeviceId,
    dm: IdToDeviceMap,
)
    requires
        dm.wf(),
        dm.spec_contains_id(command_id),
        edges.dom().finite(),
        forall|a: DeviceId, b: DeviceId|
            #[trigger] edges.dom().contains((a, b)) <==> spec_edge_present(
                Topology::Star,
                command_id,
                dm,
                a,
                b,
            ),
        forall|y: int|
            0 <= y < dm.devices@.len() && (#[trigger] dm.devices@[y]).id != command_id
                ==> spec_edge_present(
                Topology::Star,
                command_id,
                dm,
                command_id,
                dm.devices@[y].id,
            ),
        forall|y: int|
            0 <= y < dm.devices@.len() ==> !spec_edge_present(
                Topology::Star,
                command_id,
                dm,
                (#[trigger] dm.devices@[y]).id,
                command_id,
            ),
    ensures
        edges.dom().len() == dm.devices@.len() - 1,
        forall|e: (DeviceId, DeviceId)| #[trigger] edges.dom().contains(e) ==> e.0 == command_id,
{
    let n = dm.devices@.len() as int;
    let ci = dm.spec_index_of(command_id);
    lemma_device_unique_index(dm, command_id, ci);
    let pairs = spec_star_pairs(dm, command_id, n);
    assert forall|e: (DeviceId, DeviceId)| #[trigger] edges.dom().contains(e) implies e.0
        == command_id by {
        assert(spec_edge_present(Topology::Star, command_id, dm, e.0, e.1));
        if e.0 != command_id {
            assert(e.1 == command_id);
            let ia = dm.spec_index_of(e.0);
            lemma_device_unique_index(dm, e.0, ia);
            assert(!spec_edge_present(Topology::Star, command_id, dm, dm.devices@[ia].id,
            command_id));
        }
    }
    assert forall|e: (DeviceId, DeviceId)| #[trigger] edges.dom().contains(e) implies
        pairs.contains(e) by {
        assert(e.0 == command_id);
        assert(spec_edge_present(Topology::Star, command_id, dm, e.0, e.1));
        let ib = dm.spec_index_of(e.1);
        lemma_device_unique_index(dm, e.1, ib);
        assert(dm.devices@[ib].id == e.1 && e.1 != command_id);
    }
    assert forall|e: (DeviceId, DeviceId)| pairs.contains(e) implies edges.dom().contains(e) by {
        let y = choose|y: int|
            0 <= y < n && (#[trigger] dm.devices@[y]).id != command_id && e == (
                command_id,
                dm.devices@[y].id,
            );
        assert(spec_edge_present(Topology::Star, command_id, dm, command_id, dm.devices@[y].id));
    }
    assert(edges.dom() =~= pairs);
    lemma_star_pairs_card(dm, command_id, n);
}

/// A sequence's set of values is finite and no larger than the sequence.
pub proof fn lemma_seq_to_set_len(s: Seq<DeviceId>)
    ensures
        s.to_set().finite(),
        s.to_set().len() <= s.len(),
    decreases s.len(),
{
    vstd::seq_lib::seq_to_set_is_finite(s);
    if s.len() == 0 {
        assert(s.to_set() =~= Set::<DeviceId>::empty());
    } else {
        lemma_seq_to_set_len(s.drop_last());
        assert forall|x: DeviceId| s.to_set().contains(x) implies s.drop_last().to_set().insert(
            s.last(),
        ).contains(x) by {
            let i = choose|i: int| 0 <= i < s.len() && s[i] == x;
            if i < s.len() - 1 {
                assert(s.drop_last()[i] == x);
                assert(s.drop_last().contains(x));
            }
        }
        assert forall|x: DeviceId| s.drop_last().to_set().insert(s.last()).contains(x) implies
            s.to_set().contains(x) by {
            if s.drop_last().to_set().contains(x) {
                let i = choose|i: int| 0 <= i < s.drop_last().len() && s.drop_last()[i] == x;
                assert(s[i] == x);
                assert(s.contains(x));
            } else {
                assert(s[s.len() - 1] == x);
                assert(s.contains(x));
            }
        }
        assert(s.to_set() =~= s.drop_last().to_set().insert(s.last()));
    }
}

} // verus!

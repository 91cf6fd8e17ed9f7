//! The connection resolver: a read-only projection that answers "what does
//! this graph's wiring look like". For each extension node with at least
//! one outgoing flow in any category it produces one record, in node
//! declaration order; a category with no flows is absent from the record,
//! never an empty list. Resolution does not validate: it may be called on
//! graphs that have not passed the pipeline.

use vstd::prelude::*;
use crate::errors::QueryError;
use crate::model::{
    clone_flows, clone_opt_string, same_app, ConnectionV, ExtensionNode, ExtensionNodeV, FlowV,
    Graph, GraphConnection, GraphEntryV, GraphNode, GraphStore, GraphV, MessageFlow, NodeV,
};

verus! {

/// One resolver record: the outbound flows of a single extension, grouped
/// by category. A category the extension declares no flows for is `None`.
#[derive(Clone, Debug, PartialEq, Eq)]
pub struct ExtensionConnections {
    pub app: Option<String>,
    pub extension: String,
    pub subgraph: Option<String>,
    pub cmd: Option<Vec<MessageFlow>>,
    pub data: Option<Vec<MessageFlow>>,
    pub audio_frame: Option<Vec<MessageFlow>>,
    pub video_frame: Option<Vec<MessageFlow>>,
}

/// Spec view of an [`ExtensionConnections`] record.
#[verifier::ext_equal]
pub struct RecordV {
    pub app: Option<Seq<char>>,
    pub extension: Seq<char>,
    pub subgraph: Option<Seq<char>>,
    pub cmd: Option<Seq<FlowV>>,
    pub data: Option<Seq<FlowV>>,
    pub audio_frame: Option<Seq<FlowV>>,
    pub video_frame: Option<Seq<FlowV>>,
}

impl DeepView for ExtensionConnections {
    type V = RecordV;

    open spec fn deep_view(&self) -> RecordV {
        RecordV {
            app: self.app.deep_view(),
            extension: self.extension@,
            subgraph: self.subgraph.deep_view(),
            cmd: self.cmd.deep_view(),
            data: self.data.deep_view(),
            audio_frame: self.audio_frame.deep_view(),
            video_frame: self.video_frame.deep_view(),
        }
    }
}

/// Whether a connection group belongs to the given extension node: the
/// addresses agree under the application-key rule.
pub open spec fn conn_matches_node(c: ConnectionV, e: ExtensionNodeV) -> bool {
    same_app(c.app, e.app) && c.extension == e.name
}

/// The index of the first connection group at or after `from` that belongs
/// to the extension node `e`, if any.
pub open spec fn first_conn_from(conns: Seq<ConnectionV>, e: ExtensionNodeV, from: int) -> Option<
    int,
>
    decreases conns.len() - from,
{
    if !(0 <= from < conns.len()) {
        Option::None
    } else if conn_matches_node(conns[from], e) {
        Option::Some(from)
    } else {
        first_conn_from(conns, e, from + 1)
    }
}

/// The index of the first connection group that belongs to the extension
/// node `e`, if any. One source extension has at most one connection
/// group; if a malformed graph carries more, only the first is read.
pub open spec fn find_conn(conns: Seq<ConnectionV>, e: ExtensionNodeV) -> Option<int> {
    first_conn_from(conns, e, 0)
}

/// The flows a record reports for one category: the declared list when it
/// holds at least one flow, absent otherwise. A declared-but-empty list
/// and an omitted category both resolve to absence.
pub open spec fn present_flows(f: Option<Seq<FlowV>>) -> Option<Seq<FlowV>> {
    match f {
        Option::Some(v) => if v.len() > 0 {
            Option::Some(v)
        } else {
            Option::None
        },
        Option::None => Option::None,
    }
}

/// Whether a connection group declares at least one flow in any category.
pub open spec fn conn_has_flows(c: ConnectionV) -> bool {
    ||| present_flows(c.cmd) is Some
    ||| present_flows(c.data) is Some
    ||| present_flows(c.audio_frame) is Some
    ||| present_flows(c.video_frame) is Some
}

/// The record the resolver produces for extension node `e` from its
/// connection group `c`: the node's address and origin, and per category
/// the declared flow list carried over verbatim (or absence).
pub open spec fn record_of(e: ExtensionNodeV, c: ConnectionV) -> RecordV {
    RecordV {
        app: e.app,
        extension: e.name,
        subgraph: e.subgraph_origin,
        cmd: present_flows(c.cmd),
        data: present_flows(c.data),
        audio_frame: present_flows(c.audio_frame),
        video_frame: present_flows(c.video_frame),
    }
}

/// The record a single node contributes to the resolver output: `None` for
/// subgraph nodes, for extensions without a connection group, and for
/// extensions whose group declares no flow in any category.
pub open spec fn node_record(g: GraphV, n: NodeV) -> Option<RecordV> {
    match n {
        NodeV::Extension(e) => match find_conn(g.connections, e) {
            Option::Some(ci) => if conn_has_flows(g.connections[ci]) {
                Option::Some(record_of(e, g.connections[ci]))
            } else {
                Option::None
            },
            Option::None => Option::None,
        },
        NodeV::Subgraph(_) => Option::None,
    }
}

/// The resolver output restricted to the first `n` nodes of the graph, in
/// node declaration order.
pub open spec fn records_of_prefix(g: GraphV, n: int) -> Seq<RecordV>
    decreases n,
{
    if n <= 0 {
        Seq::empty()
    } else {
        records_of_prefix(g, n - 1) + match node_record(g, g.nodes[n - 1]) {
            Option::Some(r) => seq![r],
            Option::None => Seq::empty(),
        }
    }
}

/// The full resolver output of a graph: one record per extension node with
/// outgoing flows, in node declaration order.
pub open spec fn resolve_graph_spec(g: GraphV) -> Seq<RecordV> {
    records_of_prefix(g, g.nodes.len() as int)
}

/// Finds the connection group belonging to extension node `e`, scanning in
/// declaration order.
fn find_connection(conns: &Vec<GraphConnection>, e: &ExtensionNode) -> (r: Option<usize>)
    ensures
        r matches Some(i) ==> i < conns@.len() && find_conn(conns.deep_view(), e.deep_view())
            == Option::Some(i as int),
        r is None ==> find_conn(conns.deep_view(), e.deep_view()) is None,
{
    let ghost cv = conns.deep_view();
    let ghost ev = e.deep_view();
    let mut i: usize = 0;
    while i < conns.len()
        invariant
            cv == conns.deep_view(),
            ev == e.deep_view(),
            i <= conns@.len(),
            first_conn_from(cv, ev, 0) == first_conn_from(cv, ev, i as int),
        decreases conns@.len() - i,
    {
        let c = &conns[i];
        proof {
            assert(cv[i as int] == c.deep_view());
        }
        if crate::model::app_eq(&c.app, &e.app) && c.extension == e.name {
            proof {
                assert(conn_matches_node(cv[i as int], ev));
            }
            return Some(i);
        }
        proof {
            assert(!conn_matches_node(cv[i as int], ev));
        }
        i = i + 1;
    }
    None
}

/// Projects one declared category into the form a record reports: clones
/// the flow list when it holds at least one flow, yields absence otherwise.
fn project_flows(f: &Option<Vec<MessageFlow>>) -> (r: Option<Vec<MessageFlow>>)
    ensures
        r.deep_view() == present_flows(f.deep_view()),
{
    match f {
        Option::None => Option::None,
        Option::Some(v) => {
            if v.len() == 0 {
                Option::None
            } else {
                Option::Some(clone_flows(v))
            }
        },
    }
}

impl Graph {
    /// Resolves this graph's wiring: one record per extension node that
    /// declares at least one outgoing flow in any category, in node
    /// declaration order, with each category either the declared flow list
    /// carried over verbatim or absent. A pure projection: the graph is
    /// only read, and equal graphs always yield equal output.
    pub fn resolve_connections(&self) -> (r: Vec<ExtensionConnections>)
        ensures
            r.deep_view() == resolve_graph_spec(self.deep_view()),
    {
        let ghost gv = self.deep_view();
        let mut out: Vec<ExtensionConnections> = Vec::new();
        let mut i: usize = 0;
        while i < self.nodes.len()
            invariant
                gv == self.deep_view(),
                i <= self.nodes@.len(),
                out.deep_view() == records_of_prefix(gv, i as int),
            decreases self.nodes@.len() - i,
        {
            let ghost prev = out.deep_view();
            match &self.nodes[i] {
                GraphNode::Extension(e) => {
                    proof {
                        assert(gv.nodes[i as int] == NodeV::Extension(e.deep_view()));
                    }
                    match find_connection(&self.connections, e) {
                        Some(ci) => {
                            let c = &self.connections[ci];
                            proof {
                                assert(gv.connections[ci as int] == c.deep_view());
                            }
                            let cmd = project_flows(&c.cmd);
                            let data = project_flows(&c.data);
                            let audio_frame = project_flows(&c.audio_frame);
                            let video_frame = project_flows(&c.video_frame);
                            if cmd.is_some() || data.is_some() || audio_frame.is_some()
                                || video_frame.is_some() {
                                let rec = ExtensionConnections {
                                    app: clone_opt_string(&e.app),
                                    extension: e.name.clone(),
                                    subgraph: clone_opt_string(&e.subgraph_origin),
                                    cmd,
                                    data,
                                    audio_frame,
                                    video_frame,
                                };
                                proof {
                                    assert(conn_has_flows(c.deep_view()));
                                    assert(rec.deep_view() =~= record_of(
                                        e.deep_view(),
                                        c.deep_view(),
                                    ));
                                    assert(node_record(gv, gv.nodes[i as int]) == Option::Some(
                                        rec.deep_view(),
                                    ));
                                }
                                out.push(rec);
                                proof {
                                    assert(out.deep_view() =~= prev + seq![
                                        out@[out@.len() - 1].deep_view(),
                                    ]);
                                }
                            } else {
                                proof {
                                    assert(!conn_has_flows(c.deep_view()));
                                    assert(node_record(gv, gv.nodes[i as int]) is None);
                                }
                            }
                        },
                        None => {
                            proof {
                                assert(node_record(gv, gv.nodes[i as int]) is None);
                            }
                        },
                    }
                },
                GraphNode::Subgraph(_) => {
                    proof {
                        assert(node_record(gv, gv.nodes[i as int]) is None);
                    }
                },
            }
            proof {
                assert(out.deep_view() =~= records_of_prefix(gv, i as int + 1));
            }
            i = i + 1;
        }
        proof {
            assert(records_of_prefix(gv, gv.nodes.len() as int) == resolve_graph_spec(gv));
        }
        out
    }
}

/// The index of the first store entry at or after `from` whose identifier
/// equals `id`, if any.
pub open spec fn first_entry_from(entries: Seq<GraphEntryV>, id: Seq<char>, from: int) -> Option<
    int,
>
    decreases entries.len() - from,
{
    if !(0 <= from < entries.len()) {
        Option::None
    } else if entries[from].id == id {
        Option::Some(from)
    } else {
        first_entry_from(entries, id, from + 1)
    }
}

/// The index of the first store entry whose identifier equals `id`, if
/// any.
pub open spec fn find_graph(entries: Seq<GraphEntryV>, id: Seq<char>) -> Option<int> {
    first_entry_from(entries, id, 0)
}

impl GraphStore {
    /// Resolves the wiring of the graph stored under `graph_id`: looks the
    /// graph up and, when found, projects its connections as
    /// [`Graph::resolve_connections`] does. An unknown identifier yields
    /// the typed `NotFound` outcome naming it; nothing else can fail.
    pub fn resolve_connections(&self, graph_id: &String) -> (r: Result<
        Vec<ExtensionConnections>,
        QueryError,
    >)
        ensures
            match find_graph(self.deep_view().entries, graph_id@) {
                Option::Some(i) => r matches Ok(v) && v.deep_view() == resolve_graph_spec(
                    self.deep_view().entries[i].graph,
                ),
                Option::None => r matches Err(e) && e matches QueryError::NotFound { graph_id: g }
                    && g@ == graph_id@,
            },
    {
        let ghost ev = self.deep_view().entries;
        let mut i: usize = 0;
        while i < self.entries.len()
            invariant
                ev == self.deep_view().entries,
                i <= self.entries@.len(),
                first_entry_from(ev, graph_id@, 0) == first_entry_from(ev, graph_id@, i as int),
            decreases self.entries@.len() - i,
        {
            let entry = &self.entries[i];
            proof {
                assert(ev[i as int] == entry.deep_view());
            }
            if entry.id == *graph_id {
                return Ok(entry.graph.resolve_connections());
            }
            i = i + 1;
        }
        Err(QueryError::NotFound { graph_id: graph_id.clone() })
    }
}

/// Resolution is idempotent: the resolver output is a function of the
/// graph alone, so two resolutions of one unchanged graph are identical.
pub proof fn lemma_resolve_idempotent(g: GraphV, r1: Seq<RecordV>, r2: Seq<RecordV>)
    requires
        r1 == resolve_graph_spec(g),
        r2 == resolve_graph_spec(g),
    ensures
        r1 == r2,
{
}

/// Whether two flows agree except for the order of their destinations:
/// same name, and destination lists that are permutations of one another.
pub open spec fn flow_permuted(a: FlowV, b: FlowV) -> bool {
    a.name == b.name && a.dest.len() == b.dest.len() && a.dest.to_multiset()
        == b.dest.to_multiset()
}

/// Whether two declared category values agree except for destination
/// order: both absent, or flow lists of equal length whose flows pairwise
/// satisfy [`flow_permuted`].
pub open spec fn flows_permuted(f1: Option<Seq<FlowV>>, f2: Option<Seq<FlowV>>) -> bool {
    match (f1, f2) {
        (Option::None, Option::None) => true,
        (Option::Some(v1), Option::Some(v2)) => v1.len() == v2.len() && forall|k: int|
            0 <= k < v1.len() ==> #[trigger] flow_permuted(v1[k], v2[k]),
        _ => false,
    }
}

/// Whether two connection groups agree except for destination order inside
/// their flows.
pub open spec fn conn_permuted(c1: ConnectionV, c2: ConnectionV) -> bool {
    &&& c1.app == c2.app
    &&& c1.extension == c2.extension
    &&& flows_permuted(c1.cmd, c2.cmd)
    &&& flows_permuted(c1.data, c2.data)
    &&& flows_permuted(c1.audio_frame, c2.audio_frame)
    &&& flows_permuted(c1.video_frame, c2.video_frame)
}

/// Whether two graphs agree except for destination order inside their
/// flows: identical nodes, and connection groups that pairwise satisfy
/// [`conn_permuted`].
pub open spec fn graph_permuted(g1: GraphV, g2: GraphV) -> bool {
    &&& g1.nodes == g2.nodes
    &&& g1.connections.len() == g2.connections.len()
    &&& forall|i: int|
        0 <= i < g1.connections.len() ==> #[trigger] conn_permuted(
            g1.connections[i],
            g2.connections[i],
        )
}

/// Whether two resolver records agree except for destination order inside
/// their reported flows.
pub open spec fn record_permuted(a: RecordV, b: RecordV) -> bool {
    &&& a.app == b.app
    &&& a.extension == b.extension
    &&& a.subgraph == b.subgraph
    &&& flows_permuted(a.cmd, b.cmd)
    &&& flows_permuted(a.data, b.data)
    &&& flows_permuted(a.audio_frame, b.audio_frame)
    &&& flows_permuted(a.video_frame, b.video_frame)
}

proof fn lemma_find_conn_congruent(
    c1: Seq<ConnectionV>,
    c2: Seq<ConnectionV>,
    e: ExtensionNodeV,
    from: int,
)
    requires
        c1.len() == c2.len(),
        forall|i: int| 0 <= i < c1.len() ==> #[trigger] conn_permuted(c1[i], c2[i]),
    ensures
        first_conn_from(c1, e, from) == first_conn_from(c2, e, from),
    decreases c1.len() - from,
{
    if 0 <= from < c1.len() {
        assert(conn_permuted(c1[from], c2[from]));
        if !conn_matches_node(c1[from], e) {
            lemma_find_conn_congruent(c1, c2, e, from + 1);
        }
    }
}

proof fn lemma_first_conn_in_range(conns: Seq<ConnectionV>, e: ExtensionNodeV, from: int)
    ensures
        first_conn_from(conns, e, from) matches Option::Some(i) ==> from <= i < conns.len()
            && conn_matches_node(conns[i], e),
    decreases conns.len() - from,
{
    if 0 <= from < conns.len() && !conn_matches_node(conns[from], e) {
        lemma_first_conn_in_range(conns, e, from + 1);
    }
}

proof fn lemma_prefix_permuted(g1: GraphV, g2: GraphV, n: int)
    requires
        graph_permuted(g1, g2),
        n <= g1.nodes.len(),
    ensures
        records_of_prefix(g1, n).len() == records_of_prefix(g2, n).len(),
        forall|k: int|
            0 <= k < records_of_prefix(g1, n).len() ==> #[trigger] record_permuted(
                records_of_prefix(g1, n)[k],
                records_of_prefix(g2, n)[k],
            ),
    decreases n,
{
    if n > 0 {
        lemma_prefix_permuted(g1, g2, n - 1);
        let node = g1.nodes[n - 1];
        assert(g2.nodes[n - 1] == node);
        match node {
            NodeV::Extension(e) => {
                lemma_find_conn_congruent(g1.connections, g2.connections, e, 0);
                lemma_first_conn_in_range(g1.connections, e, 0);
                match find_conn(g1.connections, e) {
                    Option::Some(ci) => {
                        assert(conn_permuted(g1.connections[ci], g2.connections[ci]));
                        let c1 = g1.connections[ci];
                        let c2 = g2.connections[ci];
                        assert(conn_has_flows(c1) == conn_has_flows(c2));
                        if conn_has_flows(c1) {
                            assert(record_permuted(record_of(e, c1), record_of(e, c2)));
                        }
                    },
                    Option::None => {},
                }
            },
            NodeV::Subgraph(_) => {},
        }
        assert(node_record(g1, g1.nodes[n - 1]) is Some <==> node_record(g2, g2.nodes[n - 1])
            is Some);
    }
}

/// Destination order is preserved: take two graphs with identical nodes
/// whose connections differ only in the order of destinations inside their
/// flows. Their resolver outputs then pair up record for record, equal in
/// every part except those destination lists — so permuting the declared
/// destination order permutes the reported order the same way and changes
/// nothing else. Which order each output reports is pinned separately by
/// [`Graph::resolve_connections`]: each record carries its graph's
/// declared destination lists verbatim.
pub proof fn lemma_order_preservation(g1: GraphV, g2: GraphV)
    requires
        graph_permuted(g1, g2),
    ensures
        resolve_graph_spec(g1).len() == resolve_graph_spec(g2).len(),
        forall|k: int|
            0 <= k < resolve_graph_spec(g1).len() ==> #[trigger] record_permuted(
                resolve_graph_spec(g1)[k],
                resolve_graph_spec(g2)[k],
            ),
{
    lemma_prefix_permuted(g1, g2, g1.nodes.len() as int);
}

} // verus!

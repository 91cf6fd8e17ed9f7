//! Subgraph expansion: flattens a graph that may contain subgraph nodes
//! into one that contains only extension nodes, in a single consistent
//! namespace, resolving each subgraph's `graph_ref` against a graph store.
//!
//! The namespace-qualification convention is dotted-path prefixing: every
//! extension node of an expanded subgraph is renamed to
//! `subgraphNodeName.innerExtensionName`, and every connection source or
//! destination of the inner graph that addresses one of the inner graph's
//! own nodes is rewritten the same way. An inner destination that
//! addresses no inner node is left unchanged: it is read as naming an
//! external (exposed/pass-through) port in the enclosing namespace. Outer
//! nodes and connections are carried over unchanged, and the inner
//! connections are appended after the outer ones in node declaration
//! order.
//!
//! Expansion is iterative over a bounded reference stack: a `graph_ref`
//! already being expanded is a cyclic reference, and nesting deeper than
//! [`MAX_EXPANSION_DEPTH`] is a hard failure rather than a crash. The
//! whole pass is a pure function of the store and the graph: it never
//! mutates its input, and equal inputs give equal results.

use vstd::prelude::*;
use vstd::string::StringExecFns;
use crate::destinations::node_exists;
use crate::errors::{ExpandError, ExpandErrorV};
use crate::model::{
    clone_opt_string, nodes_contain_addr, ConnectionV, Destination, DestinationV, ExtensionNodeV,
    FlowV, Graph, GraphConnection, GraphEntry, GraphNode, GraphStore, GraphStoreV, GraphV,
    MessageFlow, NodeV,
};
use crate::resolve::{find_graph, first_entry_from};

verus! {

/// The deepest subgraph nesting expansion will follow before failing.
pub const MAX_EXPANSION_DEPTH: u64 = 64;

/// A name qualified into a subgraph's namespace: the subgraph node's name,
/// a dot, and the inner name.
pub open spec fn qualify_name(prefix: Seq<char>, name: Seq<char>) -> Seq<char> {
    prefix + "."@ + name
}

/// An inner node carried into the enclosing namespace: an extension is
/// renamed by [`qualify_name`] and records the subgraph node it came
/// from; expansion only ever applies this to extension nodes.
pub open spec fn qualify_node(n: NodeV, prefix: Seq<char>) -> NodeV {
    match n {
        NodeV::Extension(e) => NodeV::Extension(
            ExtensionNodeV {
                app: e.app,
                addon: e.addon,
                name: qualify_name(prefix, e.name),
                subgraph_origin: Option::Some(prefix),
                property: e.property,
            },
        ),
        NodeV::Subgraph(_) => n,
    }
}

/// Inner nodes carried into the enclosing namespace, in order.
pub open spec fn qualify_nodes(ns: Seq<NodeV>, prefix: Seq<char>) -> Seq<NodeV> {
    Seq::new(ns.len(), |i: int| qualify_node(ns[i], prefix))
}

/// An inner destination carried into the enclosing namespace: renamed when
/// it addresses an inner node, untouched otherwise (an external port).
pub open spec fn qualify_dest(d: DestinationV, inner: Seq<NodeV>, prefix: Seq<char>) -> DestinationV {
    if nodes_contain_addr(inner, d.app, d.extension) {
        DestinationV {
            app: d.app,
            extension: qualify_name(prefix, d.extension),
            msg_conversion: d.msg_conversion,
        }
    } else {
        d
    }
}

/// An inner flow carried into the enclosing namespace: the name and the
/// destination order are kept, each destination qualified by
/// [`qualify_dest`].
pub open spec fn qualify_flow(f: FlowV, inner: Seq<NodeV>, prefix: Seq<char>) -> FlowV {
    FlowV { name: f.name, dest: Seq::new(f.dest.len(), |i: int| qualify_dest(f.dest[i], inner, prefix)) }
}

/// One declared category of an inner connection group carried into the
/// enclosing namespace; absence stays absence.
pub open spec fn qualify_opt_flows(
    o: Option<Seq<FlowV>>,
    inner: Seq<NodeV>,
    prefix: Seq<char>,
) -> Option<Seq<FlowV>> {
    match o {
        Option::None => Option::None,
        Option::Some(v) => Option::Some(
            Seq::new(v.len(), |i: int| qualify_flow(v[i], inner, prefix)),
        ),
    }
}

/// An inner connection group carried into the enclosing namespace: the
/// source is renamed when it addresses an inner node, and every category
/// is qualified by [`qualify_opt_flows`].
pub open spec fn qualify_conn(c: ConnectionV, inner: Seq<NodeV>, prefix: Seq<char>) -> ConnectionV {
    ConnectionV {
        app: c.app,
        extension: if nodes_contain_addr(inner, c.app, c.extension) {
            qualify_name(prefix, c.extension)
        } else {
            c.extension
        },
        cmd: qualify_opt_flows(c.cmd, inner, prefix),
        data: qualify_opt_flows(c.data, inner, prefix),
        audio_frame: qualify_opt_flows(c.audio_frame, inner, prefix),
        video_frame: qualify_opt_flows(c.video_frame, inner, prefix),
    }
}

/// Inner connection groups carried into the enclosing namespace, in
/// order.
pub open spec fn qualify_conns(
    cs: Seq<ConnectionV>,
    inner: Seq<NodeV>,
    prefix: Seq<char>,
) -> Seq<ConnectionV> {
    Seq::new(cs.len(), |i: int| qualify_conn(cs[i], inner, prefix))
}

/// What expanding one node yields: the nodes that stand in its place and
/// the connection groups it contributes, or the first expansion failure.
/// An extension node stands unchanged and contributes nothing; a subgraph
/// node whose reference is already being expanded is a cyclic reference,
/// one whose reference is not in the store is unresolvable, and one
/// nested beyond the depth budget exceeds the ceiling; otherwise the
/// referenced graph is expanded recursively and carried into this node's
/// namespace.
pub open spec fn spec_expand_node(
    store: GraphStoreV,
    n: NodeV,
    stack: Seq<Seq<char>>,
    depth: nat,
) -> Result<(Seq<NodeV>, Seq<ConnectionV>), ExpandErrorV>
    decreases depth, 0int, 0int, 0int,
{
    match n {
        NodeV::Extension(_) => Result::Ok((seq![n], Seq::empty())),
        NodeV::Subgraph(s) => {
            if stack.contains(s.graph_ref) {
                Result::Err(ExpandErrorV::CyclicSubgraphReference { chain: stack.push(s.graph_ref) })
            } else {
                match find_graph(store.entries, s.graph_ref) {
                    Option::None => Result::Err(
                        ExpandErrorV::UnresolvableSubgraph {
                            node_name: s.name,
                            graph_ref: s.graph_ref,
                        },
                    ),
                    Option::Some(gi) => {
                        if depth == 0 {
                            Result::Err(
                                ExpandErrorV::DepthExceeded {
                                    node_name: s.name,
                                    graph_ref: s.graph_ref,
                                },
                            )
                        } else {
                            match spec_expand_graph(
                                store,
                                store.entries[gi].graph,
                                stack.push(s.graph_ref),
                                (depth - 1) as nat,
                            ) {
                                Result::Err(e) => Result::Err(e),
                                Result::Ok(fg) => Result::Ok(
                                    (
                                        qualify_nodes(fg.nodes, s.name),
                                        qualify_conns(fg.connections, fg.nodes, s.name),
                                    ),
                                ),
                            }
                        }
                    },
                }
            }
        },
    }
}

/// What expanding the first `n` nodes of a graph yields: the flattened
/// nodes in order and the contributed connection groups in node order, or
/// the first failure in node order.
pub open spec fn spec_expand_prefix(
    store: GraphStoreV,
    g: GraphV,
    stack: Seq<Seq<char>>,
    depth: nat,
    n: int,
) -> Result<(Seq<NodeV>, Seq<ConnectionV>), ExpandErrorV>
    decreases depth, 0int, n, 1int,
{
    if n <= 0 {
        Result::Ok((Seq::empty(), Seq::empty()))
    } else {
        match spec_expand_prefix(store, g, stack, depth, n - 1) {
            Result::Err(e) => Result::Err(e),
            Result::Ok(done) => match spec_expand_node(store, g.nodes[n - 1], stack, depth) {
                Result::Err(e) => Result::Err(e),
                Result::Ok(one) => Result::Ok((done.0 + one.0, done.1 + one.1)),
            },
        }
    }
}

/// What expanding a whole graph yields: its name kept, its nodes replaced
/// by their expansions in order, and its own connection groups followed by
/// the contributed ones — or the first failure in node order.
pub open spec fn spec_expand_graph(
    store: GraphStoreV,
    g: GraphV,
    stack: Seq<Seq<char>>,
    depth: nat,
) -> Result<GraphV, ExpandErrorV>
    decreases depth, 1int, 0int, 0int,
{
    match spec_expand_prefix(store, g, stack, depth, g.nodes.len() as int) {
        Result::Err(e) => Result::Err(e),
        Result::Ok(done) => Result::Ok(
            GraphV { name: g.name, nodes: done.0, connections: g.connections + done.1 },
        ),
    }
}

proof fn lemma_prefix_err_monotone(
    store: GraphStoreV,
    g: GraphV,
    stack: Seq<Seq<char>>,
    depth: nat,
    m: int,
    n: int,
)
    requires
        0 <= m <= n,
        spec_expand_prefix(store, g, stack, depth, m) is Err,
    ensures
        spec_expand_prefix(store, g, stack, depth, n) == spec_expand_prefix(
            store,
            g,
            stack,
            depth,
            m,
        ),
    decreases n - m,
{
    if n > m {
        lemma_prefix_err_monotone(store, g, stack, depth, m, n - 1);
    }
}

/// Whether an identifier is on the expansion stack.
fn stack_contains(stack: &Vec<String>, id: &String) -> (r: bool)
    ensures
        r == stack.deep_view().contains(id@),
{
    let ghost sv = stack.deep_view();
    let mut i: usize = 0;
    while i < stack.len()
        invariant
            sv == stack.deep_view(),
            i <= stack@.len(),
            forall|k: int| 0 <= k < i ==> sv[k] != id@,
        decreases stack@.len() - i,
    {
        proof {
            assert(sv[i as int] == stack@[i as int]@);
        }
        if stack[i] == *id {
            proof {
                assert(sv.contains(id@));
            }
            return true;
        }
        i = i + 1;
    }
    proof {
        assert(!sv.contains(id@));
    }
    false
}

/// A copy of the expansion stack with one more identifier on top.
fn clone_push(stack: &Vec<String>, id: &String) -> (r: Vec<String>)
    ensures
        r.deep_view() == stack.deep_view().push(id@),
{
    let mut out: Vec<String> = Vec::new();
    let mut i: usize = 0;
    while i < stack.len()
        invariant
            i <= stack@.len(),
            out@.len() == i,
            forall|k: int| 0 <= k < i ==> #[trigger] out@[k]@ == stack@[k]@,
        decreases stack@.len() - i,
    {
        out.push(stack[i].clone());
        i = i + 1;
    }
    out.push(id.clone());
    proof {
        assert(out.deep_view() =~= stack.deep_view().push(id@));
    }
    out
}

/// Finds the first store entry for a graph identifier, scanning in store
/// order.
fn find_graph_index(entries: &Vec<GraphEntry>, id: &String) -> (r: Option<usize>)
    ensures
        r matches Some(i) ==> i < entries@.len() && find_graph(entries.deep_view(), id@)
            == Option::Some(i as int),
        r is None ==> find_graph(entries.deep_view(), id@) is None,
{
    let ghost ev = entries.deep_view();
    let mut i: usize = 0;
    while i < entries.len()
        invariant
            ev == entries.deep_view(),
            i <= entries@.len(),
            first_entry_from(ev, id@, 0) == first_entry_from(ev, id@, i as int),
        decreases entries@.len() - i,
    {
        proof {
            assert(ev[i as int] == entries@[i as int].deep_view());
        }
        if entries[i].id == *id {
            return Some(i);
        }
        i = i + 1;
    }
    None
}

/// A name qualified into a subgraph's namespace.
fn qualify_name_exec(prefix: &String, name: &String) -> (r: String)
    ensures
        r@ == qualify_name(prefix@, name@),
{
    prefix.clone().concat(".").concat(name.as_str())
}

/// An inner destination carried into the enclosing namespace.
fn qualify_dest_exec(d: &Destination, inner: &Vec<GraphNode>, prefix: &String) -> (r: Destination)
    ensures
        r.deep_view() == qualify_dest(d.deep_view(), inner.deep_view(), prefix@),
{
    if node_exists(inner, &d.app, &d.extension) {
        let mut r = d.deep_clone();
        r.extension = qualify_name_exec(prefix, &d.extension);
        r
    } else {
        d.deep_clone()
    }
}

/// An inner flow carried into the enclosing namespace.
fn qualify_flow_exec(f: &MessageFlow, inner: &Vec<GraphNode>, prefix: &String) -> (r: MessageFlow)
    ensures
        r.deep_view() == qualify_flow(f.deep_view(), inner.deep_view(), prefix@),
{
    let mut dest: Vec<Destination> = Vec::new();
    let mut i: usize = 0;
    while i < f.dest.len()
        invariant
            i <= f.dest@.len(),
            dest@.len() == i,
            forall|k: int|
                0 <= k < i ==> #[trigger] dest@[k].deep_view() == qualify_dest(
                    f.dest@[k].deep_view(),
                    inner.deep_view(),
                    prefix@,
                ),
        decreases f.dest@.len() - i,
    {
        dest.push(qualify_dest_exec(&f.dest[i], inner, prefix));
        i = i + 1;
    }
    let r = MessageFlow { name: f.name.clone(), dest };
    proof {
        assert(r.deep_view().dest =~= qualify_flow(
            f.deep_view(),
            inner.deep_view(),
            prefix@,
        ).dest);
        assert(r.deep_view() =~= qualify_flow(f.deep_view(), inner.deep_view(), prefix@));
    }
    r
}

/// One declared category of an inner connection group carried into the
/// enclosing namespace.
fn qualify_opt_flows_exec(
    o: &Option<Vec<MessageFlow>>,
    inner: &Vec<GraphNode>,
    prefix: &String,
) -> (r: Option<Vec<MessageFlow>>)
    ensures
        r.deep_view() == qualify_opt_flows(o.deep_view(), inner.deep_view(), prefix@),
{
    match o {
        Option::None => Option::None,
        Option::Some(v) => {
            let mut out: Vec<MessageFlow> = Vec::new();
            let mut i: usize = 0;
            while i < v.len()
                invariant
                    i <= v@.len(),
                    out@.len() == i,
                    forall|k: int|
                        0 <= k < i ==> #[trigger] out@[k].deep_view() == qualify_flow(
                            v@[k].deep_view(),
                            inner.deep_view(),
                            prefix@,
                        ),
                decreases v@.len() - i,
            {
                out.push(qualify_flow_exec(&v[i], inner, prefix));
                i = i + 1;
            }
            proof {
                assert(Option::Some(out).deep_view() =~= qualify_opt_flows(
                    o.deep_view(),
                    inner.deep_view(),
                    prefix@,
                ));
            }
            Option::Some(out)
        },
    }
}

/// An inner connection group carried into the enclosing namespace.
fn qualify_conn_exec(
    c: &GraphConnection,
    inner: &Vec<GraphNode>,
    prefix: &String,
) -> (r: GraphConnection)
    ensures
        r.deep_view() == qualify_conn(c.deep_view(), inner.deep_view(), prefix@),
{
    let extension = if node_exists(inner, &c.app, &c.extension) {
        qualify_name_exec(prefix, &c.extension)
    } else {
        c.extension.clone()
    };
    GraphConnection {
        app: clone_opt_string(&c.app),
        extension,
        cmd: qualify_opt_flows_exec(&c.cmd, inner, prefix),
        data: qualify_opt_flows_exec(&c.data, inner, prefix),
        audio_frame: qualify_opt_flows_exec(&c.audio_frame, inner, prefix),
        video_frame: qualify_opt_flows_exec(&c.video_frame, inner, prefix),
    }
}

/// Expands one graph against the store, with the in-progress reference
/// stack and the remaining depth budget.
fn expand_rec(store: &GraphStore, g: &Graph, stack: &Vec<String>, depth: u64) -> (r: Result<
    Graph,
    ExpandError,
>)
    ensures
        r matches Ok(out) ==> spec_expand_graph(
            store.deep_view(),
            g.deep_view(),
            stack.deep_view(),
            depth as nat,
        ) matches Result::Ok(sv) && out.deep_view() == sv,
        r matches Err(e) ==> spec_expand_graph(
            store.deep_view(),
            g.deep_view(),
            stack.deep_view(),
            depth as nat,
        ) matches Result::Err(ev) && e.deep_view() == ev,
    decreases depth,
{
    let ghost stv = store.deep_view();
    let ghost gv = g.deep_view();
    let ghost skv = stack.deep_view();
    let mut out_nodes: Vec<GraphNode> = Vec::new();
    let mut out_conns: Vec<GraphConnection> = Vec::new();
    let mut i: usize = 0;
    while i < g.connections.len()
        invariant
            gv == g.deep_view(),
            i <= g.connections@.len(),
            out_conns@.len() == i,
            forall|k: int|
                0 <= k < i ==> #[trigger] out_conns@[k].deep_view() == gv.connections[k],
        decreases g.connections@.len() - i,
    {
        proof {
            assert(gv.connections[i as int] == g.connections@[i as int].deep_view());
        }
        out_conns.push(g.connections[i].deep_clone());
        i = i + 1;
    }
    proof {
        assert(out_conns.deep_view() =~= gv.connections);
        assert(spec_expand_prefix(stv, gv, skv, depth as nat, 0) == Result::Ok::<
            (Seq<NodeV>, Seq<ConnectionV>),
            ExpandErrorV,
        >((Seq::empty(), Seq::empty())));
        assert(out_nodes.deep_view() =~= Seq::<NodeV>::empty());
    }
    let mut ni: usize = 0;
    while ni < g.nodes.len()
        invariant
            stv == store.deep_view(),
            gv == g.deep_view(),
            skv == stack.deep_view(),
            ni <= g.nodes@.len(),
            spec_expand_prefix(stv, gv, skv, depth as nat, ni as int) matches Result::Ok(done)
                && out_nodes.deep_view() == done.0 && out_conns.deep_view() == gv.connections
                + done.1,
        decreases g.nodes@.len() - ni,
    {
        let ghost done_nodes = out_nodes.deep_view();
        let ghost done_conns = out_conns.deep_view();
        match &g.nodes[ni] {
            GraphNode::Extension(e) => {
                proof {
                    assert(gv.nodes[ni as int] == NodeV::Extension(e.deep_view()));
                    assert(spec_expand_node(stv, gv.nodes[ni as int], skv, depth as nat)
                        == Result::Ok::<(Seq<NodeV>, Seq<ConnectionV>), ExpandErrorV>((
                        seq![gv.nodes[ni as int]],
                        Seq::empty(),
                    )));
                }
                out_nodes.push(GraphNode::Extension(e.deep_clone()));
                proof {
                    assert(out_nodes.deep_view() =~= done_nodes + seq![gv.nodes[ni as int]]);
                    assert(done_conns + Seq::<ConnectionV>::empty() =~= done_conns);
                }
            },
            GraphNode::Subgraph(s) => {
                proof {
                    assert(gv.nodes[ni as int] == NodeV::Subgraph(s.deep_view()));
                }
                if stack_contains(stack, &s.graph_ref) {
                    let chain = clone_push(stack, &s.graph_ref);
                    let e = ExpandError::CyclicSubgraphReference { chain };
                    proof {
                        assert(spec_expand_node(stv, gv.nodes[ni as int], skv, depth as nat)
                            matches Result::Err(ev) && e.deep_view() == ev);
                        lemma_prefix_err_monotone(
                            stv,
                            gv,
                            skv,
                            depth as nat,
                            ni as int + 1,
                            gv.nodes.len() as int,
                        );
                    }
                    return Err(e);
                }
                let gi = match find_graph_index(&store.entries, &s.graph_ref) {
                    Some(gi) => gi,
                    None => {
                        let e = ExpandError::UnresolvableSubgraph {
                            node_name: s.name.clone(),
                            graph_ref: s.graph_ref.clone(),
                        };
                        proof {
                            assert(spec_expand_node(stv, gv.nodes[ni as int], skv, depth as nat)
                                matches Result::Err(ev) && e.deep_view() == ev);
                            lemma_prefix_err_monotone(
                                stv,
                                gv,
                                skv,
                                depth as nat,
                                ni as int + 1,
                                gv.nodes.len() as int,
                            );
                        }
                        return Err(e);
                    },
                };
                proof {
                    assert(stv.entries[gi as int] == store.entries@[gi as int].deep_view());
                }
                if depth == 0 {
                    let e = ExpandError::DepthExceeded {
                        node_name: s.name.clone(),
                        graph_ref: s.graph_ref.clone(),
                    };
                    proof {
                        assert(spec_expand_node(stv, gv.nodes[ni as int], skv, depth as nat)
                            matches Result::Err(ev) && e.deep_view() == ev);
                        lemma_prefix_err_monotone(
                            stv,
                            gv,
                            skv,
                            depth as nat,
                            ni as int + 1,
                            gv.nodes.len() as int,
                        );
                    }
                    return Err(e);
                }
                let child_stack = clone_push(stack, &s.graph_ref);
                let inner = match expand_rec(store, &store.entries[gi].graph, &child_stack, depth
                    - 1) {
                    Ok(inner) => inner,
                    Err(e) => {
                        proof {
                            assert(spec_expand_node(stv, gv.nodes[ni as int], skv, depth as nat)
                                matches Result::Err(ev) && e.deep_view() == ev);
                            lemma_prefix_err_monotone(
                                stv,
                                gv,
                                skv,
                                depth as nat,
                                ni as int + 1,
                                gv.nodes.len() as int,
                            );
                        }
                        return Err(e);
                    },
                };
                let ghost fgv = inner.deep_view();
                let mut qi: usize = 0;
                while qi < inner.nodes.len()
                    invariant
                        fgv == inner.deep_view(),
                        qi <= inner.nodes@.len(),
                        out_conns.deep_view() == done_conns,
                        out_nodes@.len() == done_nodes.len() + qi,
                        forall|k: int|
                            0 <= k < done_nodes.len() ==> #[trigger] out_nodes@[k].deep_view()
                                == done_nodes[k],
                        forall|j: int|
                            done_nodes.len() <= j < done_nodes.len() + qi
                                ==> #[trigger] out_nodes@[j].deep_view() == qualify_node(
                                fgv.nodes[j - done_nodes.len()],
                                s.deep_view().name,
                            ),
                    decreases inner.nodes@.len() - qi,
                {
                    match &inner.nodes[qi] {
                        GraphNode::Extension(e) => {
                            proof {
                                assert(fgv.nodes[qi as int] == NodeV::Extension(e.deep_view()));
                            }
                            let qe = crate::model::ExtensionNode {
                                app: clone_opt_string(&e.app),
                                addon: e.addon.clone(),
                                name: qualify_name_exec(&s.name, &e.name),
                                subgraph_origin: Option::Some(s.name.clone()),
                                property: clone_opt_string(&e.property),
                            };
                            out_nodes.push(GraphNode::Extension(qe));
                        },
                        GraphNode::Subgraph(sub) => {
                            proof {
                                assert(fgv.nodes[qi as int] == NodeV::Subgraph(sub.deep_view()));
                            }
                            out_nodes.push(GraphNode::Subgraph(sub.deep_clone()));
                        },
                    }
                    qi = qi + 1;
                }
                proof {
                    assert(out_nodes.deep_view() =~= done_nodes + qualify_nodes(
                        fgv.nodes,
                        s.deep_view().name,
                    ));
                }
                let mut ci: usize = 0;
                while ci < inner.connections.len()
                    invariant
                        fgv == inner.deep_view(),
                        ci <= inner.connections@.len(),
                        out_nodes.deep_view() == done_nodes + qualify_nodes(
                            fgv.nodes,
                            s.deep_view().name,
                        ),
                        out_conns@.len() == done_conns.len() + ci,
                        forall|k: int|
                            0 <= k < done_conns.len() ==> #[trigger] out_conns@[k].deep_view()
                                == done_conns[k],
                        forall|j: int|
                            done_conns.len() <= j < done_conns.len() + ci
                                ==> #[trigger] out_conns@[j].deep_view() == qualify_conn(
                                fgv.connections[j - done_conns.len()],
                                fgv.nodes,
                                s.deep_view().name,
                            ),
                    decreases inner.connections@.len() - ci,
                {
                    proof {
                        assert(fgv.connections[ci as int] == inner.connections@[
                            ci as int
                        ].deep_view());
                    }
                    out_conns.push(qualify_conn_exec(&inner.connections[ci], &inner.nodes, &s.name));
                    ci = ci + 1;
                }
                proof {
                    assert(out_nodes.deep_view() =~= done_nodes + qualify_nodes(
                        fgv.nodes,
                        s.deep_view().name,
                    ));
                    assert(out_conns.deep_view() =~= done_conns + qualify_conns(
                        fgv.connections,
                        fgv.nodes,
                        s.deep_view().name,
                    ));
                    assert(spec_expand_node(stv, gv.nodes[ni as int], skv, depth as nat)
                        == Result::Ok::<(Seq<NodeV>, Seq<ConnectionV>), ExpandErrorV>((
                        qualify_nodes(fgv.nodes, s.deep_view().name),
                        qualify_conns(fgv.connections, fgv.nodes, s.deep_view().name),
                    )));
                }
            },
        }
        proof {
            assert(spec_expand_prefix(stv, gv, skv, depth as nat, ni as int + 1) matches Result::Ok(
                done,
            ) && out_nodes.deep_view() == done.0 && out_conns.deep_view() == gv.connections
                + done.1) by {
                assert(gv.connections + done_conns.subrange(
                    gv.connections.len() as int,
                    done_conns.len() as int,
                ) =~= done_conns);
            }
        }
        ni = ni + 1;
    }
    let name = clone_opt_string(&g.name);
    let out = Graph { name, nodes: out_nodes, connections: out_conns };
    proof {
        assert(spec_expand_graph(stv, gv, skv, depth as nat) matches Result::Ok(sv)
            && out.deep_view() =~= sv);
    }
    Ok(out)
}

impl Graph {
    /// Flattens this graph against the store: the result contains the
    /// expansion of every node in declaration order — extension nodes
    /// unchanged, each subgraph node replaced by its referenced graph's
    /// extension nodes qualified into the subgraph node's namespace — and
    /// this graph's connections followed by the qualified inner ones.
    /// Fails with the first expansion defect in node order: a cyclic
    /// reference (naming the reference chain), an unresolvable reference
    /// (naming the node), or nesting beyond [`MAX_EXPANSION_DEPTH`]. The
    /// input is never mutated.
    pub fn flatten(&self, store: &GraphStore) -> (r: Result<Graph, ExpandError>)
        ensures
            r matches Ok(out) ==> spec_expand_graph(
                store.deep_view(),
                self.deep_view(),
                Seq::empty(),
                MAX_EXPANSION_DEPTH as nat,
            ) matches Result::Ok(sv) && out.deep_view() == sv,
            r matches Ok(out) ==> all_extensions(out.deep_view().nodes),
            r matches Err(e) ==> spec_expand_graph(
                store.deep_view(),
                self.deep_view(),
                Seq::empty(),
                MAX_EXPANSION_DEPTH as nat,
            ) matches Result::Err(ev) && e.deep_view() == ev,
    {
        let stack: Vec<String> = Vec::new();
        proof {
            assert(stack.deep_view() =~= Seq::<Seq<char>>::empty());
            lemma_expand_graph_only_extensions(
                store.deep_view(),
                self.deep_view(),
                Seq::empty(),
                MAX_EXPANSION_DEPTH as nat,
            );
        }
        expand_rec(store, self, &stack, MAX_EXPANSION_DEPTH)
    }
}

/// Whether a node sequence consists of extension nodes alone.
pub open spec fn all_extensions(nodes: Seq<NodeV>) -> bool {
    forall|i: int| 0 <= i < nodes.len() ==> (#[trigger] nodes[i]) is Extension
}

proof fn lemma_expand_node_only_extensions(
    store: GraphStoreV,
    n: NodeV,
    stack: Seq<Seq<char>>,
    depth: nat,
)
    ensures
        spec_expand_node(store, n, stack, depth) matches Result::Ok(one) ==> all_extensions(one.0),
    decreases depth, 0int, 0int, 0int,
{
    match n {
        NodeV::Extension(_) => {},
        NodeV::Subgraph(s) => {
            if !stack.contains(s.graph_ref) {
                match find_graph(store.entries, s.graph_ref) {
                    Option::None => {},
                    Option::Some(gi) => {
                        if depth > 0 {
                            lemma_expand_graph_only_extensions(
                                store,
                                store.entries[gi].graph,
                                stack.push(s.graph_ref),
                                (depth - 1) as nat,
                            );
                        }
                    },
                }
            }
        },
    }
}

proof fn lemma_expand_prefix_only_extensions(
    store: GraphStoreV,
    g: GraphV,
    stack: Seq<Seq<char>>,
    depth: nat,
    n: int,
)
    ensures
        spec_expand_prefix(store, g, stack, depth, n) matches Result::Ok(done) ==> all_extensions(
            done.0,
        ),
    decreases depth, 0int, n, 1int,
{
    if n > 0 {
        lemma_expand_prefix_only_extensions(store, g, stack, depth, n - 1);
        lemma_expand_node_only_extensions(store, g.nodes[n - 1], stack, depth);
    }
}

/// A successfully flattened graph contains only extension nodes: every
/// subgraph placeholder has been replaced by the concrete extension nodes
/// of its referenced graph.
pub proof fn lemma_expand_graph_only_extensions(
    store: GraphStoreV,
    g: GraphV,
    stack: Seq<Seq<char>>,
    depth: nat,
)
    ensures
        spec_expand_graph(store, g, stack, depth) matches Result::Ok(fg) ==> all_extensions(
            fg.nodes,
        ),
    decreases depth, 1int, 0int, 0int,
{
    lemma_expand_prefix_only_extensions(store, g, stack, depth, g.nodes.len() as int);
}

/// Expansion is deterministic: what flattening yields is a function of
/// the store and the graph alone, so expanding the same graph against the
/// same store twice yields structurally identical results — the same
/// qualified names and the same connection set.
pub proof fn lemma_expand_deterministic(
    store: GraphStoreV,
    g: GraphV,
    r1: Result<GraphV, ExpandErrorV>,
    r2: Result<GraphV, ExpandErrorV>,
)
    requires
        r1 == spec_expand_graph(store, g, Seq::empty(), MAX_EXPANSION_DEPTH as nat),
        r2 == spec_expand_graph(store, g, Seq::empty(), MAX_EXPANSION_DEPTH as nat),
    ensures
        r1 == r2,
{
}

} // verus!

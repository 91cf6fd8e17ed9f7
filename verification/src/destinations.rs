//! Destination existence: every destination of every message flow must
//! resolve to an extension node of the flattened graph.

use vstd::prelude::*;
use crate::errors::ValidationError;
use crate::model::{
    nodes_contain_addr, ConnectionV, DestinationV, FlowV, Graph, GraphConnection, GraphNode,
    GraphV, MessageFlow, MsgCategory, NodeV,
};

verus! {

/// The flow list a connection group declares for one category, with an
/// absent category read as the empty list (nothing to check).
pub open spec fn conn_flows(c: ConnectionV, cat: MsgCategory) -> Seq<FlowV> {
    let f = match cat {
        MsgCategory::Cmd => c.cmd,
        MsgCategory::Data => c.data,
        MsgCategory::AudioFrame => c.audio_frame,
        MsgCategory::VideoFrame => c.video_frame,
    };
    match f {
        Option::Some(v) => v,
        Option::None => Seq::empty(),
    }
}

/// Whether a destination resolves against the flattened node set.
pub open spec fn dest_ok(nodes: Seq<NodeV>, d: DestinationV) -> bool {
    nodes_contain_addr(nodes, d.app, d.extension)
}

/// Whether every destination of one flow resolves.
pub open spec fn flow_dests_ok(nodes: Seq<NodeV>, f: FlowV) -> bool {
    forall|di: int| 0 <= di < f.dest.len() ==> dest_ok(nodes, #[trigger] f.dest[di])
}

/// Whether every destination of one category of one connection group
/// resolves.
pub open spec fn cat_dests_ok(nodes: Seq<NodeV>, c: ConnectionV, cat: MsgCategory) -> bool {
    forall|fi: int|
        0 <= fi < conn_flows(c, cat).len() ==> flow_dests_ok(
            nodes,
            #[trigger] conn_flows(c, cat)[fi],
        )
}

/// Whether every destination of one connection group resolves, over all
/// four categories.
pub open spec fn conn_dests_ok(nodes: Seq<NodeV>, c: ConnectionV) -> bool {
    &&& cat_dests_ok(nodes, c, MsgCategory::Cmd)
    &&& cat_dests_ok(nodes, c, MsgCategory::Data)
    &&& cat_dests_ok(nodes, c, MsgCategory::AudioFrame)
    &&& cat_dests_ok(nodes, c, MsgCategory::VideoFrame)
}

/// Whether every destination of every flow of the graph resolves.
pub open spec fn graph_dests_ok(g: GraphV) -> bool {
    forall|ci: int|
        0 <= ci < g.connections.len() ==> conn_dests_ok(g.nodes, #[trigger] g.connections[ci])
}

/// Whether `(ci, cat, fi, di)` pins down a real dangling destination of
/// the graph: the `di`-th destination of the `fi`-th flow of category
/// `cat` of the `ci`-th connection group does not resolve.
pub open spec fn dangling_witness(g: GraphV, ci: int, cat: MsgCategory, fi: int, di: int) -> bool {
    &&& 0 <= ci < g.connections.len()
    &&& 0 <= fi < conn_flows(g.connections[ci], cat).len()
    &&& 0 <= di < conn_flows(g.connections[ci], cat)[fi].dest.len()
    &&& !dest_ok(g.nodes, conn_flows(g.connections[ci], cat)[fi].dest[di])
}

/// The position of a category in scan order: command, data, audio frame,
/// video frame.
pub open spec fn cat_rank(cat: MsgCategory) -> int {
    match cat {
        MsgCategory::Cmd => 0,
        MsgCategory::Data => 1,
        MsgCategory::AudioFrame => 2,
        MsgCategory::VideoFrame => 3,
    }
}

/// Whether `(ci, cat, fi, di)` is the first dangling destination in scan
/// order: everything the scan visits before it — earlier connection
/// groups entirely, earlier categories of the same group, earlier flows
/// of the same category, earlier destinations of the same flow —
/// resolves.
pub open spec fn first_dangling(g: GraphV, ci: int, cat: MsgCategory, fi: int, di: int) -> bool {
    &&& dangling_witness(g, ci, cat, fi, di)
    &&& forall|k: int| 0 <= k < ci ==> conn_dests_ok(g.nodes, #[trigger] g.connections[k])
    &&& forall|c2: MsgCategory|
        cat_rank(c2) < cat_rank(cat) ==> #[trigger] cat_dests_ok(g.nodes, g.connections[ci], c2)
    &&& forall|k: int|
        0 <= k < fi ==> flow_dests_ok(g.nodes, #[trigger] conn_flows(g.connections[ci], cat)[k])
    &&& forall|k: int|
        0 <= k < di ==> dest_ok(g.nodes, #[trigger] conn_flows(g.connections[ci], cat)[fi].dest[k])
}

/// Whether the flattened node set holds an extension node with the given
/// address.
pub fn node_exists(nodes: &Vec<GraphNode>, app: &Option<String>, extension: &String) -> (r: bool)
    ensures
        r == nodes_contain_addr(nodes.deep_view(), app.deep_view(), extension@),
{
    let ghost nv = nodes.deep_view();
    let mut i: usize = 0;
    while i < nodes.len()
        invariant
            nv == nodes.deep_view(),
            i <= nodes@.len(),
            forall|k: int|
                0 <= k < i ==> !crate::model::node_has_addr(nv[k], app.deep_view(), extension@),
        decreases nodes@.len() - i,
    {
        match &nodes[i] {
            GraphNode::Extension(e) => {
                proof {
                    assert(nv[i as int] == NodeV::Extension(e.deep_view()));
                }
                if crate::model::app_eq(&e.app, app) && e.name == *extension {
                    proof {
                        assert(crate::model::node_has_addr(nv[i as int], app.deep_view(), extension@));
                    }
                    return true;
                }
            },
            GraphNode::Subgraph(_) => {},
        }
        i = i + 1;
    }
    false
}

/// Scans one category's flow list in declaration order for a destination
/// that does not resolve; reports the flow and destination indices of one
/// such destination, or success.
fn check_flow_list(nodes: &Vec<GraphNode>, flows: &Vec<MessageFlow>) -> (r: Result<
    (),
    (usize, usize),
>)
    ensures
        r is Ok <==> forall|fi: int|
            0 <= fi < flows.deep_view().len() ==> flow_dests_ok(
                nodes.deep_view(),
                #[trigger] flows.deep_view()[fi],
            ),
        r matches Err((fi, di)) ==> ({
            &&& fi < flows@.len()
            &&& di < flows.deep_view()[fi as int].dest.len()
            &&& !dest_ok(nodes.deep_view(), flows.deep_view()[fi as int].dest[di as int])
            &&& forall|k: int|
                0 <= k < fi ==> flow_dests_ok(nodes.deep_view(), #[trigger] flows.deep_view()[k])
            &&& forall|k: int|
                0 <= k < di ==> dest_ok(
                    nodes.deep_view(),
                    #[trigger] flows.deep_view()[fi as int].dest[k],
                )
        }),
{
    let ghost nv = nodes.deep_view();
    let ghost fv = flows.deep_view();
    let mut fi: usize = 0;
    while fi < flows.len()
        invariant
            nv == nodes.deep_view(),
            fv == flows.deep_view(),
            fi <= flows@.len(),
            forall|k: int| 0 <= k < fi ==> flow_dests_ok(nv, #[trigger] fv[k]),
        decreases flows@.len() - fi,
    {
        let flow = &flows[fi];
        proof {
            assert(fv[fi as int] == flow.deep_view());
        }
        let mut di: usize = 0;
        while di < flow.dest.len()
            invariant
                nv == nodes.deep_view(),
                fv == flows.deep_view(),
                fi < flows@.len(),
                fv[fi as int] == flow.deep_view(),
                forall|k: int| 0 <= k < fi ==> flow_dests_ok(nv, #[trigger] fv[k]),
                di <= flow.dest@.len(),
                forall|k: int| 0 <= k < di ==> dest_ok(nv, #[trigger] flow.deep_view().dest[k]),
            decreases flow.dest@.len() - di,
        {
            let d = &flow.dest[di];
            proof {
                assert(flow.deep_view().dest[di as int] == d.deep_view());
            }
            if !node_exists(nodes, &d.app, &d.extension) {
                return Err((fi, di));
            }
            di = di + 1;
        }
        proof {
            assert(flow_dests_ok(nv, fv[fi as int]));
        }
        fi = fi + 1;
    }
    Ok(())
}

impl Graph {
    /// Validates that every destination of every message flow resolves to
    /// an extension node of this (flattened) graph. Validation passes
    /// exactly when no destination dangles; otherwise it fails naming the
    /// source address, category, flow name and destination index of the
    /// first dangling destination in scan order: connection groups, then
    /// categories (command, data, audio frame, video frame), then flows,
    /// then destinations, each in declaration order.
    pub fn check_destination_existence(&self) -> (r: Result<(), ValidationError>)
        ensures
            r is Ok <==> graph_dests_ok(self.deep_view()),
            r matches Err(e) ==> ({
                &&& e matches ValidationError::DanglingDestination {
                    src_app,
                    src_extension,
                    category,
                    flow_name,
                    dest_index,
                }
                &&& exists|ci: int, fi: int|
                    {
                        &&& #[trigger] first_dangling(
                            self.deep_view(),
                            ci,
                            category,
                            fi,
                            dest_index as int,
                        )
                        &&& src_app.deep_view() == self.deep_view().connections[ci].app
                        &&& src_extension@ == self.deep_view().connections[ci].extension
                        &&& flow_name@ == conn_flows(
                            self.deep_view().connections[ci],
                            category,
                        )[fi].name
                    }
            }),
    {
        let ghost gv = self.deep_view();
        let mut ci: usize = 0;
        while ci < self.connections.len()
            invariant
                gv == self.deep_view(),
                ci <= self.connections@.len(),
                forall|k: int| 0 <= k < ci ==> conn_dests_ok(gv.nodes, #[trigger] gv.connections[k]),
            decreases self.connections@.len() - ci,
        {
            let c = &self.connections[ci];
            proof {
                assert(gv.connections[ci as int] == c.deep_view());
            }
            if let Option::Some(v) = &c.cmd {
                proof {
                    assert(conn_flows(c.deep_view(), MsgCategory::Cmd) == v.deep_view());
                }
                if let Err((fi, di)) = check_flow_list(&self.nodes, v) {
                    proof {
                        assert(dangling_witness(
                            gv,
                            ci as int,
                            MsgCategory::Cmd,
                            fi as int,
                            di as int,
                        ));
                        assert(forall|c2: MsgCategory|
                            cat_rank(c2) < cat_rank(MsgCategory::Cmd)
                                ==> #[trigger] cat_dests_ok(gv.nodes, gv.connections[ci as int], c2));
                        assert(first_dangling(
                            gv,
                            ci as int,
                            MsgCategory::Cmd,
                            fi as int,
                            di as int,
                        ));
                    }
                    return Err(self.dangling_error(c, v, MsgCategory::Cmd, fi, di));
                }
            }
            proof {
                assert(cat_dests_ok(gv.nodes, gv.connections[ci as int], MsgCategory::Cmd));
            }
            if let Option::Some(v) = &c.data {
                proof {
                    assert(conn_flows(c.deep_view(), MsgCategory::Data) == v.deep_view());
                }
                if let Err((fi, di)) = check_flow_list(&self.nodes, v) {
                    proof {
                        assert(dangling_witness(
                            gv,
                            ci as int,
                            MsgCategory::Data,
                            fi as int,
                            di as int,
                        ));
                        assert(forall|c2: MsgCategory|
                            cat_rank(c2) < cat_rank(MsgCategory::Data)
                                ==> #[trigger] cat_dests_ok(gv.nodes, gv.connections[ci as int], c2));
                        assert(first_dangling(
                            gv,
                            ci as int,
                            MsgCategory::Data,
                            fi as int,
                            di as int,
                        ));
                    }
                    return Err(self.dangling_error(c, v, MsgCategory::Data, fi, di));
                }
            }
            proof {
                assert(cat_dests_ok(gv.nodes, gv.connections[ci as int], MsgCategory::Data));
            }
            if let Option::Some(v) = &c.audio_frame {
                proof {
                    assert(conn_flows(c.deep_view(), MsgCategory::AudioFrame) == v.deep_view());
                }
                if let Err((fi, di)) = check_flow_list(&self.nodes, v) {
                    proof {
                        assert(dangling_witness(
                            gv,
                            ci as int,
                            MsgCategory::AudioFrame,
                            fi as int,
                            di as int,
                        ));
                        assert(forall|c2: MsgCategory|
                            cat_rank(c2) < cat_rank(MsgCategory::AudioFrame)
                                ==> #[trigger] cat_dests_ok(gv.nodes, gv.connections[ci as int], c2));
                        assert(first_dangling(
                            gv,
                            ci as int,
                            MsgCategory::AudioFrame,
                            fi as int,
                            di as int,
                        ));
                    }
                    return Err(self.dangling_error(c, v, MsgCategory::AudioFrame, fi, di));
                }
            }
            proof {
                assert(cat_dests_ok(gv.nodes, gv.connections[ci as int], MsgCategory::AudioFrame));
            }
            if let Option::Some(v) = &c.video_frame {
                proof {
                    assert(conn_flows(c.deep_view(), MsgCategory::VideoFrame) == v.deep_view());
                }
                if let Err((fi, di)) = check_flow_list(&self.nodes, v) {
                    proof {
                        assert(dangling_witness(
                            gv,
                            ci as int,
                            MsgCategory::VideoFrame,
                            fi as int,
                            di as int,
                        ));
                        assert(forall|c2: MsgCategory|
                            cat_rank(c2) < cat_rank(MsgCategory::VideoFrame)
                                ==> #[trigger] cat_dests_ok(gv.nodes, gv.connections[ci as int], c2));
                        assert(first_dangling(
                            gv,
                            ci as int,
                            MsgCategory::VideoFrame,
                            fi as int,
                            di as int,
                        ));
                    }
                    return Err(self.dangling_error(c, v, MsgCategory::VideoFrame, fi, di));
                }
            }
            proof {
                assert(cat_dests_ok(gv.nodes, gv.connections[ci as int], MsgCategory::VideoFrame));
            }
            proof {
                assert(conn_dests_ok(gv.nodes, gv.connections[ci as int]));
            }
            ci = ci + 1;
        }
        Ok(())
    }

    /// Builds the dangling-destination error for the defect
    /// `check_destination_existence` found.
    fn dangling_error(
        &self,
        c: &GraphConnection,
        v: &Vec<MessageFlow>,
        category: MsgCategory,
        fi: usize,
        di: usize,
    ) -> (e: ValidationError)
        requires
            fi < v@.len(),
        ensures
            e matches ValidationError::DanglingDestination {
                src_app,
                src_extension,
                category: cat2,
                flow_name,
                dest_index,
            } && src_app.deep_view() == c.deep_view().app && src_extension@
                == c.deep_view().extension && cat2 == category && flow_name@
                == v.deep_view()[fi as int].name && dest_index == di,
    {
        ValidationError::DanglingDestination {
            src_app: crate::model::clone_opt_string(&c.app),
            src_extension: c.extension.clone(),
            category,
            flow_name: v[fi].name.clone(),
            dest_index: di,
        }
    }
}

} // verus!

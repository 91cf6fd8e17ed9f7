//! The graph data model: nodes, connections, message flows and destinations,
//! together with the spec-level views that contracts are stated over.
//!
//! An extension is addressed by the pair of its hosting application URI and
//! its name. An absent application URI stands for the graph's own (local)
//! application and is keyed by the empty string, so `None` and `Some("")`
//! address the same application.

use vstd::prelude::*;

verus! {

/// The four outbound message categories an extension can emit.
#[derive(Clone, Copy, Debug, PartialEq, Eq, Structural)]
pub enum MsgCategory {
    Cmd,
    Data,
    AudioFrame,
    VideoFrame,
}

/// One field-renaming rule of a message conversion: the outgoing message's
/// field `from` is delivered to the destination under the name `to`.
#[derive(Clone, Debug, PartialEq, Eq)]
pub struct FieldRule {
    pub from: String,
    pub to: String,
}

/// Spec view of a [`FieldRule`].
#[verifier::ext_equal]
pub struct FieldRuleV {
    pub from: Seq<char>,
    pub to: Seq<char>,
}

/// A declarative remapping of outgoing message fields to the field names a
/// destination expects.
#[derive(Clone, Debug, PartialEq, Eq)]
pub struct MsgConversion {
    pub rules: Vec<FieldRule>,
}

/// Spec view of a [`MsgConversion`].
#[verifier::ext_equal]
pub struct ConversionV {
    pub rules: Seq<FieldRuleV>,
}

/// One target of a message flow: an extension address plus an optional
/// field remapping.
#[derive(Clone, Debug, PartialEq, Eq)]
pub struct Destination {
    pub app: Option<String>,
    pub extension: String,
    pub msg_conversion: Option<MsgConversion>,
}

/// Spec view of a [`Destination`].
#[verifier::ext_equal]
pub struct DestinationV {
    pub app: Option<Seq<char>>,
    pub extension: Seq<char>,
    pub msg_conversion: Option<ConversionV>,
}

/// A named message together with the ordered list of destinations it fans
/// out to. The order of `dest` is the delivery order and is preserved by
/// every operation of this crate.
#[derive(Clone, Debug, PartialEq, Eq)]
pub struct MessageFlow {
    pub name: String,
    pub dest: Vec<Destination>,
}

/// Spec view of a [`MessageFlow`].
#[verifier::ext_equal]
pub struct FlowV {
    pub name: Seq<char>,
    pub dest: Seq<DestinationV>,
}

/// The outbound flows declared for one source extension, grouped by
/// category. An absent category means "this source emits no flows of that
/// category"; it is distinct from a present-but-empty list at the interface
/// boundary.
#[derive(Clone, Debug, PartialEq, Eq)]
pub struct GraphConnection {
    pub app: Option<String>,
    pub extension: String,
    pub cmd: Option<Vec<MessageFlow>>,
    pub data: Option<Vec<MessageFlow>>,
    pub audio_frame: Option<Vec<MessageFlow>>,
    pub video_frame: Option<Vec<MessageFlow>>,
}

/// Spec view of a [`GraphConnection`].
#[verifier::ext_equal]
pub struct ConnectionV {
    pub app: Option<Seq<char>>,
    pub extension: Seq<char>,
    pub cmd: Option<Seq<FlowV>>,
    pub data: Option<Seq<FlowV>>,
    pub audio_frame: Option<Seq<FlowV>>,
    pub video_frame: Option<Seq<FlowV>>,
}

/// A concrete processing unit instance. `subgraph_origin` records, for a
/// node produced by subgraph flattening, the name of the outermost subgraph
/// node it came from; it is `None` for nodes declared directly.
#[derive(Clone, Debug, PartialEq, Eq)]
pub struct ExtensionNode {
    pub app: Option<String>,
    pub addon: String,
    pub name: String,
    pub subgraph_origin: Option<String>,
    pub property: Option<String>,
}

/// Spec view of an [`ExtensionNode`].
#[verifier::ext_equal]
pub struct ExtensionNodeV {
    pub app: Option<Seq<char>>,
    pub addon: Seq<char>,
    pub name: Seq<char>,
    pub subgraph_origin: Option<Seq<char>>,
    pub property: Option<Seq<char>>,
}

/// A placeholder node standing for an entire nested graph, expanded into
/// concrete extension nodes before validation.
#[derive(Clone, Debug, PartialEq, Eq)]
pub struct SubgraphNode {
    pub name: String,
    pub graph_ref: String,
}

/// Spec view of a [`SubgraphNode`].
#[verifier::ext_equal]
pub struct SubgraphNodeV {
    pub name: Seq<char>,
    pub graph_ref: Seq<char>,
}

/// A node of a graph: either a concrete extension or a subgraph placeholder.
#[derive(Clone, Debug, PartialEq, Eq)]
pub enum GraphNode {
    Extension(ExtensionNode),
    Subgraph(SubgraphNode),
}

/// Spec view of a [`GraphNode`].
#[verifier::ext_equal]
pub enum NodeV {
    Extension(ExtensionNodeV),
    Subgraph(SubgraphNodeV),
}

/// A named collection of nodes and their inter-node message-flow
/// connections. The node order and the connection order are declaration
/// order and are significant.
#[derive(Clone, Debug, PartialEq, Eq)]
pub struct Graph {
    pub name: Option<String>,
    pub nodes: Vec<GraphNode>,
    pub connections: Vec<GraphConnection>,
}

/// Spec view of a [`Graph`].
#[verifier::ext_equal]
pub struct GraphV {
    pub name: Option<Seq<char>>,
    pub nodes: Seq<NodeV>,
    pub connections: Seq<ConnectionV>,
}

/// One entry of a [`GraphStore`]: a parsed graph under its opaque
/// identifier.
#[derive(Clone, Debug, PartialEq, Eq)]
pub struct GraphEntry {
    pub id: String,
    pub graph: Graph,
}

/// Spec view of a [`GraphEntry`].
#[verifier::ext_equal]
pub struct GraphEntryV {
    pub id: Seq<char>,
    pub graph: GraphV,
}

/// An in-memory repository of graphs keyed by identifier. It stands for the
/// graph cache collaborator: this crate only ever reads it. Lookup returns
/// the first entry with a matching identifier.
#[derive(Clone, Debug, PartialEq, Eq)]
pub struct GraphStore {
    pub entries: Vec<GraphEntry>,
}

/// Spec view of a [`GraphStore`].
#[verifier::ext_equal]
pub struct GraphStoreV {
    pub entries: Seq<GraphEntryV>,
}

impl DeepView for FieldRule {
    type V = FieldRuleV;

    open spec fn deep_view(&self) -> FieldRuleV {
        FieldRuleV { from: self.from@, to: self.to@ }
    }
}

impl DeepView for MsgConversion {
    type V = ConversionV;

    open spec fn deep_view(&self) -> ConversionV {
        ConversionV { rules: self.rules.deep_view() }
    }
}

impl DeepView for Destination {
    type V = DestinationV;

    open spec fn deep_view(&self) -> DestinationV {
        DestinationV {
            app: self.app.deep_view(),
            extension: self.extension@,
            msg_conversion: self.msg_conversion.deep_view(),
        }
    }
}

impl DeepView for MessageFlow {
    type V = FlowV;

    open spec fn deep_view(&self) -> FlowV {
        FlowV { name: self.name@, dest: self.dest.deep_view() }
    }
}

impl DeepView for GraphConnection {
    type V = ConnectionV;

    open spec fn deep_view(&self) -> ConnectionV {
        ConnectionV {
            app: self.app.deep_view(),
            extension: self.extension@,
            cmd: self.cmd.deep_view(),
            data: self.data.deep_view(),
            audio_frame: self.audio_frame.deep_view(),
            video_frame: self.video_frame.deep_view(),
        }
    }
}

impl DeepView for ExtensionNode {
    type V = ExtensionNodeV;

    open spec fn deep_view(&self) -> ExtensionNodeV {
        ExtensionNodeV {
            app: self.app.deep_view(),
            addon: self.addon@,
            name: self.name@,
            subgraph_origin: self.subgraph_origin.deep_view(),
            property: self.property.deep_view(),
        }
    }
}

impl DeepView for SubgraphNode {
    type V = SubgraphNodeV;

    open spec fn deep_view(&self) -> SubgraphNodeV {
        SubgraphNodeV { name: self.name@, graph_ref: self.graph_ref@ }
    }
}

impl DeepView for GraphNode {
    type V = NodeV;

    open spec fn deep_view(&self) -> NodeV {
        match self {
            GraphNode::Extension(e) => NodeV::Extension(e.deep_view()),
            GraphNode::Subgraph(s) => NodeV::Subgraph(s.deep_view()),
        }
    }
}

impl DeepView for Graph {
    type V = GraphV;

    open spec fn deep_view(&self) -> GraphV {
        GraphV {
            name: self.name.deep_view(),
            nodes: self.nodes.deep_view(),
            connections: self.connections.deep_view(),
        }
    }
}

impl DeepView for GraphEntry {
    type V = GraphEntryV;

    open spec fn deep_view(&self) -> GraphEntryV {
        GraphEntryV { id: self.id@, graph: self.graph.deep_view() }
    }
}

impl DeepView for GraphStore {
    type V = GraphStoreV;

    open spec fn deep_view(&self) -> GraphStoreV {
        GraphStoreV { entries: self.entries.deep_view() }
    }
}

/// The application key of an optional application URI: an absent URI is
/// keyed by the empty string, so an absent URI and an explicitly empty one
/// address the same (local) application.
pub open spec fn app_key(app: Option<Seq<char>>) -> Seq<char> {
    match app {
        Option::Some(s) => s,
        Option::None => Seq::empty(),
    }
}

/// Whether two optional application URIs address the same application.
pub open spec fn same_app(a: Option<Seq<char>>, b: Option<Seq<char>>) -> bool {
    app_key(a) == app_key(b)
}

/// Whether a node is an extension node whose address equals
/// `(app, extension)` under the application-key rule.
pub open spec fn node_has_addr(n: NodeV, app: Option<Seq<char>>, extension: Seq<char>) -> bool {
    n matches NodeV::Extension(e) && same_app(e.app, app) && e.name == extension
}

/// Whether the flattened node set contains an extension node with the given
/// address.
pub open spec fn nodes_contain_addr(
    nodes: Seq<NodeV>,
    app: Option<Seq<char>>,
    extension: Seq<char>,
) -> bool {
    exists|i: int| 0 <= i < nodes.len() && #[trigger] node_has_addr(nodes[i], app, extension)
}

/// Compares two optional application URIs for addressing the same
/// application, following the empty-string-sentinel rule for absent URIs.
pub fn app_eq(a: &Option<String>, b: &Option<String>) -> (r: bool)
    ensures
        r == same_app(a.deep_view(), b.deep_view()),
{
    match (a, b) {
        (Option::None, Option::None) => true,
        (Option::Some(x), Option::Some(y)) => *x == *y,
        (Option::None, Option::Some(y)) => {
            let empty = String::new();
            *y == empty
        },
        (Option::Some(x), Option::None) => {
            let empty = String::new();
            *x == empty
        },
    }
}

/// Clones an optional string, preserving its view.
pub fn clone_opt_string(o: &Option<String>) -> (r: Option<String>)
    ensures
        r.deep_view() == o.deep_view(),
{
    match o {
        Option::None => Option::None,
        Option::Some(s) => Option::Some(s.clone()),
    }
}

impl FieldRule {
    /// Clones this rule, preserving its view.
    pub fn deep_clone(&self) -> (r: FieldRule)
        ensures
            r.deep_view() == self.deep_view(),
    {
        FieldRule { from: self.from.clone(), to: self.to.clone() }
    }
}

impl MsgConversion {
    /// Clones this conversion, preserving its view.
    pub fn deep_clone(&self) -> (r: MsgConversion)
        ensures
            r.deep_view() == self.deep_view(),
    {
        let mut rules: Vec<FieldRule> = Vec::new();
        let mut i: usize = 0;
        while i < self.rules.len()
            invariant
                i <= self.rules.len(),
                rules@.len() == i,
                forall|k: int|
                    0 <= k < i ==> #[trigger] rules@[k].deep_view() == self.rules@[k].deep_view(),
            decreases self.rules.len() - i,
        {
            rules.push(self.rules[i].deep_clone());
            i = i + 1;
        }
        proof {
            assert(rules.deep_view() =~= self.rules.deep_view());
        }
        MsgConversion { rules }
    }
}

impl Destination {
    /// Clones this destination, preserving its view.
    pub fn deep_clone(&self) -> (r: Destination)
        ensures
            r.deep_view() == self.deep_view(),
    {
        let msg_conversion = match &self.msg_conversion {
            Option::None => Option::None,
            Option::Some(c) => Option::Some(c.deep_clone()),
        };
        Destination {
            app: clone_opt_string(&self.app),
            extension: self.extension.clone(),
            msg_conversion,
        }
    }
}

impl MessageFlow {
    /// Clones this flow, preserving its view (name and destination order
    /// included).
    pub fn deep_clone(&self) -> (r: MessageFlow)
        ensures
            r.deep_view() == self.deep_view(),
    {
        let mut dest: Vec<Destination> = Vec::new();
        let mut i: usize = 0;
        while i < self.dest.len()
            invariant
                i <= self.dest.len(),
                dest@.len() == i,
                forall|k: int|
                    0 <= k < i ==> #[trigger] dest@[k].deep_view() == self.dest@[k].deep_view(),
            decreases self.dest.len() - i,
        {
            dest.push(self.dest[i].deep_clone());
            i = i + 1;
        }
        proof {
            assert(dest.deep_view() =~= self.dest.deep_view());
        }
        MessageFlow { name: self.name.clone(), dest }
    }
}

impl ExtensionNode {
    /// Clones this extension node, preserving its view.
    pub fn deep_clone(&self) -> (r: ExtensionNode)
        ensures
            r.deep_view() == self.deep_view(),
    {
        ExtensionNode {
            app: clone_opt_string(&self.app),
            addon: self.addon.clone(),
            name: self.name.clone(),
            subgraph_origin: clone_opt_string(&self.subgraph_origin),
            property: clone_opt_string(&self.property),
        }
    }
}

impl SubgraphNode {
    /// Clones this subgraph node, preserving its view.
    pub fn deep_clone(&self) -> (r: SubgraphNode)
        ensures
            r.deep_view() == self.deep_view(),
    {
        SubgraphNode { name: self.name.clone(), graph_ref: self.graph_ref.clone() }
    }
}

impl GraphConnection {
    /// Clones this connection group, preserving its view.
    pub fn deep_clone(&self) -> (r: GraphConnection)
        ensures
            r.deep_view() == self.deep_view(),
    {
        GraphConnection {
            app: clone_opt_string(&self.app),
            extension: self.extension.clone(),
            cmd: clone_opt_flows(&self.cmd),
            data: clone_opt_flows(&self.data),
            audio_frame: clone_opt_flows(&self.audio_frame),
            video_frame: clone_opt_flows(&self.video_frame),
        }
    }
}

/// Clones one declared category, preserving its view: an absent category
/// stays absent, a present flow list (empty included) is cloned as it
/// stands.
pub fn clone_opt_flows(o: &Option<Vec<MessageFlow>>) -> (r: Option<Vec<MessageFlow>>)
    ensures
        r.deep_view() == o.deep_view(),
{
    match o {
        Option::None => Option::None,
        Option::Some(v) => Option::Some(clone_flows(v)),
    }
}

/// Clones a list of message flows, preserving its view.
pub fn clone_flows(v: &Vec<MessageFlow>) -> (r: Vec<MessageFlow>)
    ensures
        r.deep_view() == v.deep_view(),
{
    let mut out: Vec<MessageFlow> = Vec::new();
    let mut i: usize = 0;
    while i < v.len()
        invariant
            i <= v.len(),
            out@.len() == i,
            forall|k: int| 0 <= k < i ==> #[trigger] out@[k].deep_view() == v@[k].deep_view(),
        decreases v.len() - i,
    {
        out.push(v[i].deep_clone());
        i = i + 1;
    }
    proof {
        assert(out.deep_view() =~= v.deep_view());
    }
    out
}

} // verus!

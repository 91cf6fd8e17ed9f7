//! The addon schema store and the two schema checks: message-shape
//! compatibility between a flow's source and each of its destinations, and
//! validity of the fields a message conversion references.
//!
//! The store stands for the package/schema cache collaborator: it maps an
//! addon name to the message schemas the addon declares per category, and
//! this crate only ever reads it. All lookups take the first match in
//! declaration order.

use vstd::prelude::*;
use crate::destinations::conn_flows;
use crate::errors::{SchemaIssue, SchemaIssueV, ValidationError};
use crate::model::{
    ConnectionV, Destination, DestinationV, FlowV, Graph, GraphConnection, GraphNode, GraphV,
    MessageFlow, MsgCategory, NodeV,
};

verus! {

/// One declared property of a message schema: a field name and the name of
/// its declared value type.
#[derive(Clone, Debug, PartialEq, Eq)]
pub struct PropertyField {
    pub name: String,
    pub value_type: String,
}

/// Spec view of a [`PropertyField`].
#[verifier::ext_equal]
pub struct PropertyFieldV {
    pub name: Seq<char>,
    pub value_type: Seq<char>,
}

impl DeepView for PropertyField {
    type V = PropertyFieldV;

    open spec fn deep_view(&self) -> PropertyFieldV {
        PropertyFieldV { name: self.name@, value_type: self.value_type@ }
    }
}

/// The declared schema of one named message: its property fields.
#[derive(Clone, Debug, PartialEq, Eq)]
pub struct MessageSchema {
    pub name: String,
    pub properties: Vec<PropertyField>,
}

/// Spec view of a [`MessageSchema`].
#[verifier::ext_equal]
pub struct MessageSchemaV {
    pub name: Seq<char>,
    pub properties: Seq<PropertyFieldV>,
}

impl DeepView for MessageSchema {
    type V = MessageSchemaV;

    open spec fn deep_view(&self) -> MessageSchemaV {
        MessageSchemaV { name: self.name@, properties: self.properties.deep_view() }
    }
}

/// The message schemas one addon declares, per category.
#[derive(Clone, Debug, PartialEq, Eq)]
pub struct AddonManifest {
    pub addon: String,
    pub cmd: Vec<MessageSchema>,
    pub data: Vec<MessageSchema>,
    pub audio_frame: Vec<MessageSchema>,
    pub video_frame: Vec<MessageSchema>,
}

/// Spec view of an [`AddonManifest`].
#[verifier::ext_equal]
pub struct AddonManifestV {
    pub addon: Seq<char>,
    pub cmd: Seq<MessageSchemaV>,
    pub data: Seq<MessageSchemaV>,
    pub audio_frame: Seq<MessageSchemaV>,
    pub video_frame: Seq<MessageSchemaV>,
}

impl DeepView for AddonManifest {
    type V = AddonManifestV;

    open spec fn deep_view(&self) -> AddonManifestV {
        AddonManifestV {
            addon: self.addon@,
            cmd: self.cmd.deep_view(),
            data: self.data.deep_view(),
            audio_frame: self.audio_frame.deep_view(),
            video_frame: self.video_frame.deep_view(),
        }
    }
}

/// An in-memory repository of addon manifests, read-only for this crate.
#[derive(Clone, Debug, PartialEq, Eq)]
pub struct SchemaStore {
    pub addons: Vec<AddonManifest>,
}

/// Spec view of a [`SchemaStore`].
#[verifier::ext_equal]
pub struct SchemaStoreV {
    pub addons: Seq<AddonManifestV>,
}

impl DeepView for SchemaStore {
    type V = SchemaStoreV;

    open spec fn deep_view(&self) -> SchemaStoreV {
        SchemaStoreV { addons: self.addons.deep_view() }
    }
}

/// The index of the first extension node at or after `from` with the given
/// address, if any.
pub open spec fn first_node_from(
    nodes: Seq<NodeV>,
    app: Option<Seq<char>>,
    extension: Seq<char>,
    from: int,
) -> Option<int>
    decreases nodes.len() - from,
{
    if !(0 <= from < nodes.len()) {
        Option::None
    } else if crate::model::node_has_addr(nodes[from], app, extension) {
        Option::Some(from)
    } else {
        first_node_from(nodes, app, extension, from + 1)
    }
}

/// The index of the first extension node with the given address, if any.
pub open spec fn find_node(nodes: Seq<NodeV>, app: Option<Seq<char>>, extension: Seq<char>) -> Option<
    int,
> {
    first_node_from(nodes, app, extension, 0)
}

/// The addon name of a node; meaningful for extension nodes only.
pub open spec fn addon_of(n: NodeV) -> Seq<char> {
    match n {
        NodeV::Extension(e) => e.addon,
        NodeV::Subgraph(_) => Seq::empty(),
    }
}

/// The index of the first manifest at or after `from` for the given addon
/// name, if any.
pub open spec fn first_addon_from(addons: Seq<AddonManifestV>, name: Seq<char>, from: int) -> Option<
    int,
>
    decreases addons.len() - from,
{
    if !(0 <= from < addons.len()) {
        Option::None
    } else if addons[from].addon == name {
        Option::Some(from)
    } else {
        first_addon_from(addons, name, from + 1)
    }
}

/// The index of the first manifest for the given addon name, if any.
pub open spec fn find_addon(addons: Seq<AddonManifestV>, name: Seq<char>) -> Option<int> {
    first_addon_from(addons, name, 0)
}

/// The message schemas a manifest declares for one category.
pub open spec fn manifest_cat(m: AddonManifestV, cat: MsgCategory) -> Seq<MessageSchemaV> {
    match cat {
        MsgCategory::Cmd => m.cmd,
        MsgCategory::Data => m.data,
        MsgCategory::AudioFrame => m.audio_frame,
        MsgCategory::VideoFrame => m.video_frame,
    }
}

/// The index of the first message schema at or after `from` with the given
/// message name, if any.
pub open spec fn first_msg_from(msgs: Seq<MessageSchemaV>, name: Seq<char>, from: int) -> Option<
    int,
>
    decreases msgs.len() - from,
{
    if !(0 <= from < msgs.len()) {
        Option::None
    } else if msgs[from].name == name {
        Option::Some(from)
    } else {
        first_msg_from(msgs, name, from + 1)
    }
}

/// The index of the first message schema with the given name, if any.
pub open spec fn find_msg(msgs: Seq<MessageSchemaV>, name: Seq<char>) -> Option<int> {
    first_msg_from(msgs, name, 0)
}

/// The index of the first property field at or after `from` with the given
/// field name, if any.
pub open spec fn first_field_from(props: Seq<PropertyFieldV>, name: Seq<char>, from: int) -> Option<
    int,
>
    decreases props.len() - from,
{
    if !(0 <= from < props.len()) {
        Option::None
    } else if props[from].name == name {
        Option::Some(from)
    } else {
        first_field_from(props, name, from + 1)
    }
}

/// The index of the first property field with the given name, if any.
pub open spec fn find_field(props: Seq<PropertyFieldV>, name: Seq<char>) -> Option<int> {
    first_field_from(props, name, 0)
}

/// The index of the first source property at or after `from` that the
/// destination also declares but with a different value type, if any.
pub open spec fn first_type_clash_from(
    src: Seq<PropertyFieldV>,
    dst: Seq<PropertyFieldV>,
    from: int,
) -> Option<int>
    decreases src.len() - from,
{
    if !(0 <= from < src.len()) {
        Option::None
    } else if (match find_field(dst, src[from].name) {
        Option::Some(j) => dst[j].value_type != src[from].value_type,
        Option::None => false,
    }) {
        Option::Some(from)
    } else {
        first_type_clash_from(src, dst, from + 1)
    }
}

/// The first source property the destination declares under a different
/// value type, if any. Properties declared on only one side are
/// compatible: the shapes disagree only where both sides declare a field
/// and its declared types differ.
pub open spec fn first_type_clash(src: Seq<PropertyFieldV>, dst: Seq<PropertyFieldV>) -> Option<
    int,
> {
    first_type_clash_from(src, dst, 0)
}

/// The first schema issue of one flow delivered to one destination, in
/// the order the checks run: source resolution, destination resolution,
/// source manifest, destination manifest, source message declaration,
/// destination message declaration, field-type agreement. `None` means
/// the pair is schema-compatible.
pub open spec fn flow_dest_issue(
    nodes: Seq<NodeV>,
    store: SchemaStoreV,
    c: ConnectionV,
    cat: MsgCategory,
    f: FlowV,
    d: DestinationV,
) -> Option<SchemaIssueV> {
    match find_node(nodes, c.app, c.extension) {
        Option::None => Option::Some(SchemaIssueV::SourceNotFound),
        Option::Some(si) => match find_node(nodes, d.app, d.extension) {
            Option::None => Option::Some(SchemaIssueV::DestNotFound),
            Option::Some(ti) => match find_addon(store.addons, addon_of(nodes[si])) {
                Option::None => Option::Some(SchemaIssueV::SourceAddonUnknown),
                Option::Some(sa) => match find_addon(store.addons, addon_of(nodes[ti])) {
                    Option::None => Option::Some(SchemaIssueV::DestAddonUnknown),
                    Option::Some(ta) => match find_msg(
                        manifest_cat(store.addons[sa], cat),
                        f.name,
                    ) {
                        Option::None => Option::Some(SchemaIssueV::SourceMessageUndeclared),
                        Option::Some(sm) => match find_msg(
                            manifest_cat(store.addons[ta], cat),
                            f.name,
                        ) {
                            Option::None => Option::Some(SchemaIssueV::DestMessageUndeclared),
                            Option::Some(tm) => {
                                let sp = manifest_cat(store.addons[sa], cat)[sm].properties;
                                let tp = manifest_cat(store.addons[ta], cat)[tm].properties;
                                match first_type_clash(sp, tp) {
                                    Option::Some(k) => Option::Some(
                                        SchemaIssueV::FieldTypeDisagreement { field: sp[k].name },
                                    ),
                                    Option::None => Option::None,
                                }
                            },
                        },
                    },
                },
            },
        },
    }
}

/// Whether every flow/destination pair of one category of one connection
/// group is schema-compatible.
pub open spec fn cat_schema_ok(
    nodes: Seq<NodeV>,
    store: SchemaStoreV,
    c: ConnectionV,
    cat: MsgCategory,
) -> bool {
    forall|fi: int, di: int|
        0 <= fi < conn_flows(c, cat).len() && 0 <= di < conn_flows(c, cat)[fi].dest.len()
            ==> #[trigger] flow_dest_issue(
            nodes,
            store,
            c,
            cat,
            conn_flows(c, cat)[fi],
            conn_flows(c, cat)[fi].dest[di],
        ) is None
}

/// Whether every flow/destination pair of one connection group is
/// schema-compatible, over all four categories.
pub open spec fn conn_schema_ok(nodes: Seq<NodeV>, store: SchemaStoreV, c: ConnectionV) -> bool {
    &&& cat_schema_ok(nodes, store, c, MsgCategory::Cmd)
    &&& cat_schema_ok(nodes, store, c, MsgCategory::Data)
    &&& cat_schema_ok(nodes, store, c, MsgCategory::AudioFrame)
    &&& cat_schema_ok(nodes, store, c, MsgCategory::VideoFrame)
}

/// Whether every flow/destination pair of the graph is schema-compatible.
pub open spec fn graph_schema_ok(g: GraphV, store: SchemaStoreV) -> bool {
    forall|ci: int|
        0 <= ci < g.connections.len() ==> conn_schema_ok(
            g.nodes,
            store,
            #[trigger] g.connections[ci],
        )
}

/// Whether `(ci, cat, fi, di)` pins down the first schema issue in scan
/// order — connection groups, then categories by [`cat_rank`], then
/// flows, then destinations, each in declaration order — and that issue
/// is `issue`.
pub open spec fn first_schema_issue(
    g: GraphV,
    store: SchemaStoreV,
    ci: int,
    cat: MsgCategory,
    fi: int,
    di: int,
    issue: SchemaIssueV,
) -> bool {
    &&& 0 <= ci < g.connections.len()
    &&& 0 <= fi < conn_flows(g.connections[ci], cat).len()
    &&& 0 <= di < conn_flows(g.connections[ci], cat)[fi].dest.len()
    &&& flow_dest_issue(
        g.nodes,
        store,
        g.connections[ci],
        cat,
        conn_flows(g.connections[ci], cat)[fi],
        conn_flows(g.connections[ci], cat)[fi].dest[di],
    ) == Option::Some(issue)
    &&& forall|k: int| 0 <= k < ci ==> conn_schema_ok(g.nodes, store, #[trigger] g.connections[k])
    &&& forall|c2: MsgCategory|
        crate::destinations::cat_rank(c2) < crate::destinations::cat_rank(cat)
            ==> #[trigger] cat_schema_ok(g.nodes, store, g.connections[ci], c2)
    &&& forall|k: int, dj: int|
        0 <= k < fi && 0 <= dj < conn_flows(g.connections[ci], cat)[k].dest.len()
            ==> #[trigger] flow_dest_issue(
            g.nodes,
            store,
            g.connections[ci],
            cat,
            conn_flows(g.connections[ci], cat)[k],
            conn_flows(g.connections[ci], cat)[k].dest[dj],
        ) is None
    &&& forall|k: int|
        0 <= k < di ==> #[trigger] flow_dest_issue(
            g.nodes,
            store,
            g.connections[ci],
            cat,
            conn_flows(g.connections[ci], cat)[fi],
            conn_flows(g.connections[ci], cat)[fi].dest[k],
        ) is None
}

/// Finds the first extension node with the given address, scanning in
/// declaration order.
fn find_node_index(nodes: &Vec<GraphNode>, app: &Option<String>, extension: &String) -> (r: Option<
    usize,
>)
    ensures
        r matches Some(i) ==> i < nodes@.len() && find_node(
            nodes.deep_view(),
            app.deep_view(),
            extension@,
        ) == Option::Some(i as int),
        r is None ==> find_node(nodes.deep_view(), app.deep_view(), extension@) is None,
{
    let ghost nv = nodes.deep_view();
    let mut i: usize = 0;
    while i < nodes.len()
        invariant
            nv == nodes.deep_view(),
            i <= nodes@.len(),
            first_node_from(nv, app.deep_view(), extension@, 0) == first_node_from(
                nv,
                app.deep_view(),
                extension@,
                i as int,
            ),
        decreases nodes@.len() - i,
    {
        let hit = match &nodes[i] {
            GraphNode::Extension(e) => {
                proof {
                    assert(nv[i as int] == NodeV::Extension(e.deep_view()));
                }
                crate::model::app_eq(&e.app, app) && e.name == *extension
            },
            GraphNode::Subgraph(_) => false,
        };
        if hit {
            return Some(i);
        }
        proof {
            assert(!crate::model::node_has_addr(nv[i as int], app.deep_view(), extension@));
        }
        i = i + 1;
    }
    None
}

/// Finds the first manifest for the given addon name, scanning in
/// declaration order.
fn find_addon_index(addons: &Vec<AddonManifest>, name: &String) -> (r: Option<usize>)
    ensures
        r matches Some(i) ==> i < addons@.len() && find_addon(addons.deep_view(), name@)
            == Option::Some(i as int),
        r is None ==> find_addon(addons.deep_view(), name@) is None,
{
    let ghost av = addons.deep_view();
    let mut i: usize = 0;
    while i < addons.len()
        invariant
            av == addons.deep_view(),
            i <= addons@.len(),
            first_addon_from(av, name@, 0) == first_addon_from(av, name@, i as int),
        decreases addons@.len() - i,
    {
        proof {
            assert(av[i as int] == addons@[i as int].deep_view());
        }
        if addons[i].addon == *name {
            return Some(i);
        }
        i = i + 1;
    }
    None
}

/// Finds the first message schema with the given name, scanning in
/// declaration order.
fn find_msg_index(msgs: &Vec<MessageSchema>, name: &String) -> (r: Option<usize>)
    ensures
        r matches Some(i) ==> i < msgs@.len() && find_msg(msgs.deep_view(), name@) == Option::Some(
            i as int,
        ),
        r is None ==> find_msg(msgs.deep_view(), name@) is None,
{
    let ghost mv = msgs.deep_view();
    let mut i: usize = 0;
    while i < msgs.len()
        invariant
            mv == msgs.deep_view(),
            i <= msgs@.len(),
            first_msg_from(mv, name@, 0) == first_msg_from(mv, name@, i as int),
        decreases msgs@.len() - i,
    {
        proof {
            assert(mv[i as int] == msgs@[i as int].deep_view());
        }
        if msgs[i].name == *name {
            return Some(i);
        }
        i = i + 1;
    }
    None
}

/// Finds the first property field with the given name, scanning in
/// declaration order.
fn find_field_index(props: &Vec<PropertyField>, name: &String) -> (r: Option<usize>)
    ensures
        r matches Some(i) ==> i < props@.len() && find_field(props.deep_view(), name@)
            == Option::Some(i as int),
        r is None ==> find_field(props.deep_view(), name@) is None,
{
    let ghost pv = props.deep_view();
    let mut i: usize = 0;
    while i < props.len()
        invariant
            pv == props.deep_view(),
            i <= props@.len(),
            first_field_from(pv, name@, 0) == first_field_from(pv, name@, i as int),
        decreases props@.len() - i,
    {
        proof {
            assert(pv[i as int] == props@[i as int].deep_view());
        }
        if props[i].name == *name {
            return Some(i);
        }
        i = i + 1;
    }
    None
}

/// Finds the first source property the destination declares under a
/// different value type, scanning source properties in declaration order.
fn find_type_clash(src: &Vec<PropertyField>, dst: &Vec<PropertyField>) -> (r: Option<usize>)
    ensures
        r matches Some(i) ==> i < src@.len() && first_type_clash(src.deep_view(), dst.deep_view())
            == Option::Some(i as int),
        r is None ==> first_type_clash(src.deep_view(), dst.deep_view()) is None,
{
    let ghost sv = src.deep_view();
    let ghost dv = dst.deep_view();
    let mut i: usize = 0;
    while i < src.len()
        invariant
            sv == src.deep_view(),
            dv == dst.deep_view(),
            i <= src@.len(),
            first_type_clash_from(sv, dv, 0) == first_type_clash_from(sv, dv, i as int),
        decreases src@.len() - i,
    {
        proof {
            assert(sv[i as int] == src@[i as int].deep_view());
        }
        let clash = match find_field_index(dst, &src[i].name) {
            Some(j) => {
                proof {
                    assert(dv[j as int] == dst@[j as int].deep_view());
                }
                dst[j].value_type != src[i].value_type
            },
            None => false,
        };
        if clash {
            return Some(i);
        }
        i = i + 1;
    }
    None
}

/// The addon name of an extension node.
fn node_addon<'a>(n: &'a GraphNode) -> (r: &'a String)
    requires
        n.deep_view() is Extension,
    ensures
        r@ == addon_of(n.deep_view()),
{
    match n {
        GraphNode::Extension(e) => &e.addon,
        GraphNode::Subgraph(s) => &s.name,
    }
}

/// The declared message schemas of one manifest for one category.
fn manifest_cat_list<'a>(m: &'a AddonManifest, cat: MsgCategory) -> (r: &'a Vec<MessageSchema>)
    ensures
        r.deep_view() == manifest_cat(m.deep_view(), cat),
{
    match cat {
        MsgCategory::Cmd => &m.cmd,
        MsgCategory::Data => &m.data,
        MsgCategory::AudioFrame => &m.audio_frame,
        MsgCategory::VideoFrame => &m.video_frame,
    }
}

/// Checks one flow against one of its destinations, reporting the first
/// schema issue in check order, or compatibility.
fn check_flow_dest(
    nodes: &Vec<GraphNode>,
    store: &SchemaStore,
    c: &GraphConnection,
    cat: MsgCategory,
    f: &MessageFlow,
    d: &Destination,
) -> (r: Option<SchemaIssue>)
    ensures
        r.deep_view() == flow_dest_issue(
            nodes.deep_view(),
            store.deep_view(),
            c.deep_view(),
            cat,
            f.deep_view(),
            d.deep_view(),
        ),
{
    let si = match find_node_index(nodes, &c.app, &c.extension) {
        Some(i) => i,
        None => {
            return Some(SchemaIssue::SourceNotFound);
        },
    };
    let ti = match find_node_index(nodes, &d.app, &d.extension) {
        Some(i) => i,
        None => {
            return Some(SchemaIssue::DestNotFound);
        },
    };
    proof {
        lemma_first_node_is_ext(nodes.deep_view(), c.deep_view().app, c.deep_view().extension, 0);
        lemma_first_node_is_ext(nodes.deep_view(), d.deep_view().app, d.deep_view().extension, 0);
        assert(nodes.deep_view()[si as int] == nodes@[si as int].deep_view());
        assert(nodes.deep_view()[ti as int] == nodes@[ti as int].deep_view());
    }
    let src_addon = node_addon(&nodes[si]);
    let dst_addon = node_addon(&nodes[ti]);
    let sa = match find_addon_index(&store.addons, src_addon) {
        Some(i) => i,
        None => {
            return Some(SchemaIssue::SourceAddonUnknown);
        },
    };
    let ta = match find_addon_index(&store.addons, dst_addon) {
        Some(i) => i,
        None => {
            return Some(SchemaIssue::DestAddonUnknown);
        },
    };
    proof {
        assert(store.deep_view().addons[sa as int] == store.addons@[sa as int].deep_view());
        assert(store.deep_view().addons[ta as int] == store.addons@[ta as int].deep_view());
    }
    let src_msgs = manifest_cat_list(&store.addons[sa], cat);
    let dst_msgs = manifest_cat_list(&store.addons[ta], cat);
    let sm = match find_msg_index(src_msgs, &f.name) {
        Some(i) => i,
        None => {
            return Some(SchemaIssue::SourceMessageUndeclared);
        },
    };
    let tm = match find_msg_index(dst_msgs, &f.name) {
        Some(i) => i,
        None => {
            return Some(SchemaIssue::DestMessageUndeclared);
        },
    };
    proof {
        assert(src_msgs.deep_view()[sm as int] == src_msgs@[sm as int].deep_view());
        assert(dst_msgs.deep_view()[tm as int] == dst_msgs@[tm as int].deep_view());
    }
    match find_type_clash(&src_msgs[sm].properties, &dst_msgs[tm].properties) {
        Some(k) => {
            proof {
                assert(src_msgs[sm as int].properties.deep_view()[k as int] == src_msgs@[sm as int].properties@[k as int].deep_view());
            }
            Some(SchemaIssue::FieldTypeDisagreement { field: src_msgs[sm].properties[k].name.clone() })
        },
        None => None,
    }
}

/// Checks one category's flow list for a flow/destination pair that is not
/// schema-compatible, scanning flows and destinations in declaration
/// order; reports the first such pair's indices and issue, or success.
fn check_cat_schemas(
    nodes: &Vec<GraphNode>,
    store: &SchemaStore,
    c: &GraphConnection,
    v: &Vec<MessageFlow>,
    cat: MsgCategory,
) -> (r: Result<(), (usize, usize, SchemaIssue)>)
    ensures
        r is Ok <==> forall|fi: int, di: int|
            0 <= fi < v.deep_view().len() && 0 <= di < v.deep_view()[fi].dest.len()
                ==> #[trigger] flow_dest_issue(
                nodes.deep_view(),
                store.deep_view(),
                c.deep_view(),
                cat,
                v.deep_view()[fi],
                v.deep_view()[fi].dest[di],
            ) is None,
        r matches Err((fi, di, issue)) ==> ({
            &&& fi < v@.len()
            &&& di < v.deep_view()[fi as int].dest.len()
            &&& flow_dest_issue(
                nodes.deep_view(),
                store.deep_view(),
                c.deep_view(),
                cat,
                v.deep_view()[fi as int],
                v.deep_view()[fi as int].dest[di as int],
            ) == Option::Some(issue.deep_view())
            &&& forall|k: int, dj: int|
                0 <= k < fi && 0 <= dj < v.deep_view()[k].dest.len() ==> #[trigger] flow_dest_issue(
                    nodes.deep_view(),
                    store.deep_view(),
                    c.deep_view(),
                    cat,
                    v.deep_view()[k],
                    v.deep_view()[k].dest[dj],
                ) is None
            &&& forall|k: int|
                0 <= k < di ==> #[trigger] flow_dest_issue(
                    nodes.deep_view(),
                    store.deep_view(),
                    c.deep_view(),
                    cat,
                    v.deep_view()[fi as int],
                    v.deep_view()[fi as int].dest[k],
                ) is None
        }),
{
    let ghost nv = nodes.deep_view();
    let ghost stv = store.deep_view();
    let ghost cv = c.deep_view();
    let ghost fv = v.deep_view();
    let mut fi: usize = 0;
    while fi < v.len()
        invariant
            nv == nodes.deep_view(),
            stv == store.deep_view(),
            cv == c.deep_view(),
            fv == v.deep_view(),
            fi <= v@.len(),
            forall|k: int, di: int|
                0 <= k < fi && 0 <= di < fv[k].dest.len() ==> #[trigger] flow_dest_issue(
                    nv,
                    stv,
                    cv,
                    cat,
                    fv[k],
                    fv[k].dest[di],
                ) is None,
        decreases v@.len() - fi,
    {
        let flow = &v[fi];
        proof {
            assert(fv[fi as int] == flow.deep_view());
        }
        let mut di: usize = 0;
        while di < flow.dest.len()
            invariant
                nv == nodes.deep_view(),
                stv == store.deep_view(),
                cv == c.deep_view(),
                fv == v.deep_view(),
                fi < v@.len(),
                fv[fi as int] == flow.deep_view(),
                forall|k: int, dj: int|
                    0 <= k < fi && 0 <= dj < fv[k].dest.len() ==> #[trigger] flow_dest_issue(
                        nv,
                        stv,
                        cv,
                        cat,
                        fv[k],
                        fv[k].dest[dj],
                    ) is None,
                di <= flow.dest@.len(),
                forall|k: int|
                    0 <= k < di ==> #[trigger] flow_dest_issue(
                        nv,
                        stv,
                        cv,
                        cat,
                        fv[fi as int],
                        fv[fi as int].dest[k],
                    ) is None,
            decreases flow.dest@.len() - di,
        {
            let d = &flow.dest[di];
            proof {
                assert(flow.deep_view().dest[di as int] == d.deep_view());
            }
            if let Some(issue) = check_flow_dest(nodes, store, c, cat, flow, d) {
                return Err((fi, di, issue));
            }
            di = di + 1;
        }
        fi = fi + 1;
    }
    Ok(())
}

impl Graph {
    /// Validates that every message flow is schema-compatible with each of
    /// its destinations: source and destination must resolve, their addons
    /// must have manifests in the store, both sides must declare the
    /// flow's message for its category, and every property field both
    /// sides declare must carry the same value type. Validation passes
    /// exactly when no flow/destination pair has an issue; otherwise it
    /// fails naming the flow, both addresses and the first issue found in
    /// scan order (connection groups, then categories in the order
    /// command, data, audio frame, video frame, then flows, then
    /// destinations, each in declaration order).
    pub fn check_schema_compatibility(&self, store: &SchemaStore) -> (r: Result<
        (),
        ValidationError,
    >)
        ensures
            r is Ok <==> graph_schema_ok(self.deep_view(), store.deep_view()),
            r matches Err(e) ==> ({
                &&& e matches ValidationError::SchemaMismatch {
                    flow_name,
                    src_app,
                    src_extension,
                    dest_app,
                    dest_extension,
                    detail,
                }
                &&& exists|ci: int, cat: MsgCategory, fi: int, di: int|
                    {
                        &&& #[trigger] first_schema_issue(
                            self.deep_view(),
                            store.deep_view(),
                            ci,
                            cat,
                            fi,
                            di,
                            detail.deep_view(),
                        )
                        &&& src_app.deep_view() == self.deep_view().connections[ci].app
                        &&& src_extension@ == self.deep_view().connections[ci].extension
                        &&& flow_name@ == conn_flows(self.deep_view().connections[ci], cat)[fi].name
                        &&& dest_app.deep_view() == conn_flows(
                            self.deep_view().connections[ci],
                            cat,
                        )[fi].dest[di].app
                        &&& dest_extension@ == conn_flows(
                            self.deep_view().connections[ci],
                            cat,
                        )[fi].dest[di].extension
                    }
            }),
    {
        let ghost gv = self.deep_view();
        let ghost stv = store.deep_view();
        let mut ci: usize = 0;
        while ci < self.connections.len()
            invariant
                gv == self.deep_view(),
                stv == store.deep_view(),
                ci <= self.connections@.len(),
                forall|k: int|
                    0 <= k < ci ==> conn_schema_ok(gv.nodes, stv, #[trigger] gv.connections[k]),
            decreases self.connections@.len() - ci,
        {
            let c = &self.connections[ci];
            proof {
                assert(gv.connections[ci as int] == c.deep_view());
            }
            if let Option::Some(v) = &c.cmd {
                proof {
                    assert(conn_flows(c.deep_view(), MsgCategory::Cmd) == v.deep_view());
                }
                if let Err((fi, di, issue)) = check_cat_schemas(&self.nodes, store, c, v, MsgCategory::Cmd) {
                    proof {
                        assert(forall|c2: MsgCategory|
                            crate::destinations::cat_rank(c2) < crate::destinations::cat_rank(
                                MsgCategory::Cmd,
                            ) ==> #[trigger] cat_schema_ok(
                                gv.nodes,
                                stv,
                                gv.connections[ci as int],
                                c2,
                            ));
                        assert(first_schema_issue(
                            gv,
                            stv,
                            ci as int,
                            MsgCategory::Cmd,
                            fi as int,
                            di as int,
                            issue.deep_view(),
                        ));
                    }
                    return Err(self.schema_error(store, c, v, MsgCategory::Cmd, fi, di, issue));
                }
            }
            proof {
                assert(cat_schema_ok(gv.nodes, stv, gv.connections[ci as int], MsgCategory::Cmd));
            }
            if let Option::Some(v) = &c.data {
                proof {
                    assert(conn_flows(c.deep_view(), MsgCategory::Data) == v.deep_view());
                }
                if let Err((fi, di, issue)) = check_cat_schemas(&self.nodes, store, c, v, MsgCategory::Data) {
                    proof {
                        assert(forall|c2: MsgCategory|
                            crate::destinations::cat_rank(c2) < crate::destinations::cat_rank(
                                MsgCategory::Data,
                            ) ==> #[trigger] cat_schema_ok(
                                gv.nodes,
                                stv,
                                gv.connections[ci as int],
                                c2,
                            ));
                        assert(first_schema_issue(
                            gv,
                            stv,
                            ci as int,
                            MsgCategory::Data,
                            fi as int,
                            di as int,
                            issue.deep_view(),
                        ));
                    }
                    return Err(self.schema_error(store, c, v, MsgCategory::Data, fi, di, issue));
                }
            }
            proof {
                assert(cat_schema_ok(gv.nodes, stv, gv.connections[ci as int], MsgCategory::Data));
            }
            if let Option::Some(v) = &c.audio_frame {
                proof {
                    assert(conn_flows(c.deep_view(), MsgCategory::AudioFrame) == v.deep_view());
                }
                if let Err((fi, di, issue)) = check_cat_schemas(&self.nodes, store, c, v, MsgCategory::AudioFrame) {
                    proof {
                        assert(forall|c2: MsgCategory|
                            crate::destinations::cat_rank(c2) < crate::destinations::cat_rank(
                                MsgCategory::AudioFrame,
                            ) ==> #[trigger] cat_schema_ok(
                                gv.nodes,
                                stv,
                                gv.connections[ci as int],
                                c2,
                            ));
                        assert(first_schema_issue(
                            gv,
                            stv,
                            ci as int,
                            MsgCategory::AudioFrame,
                            fi as int,
                            di as int,
                            issue.deep_view(),
                        ));
                    }
                    return Err(self.schema_error(store, c, v, MsgCategory::AudioFrame, fi, di, issue));
                }
            }
            proof {
                assert(cat_schema_ok(gv.nodes, stv, gv.connections[ci as int], MsgCategory::AudioFrame));
            }
            if let Option::Some(v) = &c.video_frame {
                proof {
                    assert(conn_flows(c.deep_view(), MsgCategory::VideoFrame) == v.deep_view());
                }
                if let Err((fi, di, issue)) = check_cat_schemas(&self.nodes, store, c, v, MsgCategory::VideoFrame) {
                    proof {
                        assert(forall|c2: MsgCategory|
                            crate::destinations::cat_rank(c2) < crate::destinations::cat_rank(
                                MsgCategory::VideoFrame,
                            ) ==> #[trigger] cat_schema_ok(
                                gv.nodes,
                                stv,
                                gv.connections[ci as int],
                                c2,
                            ));
                        assert(first_schema_issue(
                            gv,
                            stv,
                            ci as int,
                            MsgCategory::VideoFrame,
                            fi as int,
                            di as int,
                            issue.deep_view(),
                        ));
                    }
                    return Err(self.schema_error(store, c, v, MsgCategory::VideoFrame, fi, di, issue));
                }
            }
            proof {
                assert(cat_schema_ok(gv.nodes, stv, gv.connections[ci as int], MsgCategory::VideoFrame));
            }
            proof {
                assert(conn_schema_ok(gv.nodes, stv, gv.connections[ci as int]));
            }
            ci = ci + 1;
        }
        Ok(())
    }

    /// Builds the schema-mismatch error for the defect
    /// `check_schema_compatibility` found.
    fn schema_error(
        &self,
        store: &SchemaStore,
        c: &GraphConnection,
        v: &Vec<MessageFlow>,
        cat: MsgCategory,
        fi: usize,
        di: usize,
        issue: SchemaIssue,
    ) -> (e: ValidationError)
        requires
            fi < v@.len(),
            di < v.deep_view()[fi as int].dest.len(),
        ensures
            e matches ValidationError::SchemaMismatch {
                flow_name,
                src_app,
                src_extension,
                dest_app,
                dest_extension,
                detail,
            } && src_app.deep_view() == c.deep_view().app && src_extension@
                == c.deep_view().extension && flow_name@ == v.deep_view()[fi as int].name
                && dest_app.deep_view() == v.deep_view()[fi as int].dest[di as int].app
                && dest_extension@ == v.deep_view()[fi as int].dest[di as int].extension && detail
                == issue,
    {
        let flow = &v[fi];
        let d = &flow.dest[di];
        proof {
            assert(v.deep_view()[fi as int] == flow.deep_view());
            assert(flow.deep_view().dest[di as int] == d.deep_view());
        }
        ValidationError::SchemaMismatch {
            flow_name: flow.name.clone(),
            src_app: crate::model::clone_opt_string(&c.app),
            src_extension: c.extension.clone(),
            dest_app: crate::model::clone_opt_string(&d.app),
            dest_extension: d.extension.clone(),
            detail: issue,
        }
    }
}

/// The property fields of the source-side schema of one flow: the message
/// schema the source extension's addon declares for the flow's name and
/// category. `None` when the source, its manifest or the message cannot
/// be found — those defects are the schema-compatibility check's to
/// report, so the conversion check treats such a flow as having no
/// statically known schema and passes over it.
pub open spec fn source_props(
    nodes: Seq<NodeV>,
    store: SchemaStoreV,
    c: ConnectionV,
    cat: MsgCategory,
    f: FlowV,
) -> Option<Seq<PropertyFieldV>> {
    match find_node(nodes, c.app, c.extension) {
        Option::None => Option::None,
        Option::Some(si) => match find_addon(store.addons, addon_of(nodes[si])) {
            Option::None => Option::None,
            Option::Some(sa) => match find_msg(manifest_cat(store.addons[sa], cat), f.name) {
                Option::None => Option::None,
                Option::Some(sm) => Option::Some(
                    manifest_cat(store.addons[sa], cat)[sm].properties,
                ),
            },
        },
    }
}

/// The index of the first conversion rule at or after `from` whose source
/// field is absent from the statically known properties, if any.
pub open spec fn first_unknown_field_from(
    rules: Seq<crate::model::FieldRuleV>,
    props: Seq<PropertyFieldV>,
    from: int,
) -> Option<int>
    decreases rules.len() - from,
{
    if !(0 <= from < rules.len()) {
        Option::None
    } else if find_field(props, rules[from].from) is None {
        Option::Some(from)
    } else {
        first_unknown_field_from(rules, props, from + 1)
    }
}

/// The index of the first conversion rule referencing an unknown field of
/// one flow/destination pair, if any. A destination without a conversion,
/// and a flow whose source schema is not statically known, have nothing to
/// report.
pub open spec fn conv_issue(
    nodes: Seq<NodeV>,
    store: SchemaStoreV,
    c: ConnectionV,
    cat: MsgCategory,
    f: FlowV,
    d: DestinationV,
) -> Option<int> {
    match d.msg_conversion {
        Option::None => Option::None,
        Option::Some(conv) => match source_props(nodes, store, c, cat, f) {
            Option::None => Option::None,
            Option::Some(props) => first_unknown_field_from(conv.rules, props, 0),
        },
    }
}

/// Whether no conversion of one category of one connection group
/// references an unknown field.
pub open spec fn cat_conv_ok(
    nodes: Seq<NodeV>,
    store: SchemaStoreV,
    c: ConnectionV,
    cat: MsgCategory,
) -> bool {
    forall|fi: int, di: int|
        0 <= fi < conn_flows(c, cat).len() && 0 <= di < conn_flows(c, cat)[fi].dest.len()
            ==> #[trigger] conv_issue(
            nodes,
            store,
            c,
            cat,
            conn_flows(c, cat)[fi],
            conn_flows(c, cat)[fi].dest[di],
        ) is None
}

/// Whether no conversion of one connection group references an unknown
/// field, over all four categories.
pub open spec fn conn_conv_ok(nodes: Seq<NodeV>, store: SchemaStoreV, c: ConnectionV) -> bool {
    &&& cat_conv_ok(nodes, store, c, MsgCategory::Cmd)
    &&& cat_conv_ok(nodes, store, c, MsgCategory::Data)
    &&& cat_conv_ok(nodes, store, c, MsgCategory::AudioFrame)
    &&& cat_conv_ok(nodes, store, c, MsgCategory::VideoFrame)
}

/// Whether no conversion of the graph references an unknown field.
pub open spec fn graph_conv_ok(g: GraphV, store: SchemaStoreV) -> bool {
    forall|ci: int|
        0 <= ci < g.connections.len() ==> conn_conv_ok(
            g.nodes,
            store,
            #[trigger] g.connections[ci],
        )
}

/// Whether `(ci, cat, fi, di)` pins down the first conversion defect in
/// scan order — connection groups, then categories by [`cat_rank`], then
/// flows, then destinations, each in declaration order — and `k` indexes
/// the offending rule of that destination's conversion.
pub open spec fn first_conv_issue(
    g: GraphV,
    store: SchemaStoreV,
    ci: int,
    cat: MsgCategory,
    fi: int,
    di: int,
    k: int,
) -> bool {
    &&& 0 <= ci < g.connections.len()
    &&& 0 <= fi < conn_flows(g.connections[ci], cat).len()
    &&& 0 <= di < conn_flows(g.connections[ci], cat)[fi].dest.len()
    &&& conv_issue(
        g.nodes,
        store,
        g.connections[ci],
        cat,
        conn_flows(g.connections[ci], cat)[fi],
        conn_flows(g.connections[ci], cat)[fi].dest[di],
    ) == Option::Some(k)
    &&& forall|x: int| 0 <= x < ci ==> conn_conv_ok(g.nodes, store, #[trigger] g.connections[x])
    &&& forall|c2: MsgCategory|
        crate::destinations::cat_rank(c2) < crate::destinations::cat_rank(cat)
            ==> #[trigger] cat_conv_ok(g.nodes, store, g.connections[ci], c2)
    &&& forall|x: int, dj: int|
        0 <= x < fi && 0 <= dj < conn_flows(g.connections[ci], cat)[x].dest.len()
            ==> #[trigger] conv_issue(
            g.nodes,
            store,
            g.connections[ci],
            cat,
            conn_flows(g.connections[ci], cat)[x],
            conn_flows(g.connections[ci], cat)[x].dest[dj],
        ) is None
    &&& forall|x: int|
        0 <= x < di ==> #[trigger] conv_issue(
            g.nodes,
            store,
            g.connections[ci],
            cat,
            conn_flows(g.connections[ci], cat)[fi],
            conn_flows(g.connections[ci], cat)[fi].dest[x],
        ) is None
}

/// Looks up the statically known source-side properties of one flow.
fn source_props_of<'a>(
    nodes: &Vec<GraphNode>,
    store: &'a SchemaStore,
    c: &GraphConnection,
    cat: MsgCategory,
    f: &MessageFlow,
) -> (r: Option<&'a Vec<PropertyField>>)
    ensures
        r matches Some(p) ==> source_props(
            nodes.deep_view(),
            store.deep_view(),
            c.deep_view(),
            cat,
            f.deep_view(),
        ) == Option::Some(p.deep_view()),
        r is None ==> source_props(
            nodes.deep_view(),
            store.deep_view(),
            c.deep_view(),
            cat,
            f.deep_view(),
        ) is None,
{
    let si = match find_node_index(nodes, &c.app, &c.extension) {
        Some(i) => i,
        None => {
            return None;
        },
    };
    proof {
        lemma_first_node_is_ext(nodes.deep_view(), c.deep_view().app, c.deep_view().extension, 0);
        assert(nodes.deep_view()[si as int] == nodes@[si as int].deep_view());
    }
    let src_addon = node_addon(&nodes[si]);
    let sa = match find_addon_index(&store.addons, src_addon) {
        Some(i) => i,
        None => {
            return None;
        },
    };
    proof {
        assert(store.deep_view().addons[sa as int] == store.addons@[sa as int].deep_view());
    }
    let src_msgs = manifest_cat_list(&store.addons[sa], cat);
    let sm = match find_msg_index(src_msgs, &f.name) {
        Some(i) => i,
        None => {
            return None;
        },
    };
    proof {
        assert(src_msgs.deep_view()[sm as int] == src_msgs@[sm as int].deep_view());
    }
    Some(&src_msgs[sm].properties)
}

/// Checks one destination's conversion against the statically known
/// source properties; reports the index of the first rule referencing an
/// unknown field, if any.
fn check_dest_conversion(
    nodes: &Vec<GraphNode>,
    store: &SchemaStore,
    c: &GraphConnection,
    cat: MsgCategory,
    f: &MessageFlow,
    d: &Destination,
) -> (r: Option<usize>)
    ensures
        r matches Some(k) ==> d.deep_view().msg_conversion matches Option::Some(conv) && k
            < conv.rules.len() && conv_issue(
            nodes.deep_view(),
            store.deep_view(),
            c.deep_view(),
            cat,
            f.deep_view(),
            d.deep_view(),
        ) == Option::Some(k as int),
        r is None ==> conv_issue(
            nodes.deep_view(),
            store.deep_view(),
            c.deep_view(),
            cat,
            f.deep_view(),
            d.deep_view(),
        ) is None,
{
    let conv = match &d.msg_conversion {
        Option::None => {
            return None;
        },
        Option::Some(conv) => conv,
    };
    let props = match source_props_of(nodes, store, c, cat, f) {
        None => {
            return None;
        },
        Some(p) => p,
    };
    let ghost rv = conv.rules.deep_view();
    let ghost pv = props.deep_view();
    let mut k: usize = 0;
    while k < conv.rules.len()
        invariant
            rv == conv.rules.deep_view(),
            pv == props.deep_view(),
            d.deep_view().msg_conversion == Option::Some(conv.deep_view()),
            source_props(
                nodes.deep_view(),
                store.deep_view(),
                c.deep_view(),
                cat,
                f.deep_view(),
            ) == Option::Some(pv),
            k <= conv.rules@.len(),
            first_unknown_field_from(rv, pv, 0) == first_unknown_field_from(rv, pv, k as int),
        decreases conv.rules@.len() - k,
    {
        proof {
            assert(rv[k as int] == conv.rules@[k as int].deep_view());
        }
        if find_field_index(props, &conv.rules[k].from).is_none() {
            proof {
                assert(first_unknown_field_from(rv, pv, k as int) == Option::Some(k as int));
            }
            return Some(k);
        }
        k = k + 1;
    }
    None
}

/// Checks one category's flow list for a conversion referencing an
/// unknown field, scanning flows, destinations and rules in declaration
/// order; reports the first such rule's position, or success.
fn check_cat_conversions(
    nodes: &Vec<GraphNode>,
    store: &SchemaStore,
    c: &GraphConnection,
    v: &Vec<MessageFlow>,
    cat: MsgCategory,
) -> (r: Result<(), (usize, usize, usize)>)
    ensures
        r is Ok <==> forall|fi: int, di: int|
            0 <= fi < v.deep_view().len() && 0 <= di < v.deep_view()[fi].dest.len()
                ==> #[trigger] conv_issue(
                nodes.deep_view(),
                store.deep_view(),
                c.deep_view(),
                cat,
                v.deep_view()[fi],
                v.deep_view()[fi].dest[di],
            ) is None,
        r matches Err((fi, di, k)) ==> ({
            &&& fi < v@.len()
            &&& di < v.deep_view()[fi as int].dest.len()
            &&& v.deep_view()[fi as int].dest[di as int].msg_conversion matches Option::Some(conv)
                && k < conv.rules.len()
            &&& conv_issue(
                nodes.deep_view(),
                store.deep_view(),
                c.deep_view(),
                cat,
                v.deep_view()[fi as int],
                v.deep_view()[fi as int].dest[di as int],
            ) == Option::Some(k as int)
            &&& forall|x: int, dj: int|
                0 <= x < fi && 0 <= dj < v.deep_view()[x].dest.len() ==> #[trigger] conv_issue(
                    nodes.deep_view(),
                    store.deep_view(),
                    c.deep_view(),
                    cat,
                    v.deep_view()[x],
                    v.deep_view()[x].dest[dj],
                ) is None
            &&& forall|x: int|
                0 <= x < di ==> #[trigger] conv_issue(
                    nodes.deep_view(),
                    store.deep_view(),
                    c.deep_view(),
                    cat,
                    v.deep_view()[fi as int],
                    v.deep_view()[fi as int].dest[x],
                ) is None
        }),
{
    let ghost nv = nodes.deep_view();
    let ghost stv = store.deep_view();
    let ghost cv = c.deep_view();
    let ghost fv = v.deep_view();
    let mut fi: usize = 0;
    while fi < v.len()
        invariant
            nv == nodes.deep_view(),
            stv == store.deep_view(),
            cv == c.deep_view(),
            fv == v.deep_view(),
            fi <= v@.len(),
            forall|x: int, di: int|
                0 <= x < fi && 0 <= di < fv[x].dest.len() ==> #[trigger] conv_issue(
                    nv,
                    stv,
                    cv,
                    cat,
                    fv[x],
                    fv[x].dest[di],
                ) is None,
        decreases v@.len() - fi,
    {
        let flow = &v[fi];
        proof {
            assert(fv[fi as int] == flow.deep_view());
        }
        let mut di: usize = 0;
        while di < flow.dest.len()
            invariant
                nv == nodes.deep_view(),
                stv == store.deep_view(),
                cv == c.deep_view(),
                fv == v.deep_view(),
                fi < v@.len(),
                fv[fi as int] == flow.deep_view(),
                forall|x: int, dj: int|
                    0 <= x < fi && 0 <= dj < fv[x].dest.len() ==> #[trigger] conv_issue(
                        nv,
                        stv,
                        cv,
                        cat,
                        fv[x],
                        fv[x].dest[dj],
                    ) is None,
                di <= flow.dest@.len(),
                forall|x: int|
                    0 <= x < di ==> #[trigger] conv_issue(
                        nv,
                        stv,
                        cv,
                        cat,
                        fv[fi as int],
                        fv[fi as int].dest[x],
                    ) is None,
            decreases flow.dest@.len() - di,
        {
            let d = &flow.dest[di];
            proof {
                assert(flow.deep_view().dest[di as int] == d.deep_view());
            }
            if let Some(k) = check_dest_conversion(nodes, store, c, cat, flow, d) {
                return Err((fi, di, k));
            }
            di = di + 1;
        }
        fi = fi + 1;
    }
    Ok(())
}

impl Graph {
    /// Validates that every message conversion references only fields the
    /// statically known source schema declares. Validation passes exactly
    /// when no conversion rule names an unknown field; otherwise it fails
    /// naming the flow, the destination and the first unknown field in
    /// scan order. A flow whose source schema cannot be found is passed
    /// over here: that defect belongs to the schema-compatibility check.
    pub fn check_conversion_fields(&self, store: &SchemaStore) -> (r: Result<(), ValidationError>)
        ensures
            r is Ok <==> graph_conv_ok(self.deep_view(), store.deep_view()),
            r matches Err(e) ==> ({
                &&& e matches ValidationError::InvalidConversion {
                    flow_name,
                    dest_app,
                    dest_extension,
                    field,
                }
                &&& exists|ci: int, cat: MsgCategory, fi: int, di: int|
                    {
                        &&& #[trigger] conv_issue(
                            self.deep_view().nodes,
                            store.deep_view(),
                            self.deep_view().connections[ci],
                            cat,
                            conn_flows(self.deep_view().connections[ci], cat)[fi],
                            conn_flows(self.deep_view().connections[ci], cat)[fi].dest[di],
                        ) matches Option::Some(k) && first_conv_issue(
                            self.deep_view(),
                            store.deep_view(),
                            ci,
                            cat,
                            fi,
                            di,
                            k,
                        ) && (conn_flows(
                            self.deep_view().connections[ci],
                            cat,
                        )[fi].dest[di].msg_conversion matches Option::Some(conv) && 0 <= k
                            < conv.rules.len() && field@ == conv.rules[k].from)
                        &&& flow_name@ == conn_flows(self.deep_view().connections[ci], cat)[fi].name
                        &&& dest_app.deep_view() == conn_flows(
                            self.deep_view().connections[ci],
                            cat,
                        )[fi].dest[di].app
                        &&& dest_extension@ == conn_flows(
                            self.deep_view().connections[ci],
                            cat,
                        )[fi].dest[di].extension
                    }
            }),
    {
        let ghost gv = self.deep_view();
        let ghost stv = store.deep_view();
        let mut ci: usize = 0;
        while ci < self.connections.len()
            invariant
                gv == self.deep_view(),
                stv == store.deep_view(),
                ci <= self.connections@.len(),
                forall|x: int|
                    0 <= x < ci ==> conn_conv_ok(gv.nodes, stv, #[trigger] gv.connections[x]),
            decreases self.connections@.len() - ci,
        {
            let c = &self.connections[ci];
            proof {
                assert(gv.connections[ci as int] == c.deep_view());
            }
            if let Option::Some(v) = &c.cmd {
                proof {
                    assert(conn_flows(c.deep_view(), MsgCategory::Cmd) == v.deep_view());
                }
                if let Err((fi, di, k)) = check_cat_conversions(&self.nodes, store, c, v, MsgCategory::Cmd) {
                    proof {
                        assert(forall|c2: MsgCategory|
                            crate::destinations::cat_rank(c2) < crate::destinations::cat_rank(
                                MsgCategory::Cmd,
                            ) ==> #[trigger] cat_conv_ok(
                                gv.nodes,
                                stv,
                                gv.connections[ci as int],
                                c2,
                            ));
                        assert(first_conv_issue(
                            gv,
                            stv,
                            ci as int,
                            MsgCategory::Cmd,
                            fi as int,
                            di as int,
                            k as int,
                        ));
                    }
                    return Err(self.conversion_error(v, fi, di, k));
                }
            }
            proof {
                assert(cat_conv_ok(gv.nodes, stv, gv.connections[ci as int], MsgCategory::Cmd));
            }
            if let Option::Some(v) = &c.data {
                proof {
                    assert(conn_flows(c.deep_view(), MsgCategory::Data) == v.deep_view());
                }
                if let Err((fi, di, k)) = check_cat_conversions(&self.nodes, store, c, v, MsgCategory::Data) {
                    proof {
                        assert(forall|c2: MsgCategory|
                            crate::destinations::cat_rank(c2) < crate::destinations::cat_rank(
                                MsgCategory::Data,
                            ) ==> #[trigger] cat_conv_ok(
                                gv.nodes,
                                stv,
                                gv.connections[ci as int],
                                c2,
                            ));
                        assert(first_conv_issue(
                            gv,
                            stv,
                            ci as int,
                            MsgCategory::Data,
                            fi as int,
                            di as int,
                            k as int,
                        ));
                    }
                    return Err(self.conversion_error(v, fi, di, k));
                }
            }
            proof {
                assert(cat_conv_ok(gv.nodes, stv, gv.connections[ci as int], MsgCategory::Data));
            }
            if let Option::Some(v) = &c.audio_frame {
                proof {
                    assert(conn_flows(c.deep_view(), MsgCategory::AudioFrame) == v.deep_view());
                }
                if let Err((fi, di, k)) = check_cat_conversions(&self.nodes, store, c, v, MsgCategory::AudioFrame) {
                    proof {
                        assert(forall|c2: MsgCategory|
                            crate::destinations::cat_rank(c2) < crate::destinations::cat_rank(
                                MsgCategory::AudioFrame,
                            ) ==> #[trigger] cat_conv_ok(
                                gv.nodes,
                                stv,
                                gv.connections[ci as int],
                                c2,
                            ));
                        assert(first_conv_issue(
                            gv,
                            stv,
                            ci as int,
                            MsgCategory::AudioFrame,
                            fi as int,
                            di as int,
                            k as int,
                        ));
                    }
                    return Err(self.conversion_error(v, fi, di, k));
                }
            }
            proof {
                assert(cat_conv_ok(gv.nodes, stv, gv.connections[ci as int], MsgCategory::AudioFrame));
            }
            if let Option::Some(v) = &c.video_frame {
                proof {
                    assert(conn_flows(c.deep_view(), MsgCategory::VideoFrame) == v.deep_view());
                }
                if let Err((fi, di, k)) = check_cat_conversions(&self.nodes, store, c, v, MsgCategory::VideoFrame) {
                    proof {
                        assert(forall|c2: MsgCategory|
                            crate::destinations::cat_rank(c2) < crate::destinations::cat_rank(
                                MsgCategory::VideoFrame,
                            ) ==> #[trigger] cat_conv_ok(
                                gv.nodes,
                                stv,
                                gv.connections[ci as int],
                                c2,
                            ));
                        assert(first_conv_issue(
                            gv,
                            stv,
                            ci as int,
                            MsgCategory::VideoFrame,
                            fi as int,
                            di as int,
                            k as int,
                        ));
                    }
                    return Err(self.conversion_error(v, fi, di, k));
                }
            }
            proof {
                assert(cat_conv_ok(gv.nodes, stv, gv.connections[ci as int], MsgCategory::VideoFrame));
            }
            proof {
                assert(conn_conv_ok(gv.nodes, stv, gv.connections[ci as int]));
            }
            ci = ci + 1;
        }
        Ok(())
    }

    /// Builds the invalid-conversion error for the defect
    /// `check_conversion_fields` found.
    fn conversion_error(&self, v: &Vec<MessageFlow>, fi: usize, di: usize, k: usize) -> (e:
        ValidationError)
        requires
            fi < v@.len(),
            di < v.deep_view()[fi as int].dest.len(),
            v.deep_view()[fi as int].dest[di as int].msg_conversion matches Option::Some(conv) && k
                < conv.rules.len(),
        ensures
            e matches ValidationError::InvalidConversion {
                flow_name,
                dest_app,
                dest_extension,
                field,
            } && flow_name@ == v.deep_view()[fi as int].name && dest_app.deep_view()
                == v.deep_view()[fi as int].dest[di as int].app && dest_extension@
                == v.deep_view()[fi as int].dest[di as int].extension && (v.deep_view()[
                fi as int
            ].dest[di as int].msg_conversion matches Option::Some(conv) && field@
                == conv.rules[k as int].from),
    {
        let flow = &v[fi];
        let d = &flow.dest[di];
        proof {
            assert(v.deep_view()[fi as int] == flow.deep_view());
            assert(flow.deep_view().dest[di as int] == d.deep_view());
        }
        let conv = match &d.msg_conversion {
            Option::Some(conv) => conv,
            Option::None => {
                return ValidationError::InvalidConversion {
                    flow_name: flow.name.clone(),
                    dest_app: crate::model::clone_opt_string(&d.app),
                    dest_extension: d.extension.clone(),
                    field: String::new(),
                };
            },
        };
        proof {
            assert(conv.rules.deep_view()[k as int] == conv.rules@[k as int].deep_view());
        }
        ValidationError::InvalidConversion {
            flow_name: flow.name.clone(),
            dest_app: crate::model::clone_opt_string(&d.app),
            dest_extension: d.extension.clone(),
            field: conv.rules[k].from.clone(),
        }
    }
}

proof fn lemma_first_node_is_ext(
    nodes: Seq<NodeV>,
    app: Option<Seq<char>>,
    extension: Seq<char>,
    from: int,
)
    ensures
        first_node_from(nodes, app, extension, from) matches Option::Some(i) ==> from <= i
            < nodes.len() && nodes[i] is Extension,
    decreases nodes.len() - from,
{
    if 0 <= from < nodes.len() && !crate::model::node_has_addr(nodes[from], app, extension) {
        lemma_first_node_is_ext(nodes, app, extension, from + 1);
    }
}

} // verus!

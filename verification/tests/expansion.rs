use flowgraph::errors::{ExpandError, GraphDefect, ValidationError};
use flowgraph::model::{
    Destination, ExtensionNode, Graph, GraphConnection, GraphEntry, GraphNode, GraphStore,
    MessageFlow, SubgraphNode,
};
use flowgraph::schema::{AddonManifest, MessageSchema, SchemaStore};

fn ext(name: &str, addon: &str) -> GraphNode {
    GraphNode::Extension(ExtensionNode {
        app: None,
        addon: addon.to_string(),
        name: name.to_string(),
        subgraph_origin: None,
        property: None,
    })
}

fn sub(name: &str, graph_ref: &str) -> GraphNode {
    GraphNode::Subgraph(SubgraphNode { name: name.to_string(), graph_ref: graph_ref.to_string() })
}

fn dest(name: &str) -> Destination {
    Destination { app: None, extension: name.to_string(), msg_conversion: None }
}

fn flow(name: &str, dests: &[&str]) -> MessageFlow {
    MessageFlow { name: name.to_string(), dest: dests.iter().map(|d| dest(d)).collect() }
}

fn cmd_conn(extension: &str, flows: Vec<MessageFlow>) -> GraphConnection {
    GraphConnection {
        app: None,
        extension: extension.to_string(),
        cmd: Some(flows),
        data: None,
        audio_frame: None,
        video_frame: None,
    }
}

fn entry(id: &str, graph: Graph) -> GraphEntry {
    GraphEntry { id: id.to_string(), graph }
}

fn addon_manifest(name: &str, cmd: Vec<MessageSchema>) -> AddonManifest {
    AddonManifest {
        addon: name.to_string(),
        cmd,
        data: vec![],
        audio_frame: vec![],
        video_frame: vec![],
    }
}

fn inner_graph() -> Graph {
    Graph {
        name: Some("inner".to_string()),
        nodes: vec![ext("extension_a", "addon_a"), ext("extension_b", "addon_b")],
        connections: vec![cmd_conn(
            "extension_a",
            vec![flow("ping", &["extension_b", "outside_port"])],
        )],
    }
}

fn outer_graph() -> Graph {
    Graph {
        name: Some("outer".to_string()),
        nodes: vec![ext("extension_1", "addon_1"), sub("stage", "inner_id")],
        connections: vec![cmd_conn("extension_1", vec![flow("hello_world", &["extension_2"])])],
    }
}

#[test]
fn extension_nodes_pass_through_unchanged() {
    let store = GraphStore { entries: vec![] };
    let graph = Graph {
        name: None,
        nodes: vec![ext("extension_1", "addon_1")],
        connections: vec![cmd_conn("extension_1", vec![flow("hello_world", &["extension_1"])])],
    };
    let flat = graph.flatten(&store).unwrap();
    assert_eq!(flat, graph);
}

#[test]
fn subgraph_nodes_are_qualified_with_dotted_names() {
    let store = GraphStore { entries: vec![entry("inner_id", inner_graph())] };
    let flat = outer_graph().flatten(&store).unwrap();

    let names: Vec<&str> = flat
        .nodes
        .iter()
        .map(|n| match n {
            GraphNode::Extension(e) => e.name.as_str(),
            GraphNode::Subgraph(s) => s.name.as_str(),
        })
        .collect();
    assert_eq!(names, vec!["extension_1", "stage.extension_a", "stage.extension_b"]);

    // The flattened nodes record which subgraph node they came from.
    match &flat.nodes[1] {
        GraphNode::Extension(e) => {
            assert_eq!(e.subgraph_origin, Some("stage".to_string()));
            assert_eq!(e.addon, "addon_a");
        },
        GraphNode::Subgraph(_) => panic!("expected an extension node"),
    }
}

#[test]
fn inner_destinations_are_rewritten_external_ports_kept() {
    let store = GraphStore { entries: vec![entry("inner_id", inner_graph())] };
    let flat = outer_graph().flatten(&store).unwrap();

    // The outer connection comes first, unchanged; the inner one follows,
    // its source and its inner destination qualified, while the
    // destination that addresses no inner node is left as an external
    // port name.
    assert_eq!(flat.connections.len(), 2);
    assert_eq!(flat.connections[0].extension, "extension_1");
    assert_eq!(flat.connections[1].extension, "stage.extension_a");
    let inner_cmd = flat.connections[1].cmd.as_ref().unwrap();
    assert_eq!(inner_cmd[0].name, "ping");
    assert_eq!(inner_cmd[0].dest[0].extension, "stage.extension_b");
    assert_eq!(inner_cmd[0].dest[1].extension, "outside_port");
}

#[test]
fn expansion_is_deterministic() {
    let store = GraphStore { entries: vec![entry("inner_id", inner_graph())] };
    let graph = outer_graph();
    let first = graph.flatten(&store).unwrap();
    let second = graph.flatten(&store).unwrap();
    assert_eq!(first, second);
}

#[test]
fn unresolvable_subgraph_is_reported() {
    let store = GraphStore { entries: vec![] };
    let result = outer_graph().flatten(&store);
    assert_eq!(
        result,
        Err(ExpandError::UnresolvableSubgraph {
            node_name: "stage".to_string(),
            graph_ref: "inner_id".to_string(),
        })
    );
}

#[test]
fn cyclic_subgraph_reference_is_reported() {
    let self_referential = Graph {
        name: None,
        nodes: vec![sub("loop_stage", "cyclic_id")],
        connections: vec![],
    };
    let store = GraphStore { entries: vec![entry("cyclic_id", self_referential.clone())] };
    let result = self_referential.flatten(&store);
    assert_eq!(
        result,
        Err(ExpandError::CyclicSubgraphReference {
            chain: vec!["cyclic_id".to_string(), "cyclic_id".to_string()],
        })
    );
}

#[test]
fn nested_subgraphs_qualify_twice() {
    let leaf = Graph {
        name: None,
        nodes: vec![ext("extension_leaf", "addon_leaf")],
        connections: vec![],
    };
    let middle = Graph {
        name: None,
        nodes: vec![sub("mid", "leaf_id")],
        connections: vec![],
    };
    let top = Graph { name: None, nodes: vec![sub("top", "middle_id")], connections: vec![] };
    let store = GraphStore {
        entries: vec![entry("leaf_id", leaf), entry("middle_id", middle)],
    };
    let flat = top.flatten(&store).unwrap();
    match &flat.nodes[0] {
        GraphNode::Extension(e) => {
            assert_eq!(e.name, "top.mid.extension_leaf");
            assert_eq!(e.subgraph_origin, Some("top".to_string()));
        },
        GraphNode::Subgraph(_) => panic!("expected an extension node"),
    }
}

#[test]
fn nesting_beyond_the_ceiling_is_reported() {
    // A chain of 70 distinct references is deeper than the depth budget
    // allows, without ever being cyclic.
    let mut entries = Vec::new();
    for i in 0..70 {
        let graph = if i == 69 {
            Graph { name: None, nodes: vec![ext("extension_leaf", "addon_leaf")], connections: vec![] }
        } else {
            Graph {
                name: None,
                nodes: vec![sub(&format!("stage_{i}"), &format!("graph_{}", i + 1))],
                connections: vec![],
            }
        };
        entries.push(entry(&format!("graph_{i}"), graph));
    }
    let store = GraphStore { entries };
    let top = Graph { name: None, nodes: vec![sub("stage_top", "graph_0")], connections: vec![] };
    let result = top.flatten(&store);
    assert!(matches!(result, Err(ExpandError::DepthExceeded { .. })));
}

#[test]
fn flatten_and_validate_reports_defects_of_the_flat_graph() {
    let schemas = SchemaStore {
        addons: vec![
            addon_manifest(
                "addon_a",
                vec![MessageSchema { name: "ping".to_string(), properties: vec![] }],
            ),
            addon_manifest(
                "addon_b",
                vec![MessageSchema { name: "ping".to_string(), properties: vec![] }],
            ),
        ],
    };
    let graphs = GraphStore { entries: vec![entry("inner_id", inner_graph())] };

    // The inner graph's flow also targets "outside_port", which the
    // flattened graph does not contain: preparation fails on the
    // flattened namespace.
    let graph = Graph { name: None, nodes: vec![sub("stage", "inner_id")], connections: vec![] };
    let result = graph.flatten_and_validate(&graphs, &schemas);
    assert!(matches!(
        result,
        Err(GraphDefect::Validation(ValidationError::DanglingDestination { dest_index: 1, .. }))
    ));

    // An unresolvable reference surfaces as an expansion defect.
    let empty_store = GraphStore { entries: vec![] };
    let result = graph.flatten_and_validate(&empty_store, &schemas);
    assert!(matches!(result, Err(GraphDefect::Expansion(ExpandError::UnresolvableSubgraph { .. }))));

    // A self-contained subgraph passes the whole preparation.
    let contained = Graph {
        name: None,
        nodes: vec![ext("extension_a", "addon_a"), ext("extension_b", "addon_b")],
        connections: vec![cmd_conn("extension_a", vec![flow("ping", &["extension_b"])])],
    };
    let graphs = GraphStore { entries: vec![entry("inner_id", contained)] };
    let flat = graph.flatten_and_validate(&graphs, &schemas).unwrap();
    assert_eq!(flat.nodes.len(), 2);
}

#[test]
fn flattened_subgraph_validates_and_resolves() {
    let store = GraphStore { entries: vec![entry("inner_id", inner_graph())] };
    let graph = Graph {
        name: None,
        nodes: vec![sub("stage", "inner_id")],
        connections: vec![],
    };
    let flat = graph.flatten(&store).unwrap();
    assert_eq!(flat.check_extension_uniqueness(), Ok(()));

    let records = flat.resolve_connections();
    assert_eq!(records.len(), 1);
    assert_eq!(records[0].extension, "stage.extension_a");
    assert_eq!(records[0].subgraph, Some("stage".to_string()));
}

use flowgraph::errors::QueryError;
use flowgraph::model::{
    Destination, ExtensionNode, Graph, GraphConnection, GraphEntry, GraphNode, GraphStore,
    MessageFlow,
};
use flowgraph::resolve::ExtensionConnections;

fn ext(name: &str, addon: &str) -> GraphNode {
    GraphNode::Extension(ExtensionNode {
        app: None,
        addon: addon.to_string(),
        name: name.to_string(),
        subgraph_origin: None,
        property: None,
    })
}

fn dest(name: &str) -> Destination {
    Destination { app: None, extension: name.to_string(), msg_conversion: None }
}

fn flow(name: &str, dests: &[&str]) -> MessageFlow {
    MessageFlow { name: name.to_string(), dest: dests.iter().map(|d| dest(d)).collect() }
}

fn conn(
    extension: &str,
    cmd: Option<Vec<MessageFlow>>,
    data: Option<Vec<MessageFlow>>,
    audio_frame: Option<Vec<MessageFlow>>,
    video_frame: Option<Vec<MessageFlow>>,
) -> GraphConnection {
    GraphConnection {
        app: None,
        extension: extension.to_string(),
        cmd,
        data,
        audio_frame,
        video_frame,
    }
}

fn two_ext_graph(connections: Vec<GraphConnection>) -> Graph {
    Graph {
        name: Some("default".to_string()),
        nodes: vec![
            ext("extension_1", "extension_addon_1"),
            ext("extension_2", "extension_addon_2"),
        ],
        connections,
    }
}

fn store_with(graph: Graph) -> GraphStore {
    GraphStore { entries: vec![GraphEntry { id: "default".to_string(), graph }] }
}

#[test]
fn test_get_connections_success() {
    let graph = two_ext_graph(vec![conn(
        "extension_1",
        Some(vec![flow("hello_world", &["extension_2"])]),
        None,
        None,
        None,
    )]);
    let store = store_with(graph);

    let result = store.resolve_connections(&"default".to_string());
    assert!(result.is_ok());

    let connections = result.unwrap();
    let expected_connections = vec![ExtensionConnections {
        app: None,
        extension: "extension_1".to_string(),
        subgraph: None,
        cmd: Some(vec![MessageFlow {
            name: "hello_world".to_string(),
            dest: vec![Destination {
                app: None,
                extension: "extension_2".to_string(),
                msg_conversion: None,
            }],
        }]),
        data: None,
        audio_frame: None,
        video_frame: None,
    }];

    assert_eq!(connections, expected_connections);
    assert!(!connections.is_empty());
}

#[test]
fn test_get_connections_have_all_data_type() {
    let graph = two_ext_graph(vec![conn(
        "extension_1",
        Some(vec![flow("hello_world", &["extension_2"])]),
        Some(vec![flow("data", &["extension_2"])]),
        Some(vec![flow("pcm", &["extension_2"])]),
        Some(vec![flow("image", &["extension_2"])]),
    )]);
    let store = store_with(graph);

    let result = store.resolve_connections(&"default".to_string());
    assert!(result.is_ok());

    let connections = result.unwrap();
    let single_dest = vec![Destination {
        app: None,
        extension: "extension_2".to_string(),
        msg_conversion: None,
    }];
    let expected_connections = vec![ExtensionConnections {
        app: None,
        extension: "extension_1".to_string(),
        subgraph: None,
        cmd: Some(vec![MessageFlow { name: "hello_world".to_string(), dest: single_dest.clone() }]),
        data: Some(vec![MessageFlow { name: "data".to_string(), dest: single_dest.clone() }]),
        audio_frame: Some(vec![MessageFlow { name: "pcm".to_string(), dest: single_dest.clone() }]),
        video_frame: Some(vec![MessageFlow { name: "image".to_string(), dest: single_dest }]),
    }];

    assert_eq!(connections, expected_connections);
    assert!(!connections.is_empty());
}

#[test]
fn omitted_category_is_absent_not_empty() {
    // A node with zero data flows yields a record whose data is absent,
    // whether the category was omitted or declared as an empty list.
    let graph = two_ext_graph(vec![conn(
        "extension_1",
        Some(vec![flow("hello_world", &["extension_2"])]),
        None,
        None,
        None,
    )]);
    let records = graph.resolve_connections();
    assert_eq!(records.len(), 1);
    assert!(records[0].data.is_none());

    let graph_empty = two_ext_graph(vec![conn(
        "extension_1",
        Some(vec![flow("hello_world", &["extension_2"])]),
        Some(vec![]),
        None,
        None,
    )]);
    let records_empty = graph_empty.resolve_connections();
    assert_eq!(records_empty.len(), 1);
    assert!(records_empty[0].data.is_none());
}

#[test]
fn extension_without_flows_is_omitted() {
    // extension_2 has a connection group with no flows at all: no record.
    let graph = two_ext_graph(vec![
        conn("extension_1", Some(vec![flow("hello_world", &["extension_2"])]), None, None, None),
        conn("extension_2", None, None, Some(vec![]), None),
    ]);
    let records = graph.resolve_connections();
    assert_eq!(records.len(), 1);
    assert_eq!(records[0].extension, "extension_1");
}

#[test]
fn output_follows_node_declaration_order() {
    let mut graph = two_ext_graph(vec![
        conn("extension_2", Some(vec![flow("b", &["extension_1"])]), None, None, None),
        conn("extension_1", Some(vec![flow("a", &["extension_2"])]), None, None, None),
    ]);
    let records = graph.resolve_connections();
    assert_eq!(records.len(), 2);
    assert_eq!(records[0].extension, "extension_1");
    assert_eq!(records[1].extension, "extension_2");

    // Reversing the node order reverses the record order.
    graph.nodes.reverse();
    let records = graph.resolve_connections();
    assert_eq!(records[0].extension, "extension_2");
    assert_eq!(records[1].extension, "extension_1");
}

#[test]
fn destination_order_is_preserved() {
    let mut graph = Graph {
        name: None,
        nodes: vec![
            ext("extension_1", "addon_1"),
            ext("extension_2", "addon_2"),
            ext("extension_3", "addon_3"),
        ],
        connections: vec![conn(
            "extension_1",
            Some(vec![flow("hello_world", &["extension_2", "extension_3"])]),
            None,
            None,
            None,
        )],
    };
    let before = graph.resolve_connections();
    let cmd = before[0].cmd.as_ref().unwrap();
    assert_eq!(cmd[0].dest[0].extension, "extension_2");
    assert_eq!(cmd[0].dest[1].extension, "extension_3");

    // Permuting the declared destinations permutes the output the same
    // way and changes nothing else.
    graph.connections[0].cmd = Some(vec![flow("hello_world", &["extension_3", "extension_2"])]);
    let after = graph.resolve_connections();
    let cmd = after[0].cmd.as_ref().unwrap();
    assert_eq!(cmd[0].dest[0].extension, "extension_3");
    assert_eq!(cmd[0].dest[1].extension, "extension_2");
    assert_eq!(after[0].extension, before[0].extension);
    assert_eq!(after[0].app, before[0].app);
    assert_eq!(after[0].data, before[0].data);
    assert_eq!(after[0].audio_frame, before[0].audio_frame);
    assert_eq!(after[0].video_frame, before[0].video_frame);
    assert_eq!(cmd[0].name, "hello_world");
}

#[test]
fn resolving_twice_is_identical() {
    let graph = two_ext_graph(vec![conn(
        "extension_1",
        Some(vec![flow("hello_world", &["extension_2"])]),
        Some(vec![flow("data", &["extension_2"])]),
        None,
        None,
    )]);
    let first = graph.resolve_connections();
    let second = graph.resolve_connections();
    assert_eq!(first, second);
}

#[test]
fn unknown_graph_id_is_not_found() {
    let store = store_with(two_ext_graph(vec![]));
    let result = store.resolve_connections(&"missing".to_string());
    assert_eq!(result, Err(QueryError::NotFound { graph_id: "missing".to_string() }));
}

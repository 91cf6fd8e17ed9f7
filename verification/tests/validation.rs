use flowgraph::errors::{SchemaIssue, ValidationError};
use flowgraph::model::{
    Destination, ExtensionNode, FieldRule, Graph, GraphConnection, GraphNode, MessageFlow,
    MsgCategory, MsgConversion,
};
use flowgraph::schema::{AddonManifest, MessageSchema, PropertyField, SchemaStore};

fn ext(name: &str, addon: &str) -> GraphNode {
    GraphNode::Extension(ExtensionNode {
        app: None,
        addon: addon.to_string(),
        name: name.to_string(),
        subgraph_origin: None,
        property: None,
    })
}

fn ext_in_app(app: &str, name: &str, addon: &str) -> GraphNode {
    GraphNode::Extension(ExtensionNode {
        app: Some(app.to_string()),
        addon: addon.to_string(),
        name: name.to_string(),
        subgraph_origin: None,
        property: None,
    })
}

fn dest(name: &str) -> Destination {
    Destination { app: None, extension: name.to_string(), msg_conversion: None }
}

fn flow(name: &str, dests: &[&str]) -> MessageFlow {
    MessageFlow { name: name.to_string(), dest: dests.iter().map(|d| dest(d)).collect() }
}

fn cmd_conn(extension: &str, flows: Vec<MessageFlow>) -> GraphConnection {
    GraphConnection {
        app: None,
        extension: extension.to_string(),
        cmd: Some(flows),
        data: None,
        audio_frame: None,
        video_frame: None,
    }
}

fn schema(name: &str, props: &[(&str, &str)]) -> MessageSchema {
    MessageSchema {
        name: name.to_string(),
        properties: props
            .iter()
            .map(|(n, t)| PropertyField { name: n.to_string(), value_type: t.to_string() })
            .collect(),
    }
}

fn manifest(addon: &str, cmd: Vec<MessageSchema>) -> AddonManifest {
    AddonManifest {
        addon: addon.to_string(),
        cmd,
        data: vec![],
        audio_frame: vec![],
        video_frame: vec![],
    }
}

fn hello_world_store() -> SchemaStore {
    SchemaStore {
        addons: vec![
            manifest("addon_1", vec![schema("hello_world", &[("text", "string")])]),
            manifest("addon_2", vec![schema("hello_world", &[("text", "string")])]),
        ],
    }
}

#[test]
fn duplicate_extension_names_second_index() {
    let graph = Graph {
        name: None,
        nodes: vec![
            ext("extension_1", "addon_1"),
            ext("extension_2", "addon_2"),
            ext("extension_1", "addon_3"),
        ],
        connections: vec![],
    };
    assert_eq!(
        graph.check_extension_uniqueness(),
        Err(ValidationError::DuplicateExtension {
            node_index: 2,
            addon: "addon_3".to_string(),
            name: "extension_1".to_string(),
        })
    );
}

#[test]
fn distinct_extensions_pass_uniqueness() {
    let graph = Graph {
        name: None,
        nodes: vec![ext("extension_1", "addon_1"), ext("extension_2", "addon_1")],
        connections: vec![],
    };
    assert_eq!(graph.check_extension_uniqueness(), Ok(()));
}

#[test]
fn same_name_in_other_app_is_no_duplicate() {
    let graph = Graph {
        name: None,
        nodes: vec![
            ext("extension_1", "addon_1"),
            ext_in_app("msgpack://host-b/", "extension_1", "addon_1"),
        ],
        connections: vec![],
    };
    assert_eq!(graph.check_extension_uniqueness(), Ok(()));
}

#[test]
fn absent_app_equals_empty_app_uri() {
    // An absent app URI and an explicitly empty one address the same
    // (local) application, so these two nodes collide.
    let graph = Graph {
        name: None,
        nodes: vec![ext("extension_1", "addon_1"), ext_in_app("", "extension_1", "addon_2")],
        connections: vec![],
    };
    assert_eq!(
        graph.check_extension_uniqueness(),
        Err(ValidationError::DuplicateExtension {
            node_index: 1,
            addon: "addon_2".to_string(),
            name: "extension_1".to_string(),
        })
    );
}

#[test]
fn dangling_destination_names_flow_and_index() {
    let graph = Graph {
        name: None,
        nodes: vec![ext("extension_1", "addon_1"), ext("extension_2", "addon_2")],
        connections: vec![cmd_conn(
            "extension_1",
            vec![flow("hello_world", &["extension_2", "extension_3"])],
        )],
    };
    assert_eq!(
        graph.check_destination_existence(),
        Err(ValidationError::DanglingDestination {
            src_app: None,
            src_extension: "extension_1".to_string(),
            category: MsgCategory::Cmd,
            flow_name: "hello_world".to_string(),
            dest_index: 1,
        })
    );
}

#[test]
fn removing_dangling_destination_passes() {
    let mut graph = Graph {
        name: None,
        nodes: vec![ext("extension_1", "addon_1"), ext("extension_2", "addon_2")],
        connections: vec![cmd_conn(
            "extension_1",
            vec![flow("hello_world", &["extension_2", "extension_3"])],
        )],
    };
    assert!(graph.check_destination_existence().is_err());

    // Dropping the dangling destination makes the same graph pass.
    graph.connections[0].cmd = Some(vec![flow("hello_world", &["extension_2"])]);
    assert_eq!(graph.check_destination_existence(), Ok(()));
}

#[test]
fn adding_missing_node_passes() {
    let mut graph = Graph {
        name: None,
        nodes: vec![ext("extension_1", "addon_1"), ext("extension_2", "addon_2")],
        connections: vec![cmd_conn(
            "extension_1",
            vec![flow("hello_world", &["extension_2", "extension_3"])],
        )],
    };
    assert!(graph.check_destination_existence().is_err());

    graph.nodes.push(ext("extension_3", "addon_3"));
    assert_eq!(graph.check_destination_existence(), Ok(()));
}

#[test]
fn compatible_schemas_pass() {
    let graph = Graph {
        name: None,
        nodes: vec![ext("extension_1", "addon_1"), ext("extension_2", "addon_2")],
        connections: vec![cmd_conn("extension_1", vec![flow("hello_world", &["extension_2"])])],
    };
    assert_eq!(graph.check_schema_compatibility(&hello_world_store()), Ok(()));
}

#[test]
fn undeclared_destination_message_fails() {
    let graph = Graph {
        name: None,
        nodes: vec![ext("extension_1", "addon_1"), ext("extension_2", "addon_2")],
        connections: vec![cmd_conn("extension_1", vec![flow("hello_world", &["extension_2"])])],
    };
    let store = SchemaStore {
        addons: vec![
            manifest("addon_1", vec![schema("hello_world", &[("text", "string")])]),
            manifest("addon_2", vec![]),
        ],
    };
    assert_eq!(
        graph.check_schema_compatibility(&store),
        Err(ValidationError::SchemaMismatch {
            flow_name: "hello_world".to_string(),
            src_app: None,
            src_extension: "extension_1".to_string(),
            dest_app: None,
            dest_extension: "extension_2".to_string(),
            detail: SchemaIssue::DestMessageUndeclared,
        })
    );
}

#[test]
fn disagreeing_field_types_fail() {
    let graph = Graph {
        name: None,
        nodes: vec![ext("extension_1", "addon_1"), ext("extension_2", "addon_2")],
        connections: vec![cmd_conn("extension_1", vec![flow("hello_world", &["extension_2"])])],
    };
    let store = SchemaStore {
        addons: vec![
            manifest("addon_1", vec![schema("hello_world", &[("text", "string")])]),
            manifest("addon_2", vec![schema("hello_world", &[("text", "int64")])]),
        ],
    };
    assert_eq!(
        graph.check_schema_compatibility(&store),
        Err(ValidationError::SchemaMismatch {
            flow_name: "hello_world".to_string(),
            src_app: None,
            src_extension: "extension_1".to_string(),
            dest_app: None,
            dest_extension: "extension_2".to_string(),
            detail: SchemaIssue::FieldTypeDisagreement { field: "text".to_string() },
        })
    );
}

#[test]
fn unknown_addon_fails_schema_check() {
    let graph = Graph {
        name: None,
        nodes: vec![ext("extension_1", "addon_1"), ext("extension_2", "addon_2")],
        connections: vec![cmd_conn("extension_1", vec![flow("hello_world", &["extension_2"])])],
    };
    let store = SchemaStore {
        addons: vec![manifest("addon_1", vec![schema("hello_world", &[("text", "string")])])],
    };
    let result = graph.check_schema_compatibility(&store);
    assert!(matches!(
        result,
        Err(ValidationError::SchemaMismatch { detail: SchemaIssue::DestAddonUnknown, .. })
    ));
}

#[test]
fn conversion_with_known_fields_passes() {
    let conv_dest = Destination {
        app: None,
        extension: "extension_2".to_string(),
        msg_conversion: Some(MsgConversion {
            rules: vec![FieldRule { from: "text".to_string(), to: "message".to_string() }],
        }),
    };
    let graph = Graph {
        name: None,
        nodes: vec![ext("extension_1", "addon_1"), ext("extension_2", "addon_2")],
        connections: vec![cmd_conn(
            "extension_1",
            vec![MessageFlow { name: "hello_world".to_string(), dest: vec![conv_dest] }],
        )],
    };
    assert_eq!(graph.check_conversion_fields(&hello_world_store()), Ok(()));
}

#[test]
fn conversion_with_unknown_field_fails() {
    let conv_dest = Destination {
        app: None,
        extension: "extension_2".to_string(),
        msg_conversion: Some(MsgConversion {
            rules: vec![FieldRule { from: "payload".to_string(), to: "message".to_string() }],
        }),
    };
    let graph = Graph {
        name: None,
        nodes: vec![ext("extension_1", "addon_1"), ext("extension_2", "addon_2")],
        connections: vec![cmd_conn(
            "extension_1",
            vec![MessageFlow { name: "hello_world".to_string(), dest: vec![conv_dest] }],
        )],
    };
    assert_eq!(
        graph.check_conversion_fields(&hello_world_store()),
        Err(ValidationError::InvalidConversion {
            flow_name: "hello_world".to_string(),
            dest_app: None,
            dest_extension: "extension_2".to_string(),
            field: "payload".to_string(),
        })
    );
}

#[test]
fn pipeline_reports_first_failing_check() {
    // The graph both duplicates an extension and has a dangling
    // destination: the pipeline fails fast with the uniqueness defect.
    let graph = Graph {
        name: None,
        nodes: vec![ext("extension_1", "addon_1"), ext("extension_1", "addon_1")],
        connections: vec![cmd_conn("extension_1", vec![flow("hello_world", &["nowhere"])])],
    };
    let result = graph.validate(&hello_world_store());
    assert!(matches!(result, Err(ValidationError::DuplicateExtension { node_index: 1, .. })));
}

#[test]
fn first_dangling_destination_in_scan_order_wins() {
    // Both the cmd flow and the data flow dangle; the cmd one is scanned
    // first and is the one reported.
    let graph = Graph {
        name: None,
        nodes: vec![ext("extension_1", "addon_1")],
        connections: vec![GraphConnection {
            app: None,
            extension: "extension_1".to_string(),
            cmd: Some(vec![flow("hello_world", &["missing_a"])]),
            data: Some(vec![flow("data", &["missing_b"])]),
            audio_frame: None,
            video_frame: None,
        }],
    };
    assert_eq!(
        graph.check_destination_existence(),
        Err(ValidationError::DanglingDestination {
            src_app: None,
            src_extension: "extension_1".to_string(),
            category: MsgCategory::Cmd,
            flow_name: "hello_world".to_string(),
            dest_index: 0,
        })
    );
}

#[test]
fn valid_graph_passes_pipeline() {
    let graph = Graph {
        name: None,
        nodes: vec![ext("extension_1", "addon_1"), ext("extension_2", "addon_2")],
        connections: vec![cmd_conn("extension_1", vec![flow("hello_world", &["extension_2"])])],
    };
    assert_eq!(graph.validate(&hello_world_store()), Ok(()));
}

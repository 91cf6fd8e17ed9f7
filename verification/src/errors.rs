//! Typed error values. Every defect this crate can detect is surfaced as
//! structured data carrying enough detail (node index, addresses, flow and
//! category names) for a caller to render a precise diagnostic; nothing is
//! dropped silently.

use vstd::prelude::*;
use crate::model::MsgCategory;

verus! {

/// Why a message flow's schemas are incompatible.
#[derive(Clone, Debug, PartialEq, Eq)]
pub enum SchemaIssue {
    /// The flow's source address matches no extension node.
    SourceNotFound,
    /// The flow's destination address matches no extension node.
    DestNotFound,
    /// The source extension's addon has no manifest in the schema store.
    SourceAddonUnknown,
    /// The destination extension's addon has no manifest in the schema store.
    DestAddonUnknown,
    /// The source addon declares no message of the flow's name and category.
    SourceMessageUndeclared,
    /// The destination addon declares no message of the flow's name and
    /// category.
    DestMessageUndeclared,
    /// Both sides declare the message, but the named field's declared types
    /// disagree.
    FieldTypeDisagreement { field: String },
}

/// Spec view of a [`SchemaIssue`].
#[verifier::ext_equal]
pub enum SchemaIssueV {
    SourceNotFound,
    DestNotFound,
    SourceAddonUnknown,
    DestAddonUnknown,
    SourceMessageUndeclared,
    DestMessageUndeclared,
    FieldTypeDisagreement { field: Seq<char> },
}

impl DeepView for SchemaIssue {
    type V = SchemaIssueV;

    open spec fn deep_view(&self) -> SchemaIssueV {
        match self {
            SchemaIssue::SourceNotFound => SchemaIssueV::SourceNotFound,
            SchemaIssue::DestNotFound => SchemaIssueV::DestNotFound,
            SchemaIssue::SourceAddonUnknown => SchemaIssueV::SourceAddonUnknown,
            SchemaIssue::DestAddonUnknown => SchemaIssueV::DestAddonUnknown,
            SchemaIssue::SourceMessageUndeclared => SchemaIssueV::SourceMessageUndeclared,
            SchemaIssue::DestMessageUndeclared => SchemaIssueV::DestMessageUndeclared,
            SchemaIssue::FieldTypeDisagreement { field } => SchemaIssueV::FieldTypeDisagreement {
                field: field@,
            },
        }
    }
}

/// A defect found by the validation pipeline. Exactly one is produced per
/// failing validation call: the first defect in check order aborts the
/// pipeline.
#[derive(Clone, Debug, PartialEq, Eq)]
pub enum ValidationError {
    /// Two extension nodes share an `(app, name)` address; `node_index` is
    /// the index of the second (duplicate) occurrence.
    DuplicateExtension { node_index: usize, addon: String, name: String },
    /// A destination of a message flow names an extension absent from the
    /// flattened node set.
    DanglingDestination {
        src_app: Option<String>,
        src_extension: String,
        category: MsgCategory,
        flow_name: String,
        dest_index: usize,
    },
    /// The declared message shapes of a flow's source and destination
    /// disagree.
    SchemaMismatch {
        flow_name: String,
        src_app: Option<String>,
        src_extension: String,
        dest_app: Option<String>,
        dest_extension: String,
        detail: SchemaIssue,
    },
    /// A message conversion references a field unknown to the statically
    /// known source schema.
    InvalidConversion {
        flow_name: String,
        dest_app: Option<String>,
        dest_extension: String,
        field: String,
    },
}

/// Spec view of a [`ValidationError`].
#[verifier::ext_equal]
pub enum ValidationErrorV {
    DuplicateExtension { node_index: int, addon: Seq<char>, name: Seq<char> },
    DanglingDestination {
        src_app: Option<Seq<char>>,
        src_extension: Seq<char>,
        category: MsgCategory,
        flow_name: Seq<char>,
        dest_index: int,
    },
    SchemaMismatch {
        flow_name: Seq<char>,
        src_app: Option<Seq<char>>,
        src_extension: Seq<char>,
        dest_app: Option<Seq<char>>,
        dest_extension: Seq<char>,
        detail: SchemaIssueV,
    },
    InvalidConversion {
        flow_name: Seq<char>,
        dest_app: Option<Seq<char>>,
        dest_extension: Seq<char>,
        field: Seq<char>,
    },
}

impl DeepView for ValidationError {
    type V = ValidationErrorV;

    open spec fn deep_view(&self) -> ValidationErrorV {
        match self {
            ValidationError::DuplicateExtension { node_index, addon, name } => {
                ValidationErrorV::DuplicateExtension {
                    node_index: *node_index as int,
                    addon: addon@,
                    name: name@,
                }
            },
            ValidationError::DanglingDestination {
                src_app,
                src_extension,
                category,
                flow_name,
                dest_index,
            } => ValidationErrorV::DanglingDestination {
                src_app: src_app.deep_view(),
                src_extension: src_extension@,
                category: *category,
                flow_name: flow_name@,
                dest_index: *dest_index as int,
            },
            ValidationError::SchemaMismatch {
                flow_name,
                src_app,
                src_extension,
                dest_app,
                dest_extension,
                detail,
            } => ValidationErrorV::SchemaMismatch {
                flow_name: flow_name@,
                src_app: src_app.deep_view(),
                src_extension: src_extension@,
                dest_app: dest_app.deep_view(),
                dest_extension: dest_extension@,
                detail: detail.deep_view(),
            },
            ValidationError::InvalidConversion { flow_name, dest_app, dest_extension, field } => {
                ValidationErrorV::InvalidConversion {
                    flow_name: flow_name@,
                    dest_app: dest_app.deep_view(),
                    dest_extension: dest_extension@,
                    field: field@,
                }
            },
        }
    }
}

/// A defect found while flattening subgraphs.
#[derive(Clone, Debug, PartialEq, Eq)]
pub enum ExpandError {
    /// A subgraph node's `graph_ref` matches no graph in the store.
    UnresolvableSubgraph { node_name: String, graph_ref: String },
    /// A subgraph's reference chain revisits a graph identifier already
    /// being expanded; `chain` lists the identifiers on the expansion stack,
    /// outermost first, ending with the repeated one.
    CyclicSubgraphReference { chain: Vec<String> },
    /// The nesting of subgraph references exceeds the configured depth
    /// ceiling.
    DepthExceeded { node_name: String, graph_ref: String },
}

/// Spec view of an [`ExpandError`].
#[verifier::ext_equal]
pub enum ExpandErrorV {
    UnresolvableSubgraph { node_name: Seq<char>, graph_ref: Seq<char> },
    CyclicSubgraphReference { chain: Seq<Seq<char>> },
    DepthExceeded { node_name: Seq<char>, graph_ref: Seq<char> },
}

impl DeepView for ExpandError {
    type V = ExpandErrorV;

    open spec fn deep_view(&self) -> ExpandErrorV {
        match self {
            ExpandError::UnresolvableSubgraph { node_name, graph_ref } => {
                ExpandErrorV::UnresolvableSubgraph { node_name: node_name@, graph_ref: graph_ref@ }
            },
            ExpandError::CyclicSubgraphReference { chain } => {
                ExpandErrorV::CyclicSubgraphReference { chain: chain.deep_view() }
            },
            ExpandError::DepthExceeded { node_name, graph_ref } => {
                ExpandErrorV::DepthExceeded { node_name: node_name@, graph_ref: graph_ref@ }
            },
        }
    }
}

/// A defect found while preparing a graph to run: either subgraph
/// flattening failed, or the flattened graph failed a validation check.
#[derive(Clone, Debug, PartialEq, Eq)]
pub enum GraphDefect {
    Expansion(ExpandError),
    Validation(ValidationError),
}

/// Spec view of a [`GraphDefect`].
#[verifier::ext_equal]
pub enum GraphDefectV {
    Expansion(ExpandErrorV),
    Validation(ValidationErrorV),
}

impl DeepView for GraphDefect {
    type V = GraphDefectV;

    open spec fn deep_view(&self) -> GraphDefectV {
        match self {
            GraphDefect::Expansion(e) => GraphDefectV::Expansion(e.deep_view()),
            GraphDefect::Validation(e) => GraphDefectV::Validation(e.deep_view()),
        }
    }
}

/// A failure of the connection-resolution query.
#[derive(Clone, Debug, PartialEq, Eq)]
pub enum QueryError {
    /// The graph identifier is unknown to the graph store.
    NotFound { graph_id: String },
}

/// Spec view of a [`QueryError`].
#[verifier::ext_equal]
pub enum QueryErrorV {
    NotFound { graph_id: Seq<char> },
}

impl DeepView for QueryError {
    type V = QueryErrorV;

    open spec fn deep_view(&self) -> QueryErrorV {
        match self {
            QueryError::NotFound { graph_id } => QueryErrorV::NotFound { graph_id: graph_id@ },
        }
    }
}

} // verus!

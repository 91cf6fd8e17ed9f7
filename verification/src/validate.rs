//! The validation pipeline: the ordered, fail-fast sequence of checks a
//! flattened graph must pass before it may be trusted to run. The checks
//! run strictly in order — extension uniqueness, destination existence,
//! schema compatibility, conversion field validity — and the first failing
//! check aborts the pipeline with its single typed error; no error
//! accumulation, no partial recovery.

use vstd::prelude::*;
use crate::errors::{GraphDefect, ValidationError};
use crate::destinations::graph_dests_ok;
use crate::expand::{all_extensions, spec_expand_graph, MAX_EXPANSION_DEPTH};
use crate::model::{Graph, GraphStore};
use crate::schema::{graph_conv_ok, graph_schema_ok, SchemaStore};
use crate::uniqueness::extensions_unique;

verus! {

impl Graph {
    /// Runs the validation pipeline on this (flattened) graph against the
    /// schema store. Validation passes exactly when every check passes.
    /// On failure the error is the first failing check's, so each error
    /// variant also certifies that all earlier checks passed: a dangling
    /// destination is only ever reported of a graph with unique
    /// extensions, and so on. The error carried is exactly the one the
    /// failing check produces, with its own contract's detail.
    pub fn validate(&self, store: &SchemaStore) -> (r: Result<(), ValidationError>)
        ensures
            r is Ok <==> ({
                &&& extensions_unique(self.deep_view().nodes)
                &&& graph_dests_ok(self.deep_view())
                &&& graph_schema_ok(self.deep_view(), store.deep_view())
                &&& graph_conv_ok(self.deep_view(), store.deep_view())
            }),
            r matches Err(e) ==> match e {
                ValidationError::DuplicateExtension { .. } => !extensions_unique(
                    self.deep_view().nodes,
                ),
                ValidationError::DanglingDestination { .. } => extensions_unique(
                    self.deep_view().nodes,
                ) && !graph_dests_ok(self.deep_view()),
                ValidationError::SchemaMismatch { .. } => extensions_unique(
                    self.deep_view().nodes,
                ) && graph_dests_ok(self.deep_view()) && !graph_schema_ok(
                    self.deep_view(),
                    store.deep_view(),
                ),
                ValidationError::InvalidConversion { .. } => extensions_unique(
                    self.deep_view().nodes,
                ) && graph_dests_ok(self.deep_view()) && graph_schema_ok(
                    self.deep_view(),
                    store.deep_view(),
                ) && !graph_conv_ok(self.deep_view(), store.deep_view()),
            },
    {
        if let Err(e) = self.check_extension_uniqueness() {
            return Err(e);
        }
        if let Err(e) = self.check_destination_existence() {
            return Err(e);
        }
        if let Err(e) = self.check_schema_compatibility(store) {
            return Err(e);
        }
        if let Err(e) = self.check_conversion_fields(store) {
            return Err(e);
        }
        Ok(())
    }

    /// Flattens this graph against the graph store and runs the
    /// validation pipeline on the result: the whole preparation a graph
    /// goes through before its wiring may be trusted. On success the
    /// returned graph is the flattened one — all extension nodes — and it
    /// passed every check; otherwise the defect is the first one found,
    /// expansion defects before validation defects.
    pub fn flatten_and_validate(&self, graphs: &GraphStore, schemas: &SchemaStore) -> (r: Result<
        Graph,
        GraphDefect,
    >)
        ensures
            r matches Ok(out) ==> ({
                &&& spec_expand_graph(
                    graphs.deep_view(),
                    self.deep_view(),
                    Seq::empty(),
                    MAX_EXPANSION_DEPTH as nat,
                ) matches Result::Ok(sv) && out.deep_view() == sv
                &&& all_extensions(out.deep_view().nodes)
                &&& extensions_unique(out.deep_view().nodes)
                &&& graph_dests_ok(out.deep_view())
                &&& graph_schema_ok(out.deep_view(), schemas.deep_view())
                &&& graph_conv_ok(out.deep_view(), schemas.deep_view())
            }),
            r matches Err(GraphDefect::Expansion(e)) ==> spec_expand_graph(
                graphs.deep_view(),
                self.deep_view(),
                Seq::empty(),
                MAX_EXPANSION_DEPTH as nat,
            ) matches Result::Err(ev) && e.deep_view() == ev,
            r matches Err(GraphDefect::Validation(e)) ==> ({
                &&& spec_expand_graph(
                    graphs.deep_view(),
                    self.deep_view(),
                    Seq::empty(),
                    MAX_EXPANSION_DEPTH as nat,
                ) matches Result::Ok(sv) && !({
                    &&& extensions_unique(sv.nodes)
                    &&& graph_dests_ok(sv)
                    &&& graph_schema_ok(sv, schemas.deep_view())
                    &&& graph_conv_ok(sv, schemas.deep_view())
                })
            }),
    {
        let flat = match self.flatten(graphs) {
            Ok(flat) => flat,
            Err(e) => {
                return Err(GraphDefect::Expansion(e));
            },
        };
        if let Err(e) = flat.validate(schemas) {
            return Err(GraphDefect::Validation(e));
        }
        Ok(flat)
    }
}

} // verus!

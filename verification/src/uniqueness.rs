//! Extension uniqueness: no two extension nodes of a flattened graph may
//! share the `(app, name)` address.

use vstd::prelude::*;
use crate::errors::ValidationError;
use crate::model::{app_key, Graph, GraphNode, NodeV};

verus! {

/// The address key of an extension node: its application key paired with
/// its name. For a subgraph node (which has no extension address) the key
/// is the empty pair; callers only apply this to extension nodes.
pub open spec fn node_key(n: NodeV) -> (Seq<char>, Seq<char>) {
    match n {
        NodeV::Extension(e) => (app_key(e.app), e.name),
        NodeV::Subgraph(_) => (Seq::empty(), Seq::empty()),
    }
}

/// Whether the node at index `j` is an extension node that repeats the
/// address of an earlier extension node.
pub open spec fn duplicate_at(nodes: Seq<NodeV>, j: int) -> bool {
    &&& 0 <= j < nodes.len()
    &&& nodes[j] is Extension
    &&& exists|i: int|
        0 <= i < j && (#[trigger] nodes[i]) is Extension && node_key(nodes[i]) == node_key(
            nodes[j],
        )
}

/// Whether every extension node's `(app, name)` address is unique across
/// the node sequence.
pub open spec fn extensions_unique(nodes: Seq<NodeV>) -> bool {
    forall|j: int| !(#[trigger] duplicate_at(nodes, j))
}

impl Graph {
    /// Validates that no extension node is duplicated within the graph.
    ///
    /// Extensions are duplicated when they share a name within the same
    /// application (identified by app URI, with an absent URI keyed as the
    /// empty string). Validation passes exactly when all extension
    /// addresses are distinct; otherwise it fails naming the index of the
    /// first node that repeats an earlier address — the second occurrence,
    /// not the first — along with that node's addon and name.
    pub fn check_extension_uniqueness(&self) -> (r: Result<(), ValidationError>)
        ensures
            r is Ok <==> extensions_unique(self.deep_view().nodes),
            r matches Err(e) ==> ({
                &&& e matches ValidationError::DuplicateExtension { node_index, addon, name }
                &&& duplicate_at(self.deep_view().nodes, node_index as int)
                &&& forall|k: int|
                    0 <= k < node_index ==> !duplicate_at(self.deep_view().nodes, k)
                &&& self.deep_view().nodes[node_index as int] matches NodeV::Extension(dup)
                    && addon@ == dup.addon && name@ == dup.name
            }),
    {
        let ghost nodes_v = self.deep_view().nodes;
        let n = self.nodes.len();
        let mut j: usize = 0;
        while j < n
            invariant
                n == self.nodes@.len(),
                nodes_v == self.deep_view().nodes,
                j <= n,
                forall|k: int| 0 <= k < j ==> !(#[trigger] duplicate_at(nodes_v, k)),
            decreases n - j,
        {
            match &self.nodes[j] {
                GraphNode::Extension(ej) => {
                    proof {
                        assert(nodes_v[j as int] == NodeV::Extension(ej.deep_view()));
                    }
                    let mut i: usize = 0;
                    while i < j
                        invariant
                            n == self.nodes@.len(),
                            nodes_v == self.deep_view().nodes,
                            i <= j < n,
                            self.nodes@[j as int] == GraphNode::Extension(*ej),
                            forall|k: int| 0 <= k < j ==> !(#[trigger] duplicate_at(nodes_v, k)),
                            forall|k: int|
                                0 <= k < i ==> !((#[trigger] nodes_v[k]) is Extension && node_key(
                                    nodes_v[k],
                                ) == node_key(nodes_v[j as int])),
                        decreases j - i,
                    {
                        match &self.nodes[i] {
                            GraphNode::Extension(ei) => {
                                proof {
                                    assert(nodes_v[i as int] == NodeV::Extension(ei.deep_view()));
                                }
                                if crate::model::app_eq(&ei.app, &ej.app) && ei.name == ej.name {
                                    proof {
                                        assert(node_key(nodes_v[i as int]) == node_key(
                                            nodes_v[j as int],
                                        ));
                                        assert(duplicate_at(nodes_v, j as int));
                                    }
                                    return Err(
                                        ValidationError::DuplicateExtension {
                                            node_index: j,
                                            addon: ej.addon.clone(),
                                            name: ej.name.clone(),
                                        },
                                    );
                                }
                            },
                            GraphNode::Subgraph(_) => {},
                        }
                        i = i + 1;
                    }
                    proof {
                        assert(!duplicate_at(nodes_v, j as int));
                    }
                },
                GraphNode::Subgraph(_) => {
                    proof {
                        assert(!duplicate_at(nodes_v, j as int));
                    }
                },
            }
            j = j + 1;
        }
        Ok(())
    }
}

} // verus!

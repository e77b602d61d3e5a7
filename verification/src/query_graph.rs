//! The query graph: operation nodes, dependency edges carrying data-flow
//! transformations, and the builders' graph-construction interface.
use vstd::prelude::*;

use crate::error::QueryGraphBuilderError;
use crate::filter::{spec_projection_filter, spec_projections_filter, Filter, FilterView};
use crate::projection::{ModelProjection, RecordProjection};

verus! {

/// A write operation wrapped in a graph node.
#[derive(Debug)]
pub enum WriteQuery {
    DeleteRecord { model: String, filter: Option<Filter> },
    DeleteManyRecords { model: String, filter: Filter },
}

impl WriteQuery {
    /// Replaces the operation's filter.
    pub fn set_filter(&mut self, filter: Filter)
        ensures
            match *old(self) {
                WriteQuery::DeleteRecord { model, .. } => *final(self)
                    == (WriteQuery::DeleteRecord { model, filter: Some(filter) }),
                WriteQuery::DeleteManyRecords { model, .. } => *final(self)
                    == (WriteQuery::DeleteManyRecords { model, filter }),
            },
    {
        match self {
            WriteQuery::DeleteRecord { filter: f, .. } => {
                *f = Some(filter);
            },
            WriteQuery::DeleteManyRecords { filter: f, .. } => {
                *f = filter;
            },
        }
    }

    /// Conjoins `filter` with the operation's existing filter.
    pub fn add_filter(&mut self, filter: Filter)
        ensures
            match *old(self) {
                WriteQuery::DeleteRecord { model, filter: f0 } => *final(self) matches
                    WriteQuery::DeleteRecord { model: m2, filter: f2 } && m2 == model && match f0 {
                        Some(f) => f2 matches Some(c) && c@ == FilterView::And(
                            seq![f@, filter@],
                        ),
                        None => f2 == Some(filter),
                    },
                WriteQuery::DeleteManyRecords { model, filter: f0 } => *final(self) matches
                    WriteQuery::DeleteManyRecords { model: m2, filter: f2 } && m2 == model && f2@
                    == FilterView::And(seq![f0@, filter@]),
            },
    {
        let mut taken = WriteQuery::DeleteRecord { model: String::new(), filter: None };
        core::mem::swap(self, &mut taken);
        match taken {
            WriteQuery::DeleteRecord { model, filter: f0 } => {
                let merged = match f0 {
                    Some(f) => crate::filter::merge_filter(Some(f), filter),
                    None => filter,
                };
                *self = WriteQuery::DeleteRecord { model, filter: Some(merged) };
            },
            WriteQuery::DeleteManyRecords { model, filter: f0 } => {
                let merged = crate::filter::merge_filter(Some(f0), filter);
                *self = WriteQuery::DeleteManyRecords { model, filter: merged };
            },
        }
    }
}

/// A node reading the records of `model` connected to given parents through a
/// relation, under an extra filter.
#[derive(Debug)]
pub struct ReadNode {
    pub model: String,
    pub filter: Filter,
    pub parent_projections: Option<Vec<RecordProjection>>,
}

/// A node validating that discovered records may be deleted safely.
#[derive(Debug)]
pub struct DeletionCheck {
    pub model: String,
    pub parent_projections: Option<Vec<RecordProjection>>,
}

/// One operation of the graph.
#[derive(Debug)]
pub enum Node {
    Read(ReadNode),
    Write(WriteQuery),
    Check(DeletionCheck),
}

/// A data-carrying transformation descriptor: what a `ParentProjection` edge
/// does to its target node once the parent's identities are materialized.
#[derive(Debug)]
pub enum Transformation {
    /// Hand the parent identities to the target read or check node.
    InjectParentProjections,
    /// Narrow the target write's filter to the discovered identities.
    InjectFilter,
    /// As `InjectFilter`, but first check that exactly `expected` children
    /// were discovered; a disagreement means the declared parent-child
    /// linkage is not connected in the store.
    InjectFilterExpectCount {
        expected: usize,
        relation_name: String,
        parent_name: String,
        child_name: String,
    },
    /// Narrow the target write to the one discovered identity; none
    /// discovered breaks a structural guarantee.
    InjectSingleIdFilter,
}

/// An edge constraint: plain ordering, or a data-flow dependency carrying the
/// projection to extract from the parent's output and the transformation to
/// apply to the target.
#[derive(Debug)]
pub enum QueryGraphDependency {
    ExecutionOrder,
    ParentProjection(ModelProjection, Transformation),
}

/// A directed edge of the graph.
#[derive(Debug)]
pub struct Edge {
    pub source: usize,
    pub target: usize,
    pub dependency: QueryGraphDependency,
}

/// A reference to a node of the graph.
#[derive(Debug, Clone, Copy, PartialEq, Eq, Structural)]
pub struct NodeRef {
    pub node_ix: usize,
}

/// The query graph: a DAG of operations with data-flow edges, built by the
/// nested-mutation builders and walked by the interpreter.
#[derive(Debug)]
pub struct QueryGraph {
    pub nodes: Vec<Node>,
    pub edges: Vec<Edge>,
}

/// Every edge connects existing nodes.
pub open spec fn edges_well_formed(nodes: Seq<Node>, edges: Seq<Edge>) -> bool {
    forall|i: int| 0 <= i < edges.len() ==> (#[trigger] edges[i]).source < nodes.len()
        && edges[i].target < nodes.len()
}

impl QueryGraph {
    /// An empty graph.
    pub fn new() -> (r: QueryGraph)
        ensures
            r.nodes@ == Seq::<Node>::empty(),
            r.edges@ == Seq::<Edge>::empty(),
    {
        QueryGraph { nodes: Vec::new(), edges: Vec::new() }
    }

    /// Adds a node and hands back its reference.
    pub fn create_node(&mut self, node: Node) -> (r: NodeRef)
        ensures
            final(self).nodes@ == old(self).nodes@.push(node),
            final(self).edges == old(self).edges,
            r.node_ix == old(self).nodes@.len(),
    {
        let ix = self.nodes.len();
        self.nodes.push(node);
        NodeRef { node_ix: ix }
    }

    /// Decides whether every edge connects existing nodes.
    pub fn edges_ok(&self) -> (r: bool)
        ensures
            r == edges_well_formed(self.nodes@, self.edges@),
    {
        let mut i: usize = 0;
        while i < self.edges.len()
            invariant
                i <= self.edges@.len(),
                forall|j: int| 0 <= j < i ==> (#[trigger] self.edges@[j]).source
                    < self.nodes@.len() && self.edges@[j].target < self.nodes@.len(),
            decreases self.edges.len() - i,
        {
            if self.edges[i].source >= self.nodes.len() || self.edges[i].target
                >= self.nodes.len() {
                return false;
            }
            i += 1;
        }
        true
    }

    /// Adds an edge between two existing nodes; a reference to a node that is
    /// not in the graph breaks a structural guarantee.
    pub fn create_edge(
        &mut self,
        from: &NodeRef,
        to: &NodeRef,
        dependency: QueryGraphDependency,
    ) -> (r: Result<(), QueryGraphBuilderError>)
        ensures
            r is Ok <==> from.node_ix < old(self).nodes@.len() && to.node_ix < old(
                self,
            ).nodes@.len(),
            r is Ok ==> final(self).edges@ == old(self).edges@.push(
                Edge { source: from.node_ix, target: to.node_ix, dependency },
            ) && final(self).nodes == old(self).nodes,
            r is Err ==> *final(self) == *old(self),
            r matches Err(e) ==> (e matches QueryGraphBuilderError::AssertionError(m) && m@
                == "an edge must connect nodes of the graph"@),
    {
        if from.node_ix < self.nodes.len() && to.node_ix < self.nodes.len() {
            self.edges.push(Edge { source: from.node_ix, target: to.node_ix, dependency });
            Ok(())
        } else {
            Err(
                QueryGraphBuilderError::AssertionError(
                    "an edge must connect nodes of the graph".to_owned(),
                ),
            )
        }
    }
}

/// Applies a transformation descriptor to a node, given the identities
/// extracted from the parent's materialized output.
///
/// The count check realizes the nested-delete connectivity guarantee: a
/// filtered delete expecting `expected` connected children fails with a
/// relation-connectivity error exactly when the discovered count differs.
pub fn apply_transformation(
    transformation: &Transformation,
    node: Node,
    child_ids: Vec<RecordProjection>,
) -> (r: Result<Node, QueryGraphBuilderError>)
    ensures
        transformation matches Transformation::InjectFilterExpectCount {
            expected,
            relation_name,
            parent_name,
            child_name,
        } ==> (if child_ids@.len() != expected {
            r matches Err(e) && e matches QueryGraphBuilderError::RecordsNotConnected {
                relation_name: rn,
                parent_name: pn,
                child_name: cn,
            } && rn@ == relation_name@ && pn@ == parent_name@ && cn@ == child_name@
        } else {
            spec_filter_injected(node, child_ids@.map_values(|p: RecordProjection| p@), r)
        }),
        transformation is InjectFilter ==> spec_filter_injected(
            node,
            child_ids@.map_values(|p: RecordProjection| p@),
            r,
        ),
        transformation is InjectParentProjections ==> (r matches Ok(n2) && match node {
            Node::Read(rn) => n2 matches Node::Read(rn2) && rn2.model == rn.model && rn2.filter
                == rn.filter && rn2.parent_projections == Some(child_ids),
            Node::Check(cn) => n2 matches Node::Check(cn2) && cn2.model == cn.model
                && cn2.parent_projections == Some(child_ids),
            Node::Write(_) => n2 == node,
        }),
        transformation is InjectSingleIdFilter ==> (if child_ids@.len() == 0 {
            r matches Err(e) && e matches QueryGraphBuilderError::AssertionError(m) && m@
                == "expected a parent identity for a nested delete on a one-to-one relation"@
        } else {
            spec_single_id_injected(node, child_ids@[child_ids@.len() - 1]@, r)
        }),
{
    match transformation {
        Transformation::InjectParentProjections => match node {
            Node::Read(rn) => Ok(
                Node::Read(
                    ReadNode {
                        model: rn.model,
                        filter: rn.filter,
                        parent_projections: Some(child_ids),
                    },
                ),
            ),
            Node::Check(cn) => Ok(
                Node::Check(
                    DeletionCheck { model: cn.model, parent_projections: Some(child_ids) },
                ),
            ),
            other => Ok(other),
        },
        Transformation::InjectFilter => Ok(inject_filter(node, &child_ids)),
        Transformation::InjectFilterExpectCount {
            expected,
            relation_name,
            parent_name,
            child_name,
        } => {
            if child_ids.len() != *expected {
                Err(
                    QueryGraphBuilderError::RecordsNotConnected {
                        relation_name: relation_name.clone(),
                        parent_name: parent_name.clone(),
                        child_name: child_name.clone(),
                    },
                )
            } else {
                Ok(inject_filter(node, &child_ids))
            }
        },
        Transformation::InjectSingleIdFilter => {
            let mut ids = child_ids;
            match ids.pop() {
                Some(id) => match node {
                    Node::Write(mut wq) => {
                        wq.add_filter(crate::filter::projection_filter(&id));
                        Ok(Node::Write(wq))
                    },
                    other => Ok(other),
                },
                None => Err(
                    QueryGraphBuilderError::AssertionError(
                        "expected a parent identity for a nested delete on a one-to-one relation".to_owned(),
                    ),
                ),
            }
        },
    }
}

/// What injecting a discovered-identity filter does: a delete-many node's
/// filter is narrowed by AND with the identities' membership condition; any
/// other node is left as it stands.
pub open spec fn spec_filter_injected(
    node: Node,
    ids: Seq<Seq<(Seq<char>, crate::prisma_value::ValueView)>>,
    r: Result<Node, QueryGraphBuilderError>,
) -> bool {
    match node {
        Node::Write(WriteQuery::DeleteManyRecords { model, filter }) => r matches Ok(n2)
            && n2 matches Node::Write(wq2) && wq2 matches WriteQuery::DeleteManyRecords {
            model: m2,
            filter: f2,
        } && m2 == model && f2@ == FilterView::And(
            seq![filter@, spec_projections_filter(ids)],
        ),
        _ => r == Result::<Node, QueryGraphBuilderError>::Ok(node),
    }
}

/// What injecting the single discovered identity does: a write node's filter
/// is narrowed to that identity's equality condition; any other node is left
/// as it stands.
pub open spec fn spec_single_id_injected(
    node: Node,
    id: Seq<(Seq<char>, crate::prisma_value::ValueView)>,
    r: Result<Node, QueryGraphBuilderError>,
) -> bool {
    match node {
        Node::Write(WriteQuery::DeleteManyRecords { model, filter }) => r matches Ok(n2)
            && n2 matches Node::Write(wq2) && wq2 matches WriteQuery::DeleteManyRecords {
            model: m2,
            filter: f2,
        } && m2 == model && f2@ == FilterView::And(seq![filter@, spec_projection_filter(id)]),
        Node::Write(WriteQuery::DeleteRecord { model, filter }) => r matches Ok(n2)
            && n2 matches Node::Write(wq2) && wq2 matches WriteQuery::DeleteRecord {
            model: m2,
            filter: f2,
        } && m2 == model && match filter {
            Some(f) => f2 matches Some(c) && c@ == FilterView::And(
                seq![f@, spec_projection_filter(id)],
            ),
            None => f2 matches Some(c) && c@ == spec_projection_filter(id),
        },
        _ => r == Result::<Node, QueryGraphBuilderError>::Ok(node),
    }
}

/// Narrows a delete-many node's filter by the discovered identities.
fn inject_filter(node: Node, child_ids: &Vec<RecordProjection>) -> (r: Node)
    ensures
        spec_filter_injected(
            node,
            child_ids@.map_values(|p: RecordProjection| p@),
            Result::<Node, QueryGraphBuilderError>::Ok(r),
        ),
{
    match node {
        Node::Write(WriteQuery::DeleteManyRecords { model, filter }) => {
            let ids_filter = crate::filter::projections_filter(child_ids);
            let merged = crate::filter::merge_filter(Some(filter), ids_filter);
            Node::Write(WriteQuery::DeleteManyRecords { model, filter: merged })
        },
        other => other,
    }
}

} // verus!

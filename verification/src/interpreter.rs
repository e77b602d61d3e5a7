//! Graph execution as a checkable state machine: a node may run only when
//! every incoming edge is consumed, an edge is consumed exactly once, and a
//! data-flow edge rewrites its target with the parent's materialized
//! identities before the target can become ready.
use vstd::prelude::*;

use crate::error::QueryGraphBuilderError;
use crate::projection::{all_names_present, extracted_pairs, flat_db_names};
use crate::prisma_value::{string_views, value_views};
use crate::query_graph::{
    spec_filter_injected, spec_single_id_injected, Node, QueryGraph, QueryGraphDependency,
    Transformation,
};
use crate::record::{records_well_formed, ManyRecords};

verus! {

/// Where a node stands: not yet run, run to completion, or failed (which
/// aborts the whole graph).
#[derive(Debug, Clone, Copy, PartialEq, Eq, Structural)]
pub enum NodeState {
    Pending,
    Executed,
    Failed,
}

/// The interpreter's execution state over one graph.
#[derive(Debug)]
pub struct Interpreter {
    pub graph: QueryGraph,
    pub states: Vec<NodeState>,
    pub edge_consumed: Vec<bool>,
}

/// The identities a parent's output yields under an identity specification:
/// one per record, in record order.
pub open spec fn spec_extracted_ids(
    records: Seq<crate::record::Record>,
    names: Seq<Seq<char>>,
    flat: Seq<Seq<char>>,
) -> Seq<Seq<(Seq<char>, crate::prisma_value::ValueView)>> {
    Seq::new(records.len(), |i: int| extracted_pairs(flat, names, value_views(records[i].values@)))
}

impl Interpreter {
    /// The state tables cover exactly the graph's nodes and edges.
    pub open spec fn wf(self) -> bool {
        &&& self.states@.len() == self.graph.nodes@.len()
        &&& self.edge_consumed@.len() == self.graph.edges@.len()
        &&& crate::query_graph::edges_well_formed(self.graph.nodes@, self.graph.edges@)
    }

    /// Starts interpreting a graph: all nodes pending, no edge consumed.
    pub fn new(graph: QueryGraph) -> (r: Interpreter)
        requires
            crate::query_graph::edges_well_formed(graph.nodes@, graph.edges@),
        ensures
            r.wf(),
            r.graph == graph,
            forall|i: int| 0 <= i < r.states@.len() ==> r.states@[i] is Pending,
            forall|i: int| 0 <= i < r.edge_consumed@.len() ==> !r.edge_consumed@[i],
    {
        let mut states: Vec<NodeState> = Vec::new();
        let mut i: usize = 0;
        while i < graph.nodes.len()
            invariant
                states@.len() == i,
                i <= graph.nodes@.len(),
                forall|j: int| 0 <= j < i ==> states@[j] is Pending,
            decreases graph.nodes.len() - i,
        {
            states.push(NodeState::Pending);
            i += 1;
        }
        let mut edge_consumed: Vec<bool> = Vec::new();
        let mut e: usize = 0;
        while e < graph.edges.len()
            invariant
                edge_consumed@.len() == e,
                e <= graph.edges@.len(),
                forall|j: int| 0 <= j < e ==> !edge_consumed@[j],
            decreases graph.edges.len() - e,
        {
            edge_consumed.push(false);
            e += 1;
        }
        Interpreter { graph, states, edge_consumed }
    }

    /// A node is ready when it is pending and every edge into it is consumed:
    /// all its inputs are satisfied.
    pub open spec fn spec_ready(self, ix: int) -> bool {
        &&& self.states@[ix] is Pending
        &&& forall|e: int|
            0 <= e < self.graph.edges@.len() && (#[trigger] self.graph.edges@[e]).target == ix
                ==> self.edge_consumed@[e]
    }

    /// Decides readiness of one node.
    pub fn node_ready(&self, ix: usize) -> (r: bool)
        requires
            self.wf(),
            ix < self.graph.nodes@.len(),
        ensures
            r == self.spec_ready(ix as int),
    {
        if !matches!(self.states[ix], NodeState::Pending) {
            return false;
        }
        let mut e: usize = 0;
        while e < self.graph.edges.len()
            invariant
                e <= self.graph.edges@.len(),
                self.edge_consumed@.len() == self.graph.edges@.len(),
                forall|j: int|
                    0 <= j < e && (#[trigger] self.graph.edges@[j]).target == ix
                        ==> self.edge_consumed@[j],
            decreases self.graph.edges.len() - e,
        {
            if self.graph.edges[e].target == ix && !self.edge_consumed[e] {
                return false;
            }
            e += 1;
        }
        true
    }

    /// The first ready node, if any: the topological traversal's next step.
    pub fn next_ready(&self) -> (r: Option<usize>)
        requires
            self.wf(),
        ensures
            match r {
                Some(ix) => ix < self.graph.nodes@.len() && self.spec_ready(ix as int),
                None => forall|ix: int| 0 <= ix < self.graph.nodes@.len() ==> !self.spec_ready(ix),
            },
    {
        let mut ix: usize = 0;
        while ix < self.graph.nodes.len()
            invariant
                self.wf(),
                ix <= self.graph.nodes@.len(),
                forall|j: int| 0 <= j < ix ==> !self.spec_ready(j),
            decreases self.graph.nodes.len() - ix,
        {
            if self.node_ready(ix) {
                return Some(ix);
            }
            ix += 1;
        }
        None
    }

    /// Marks a ready node executed; its outgoing edges may then be processed.
    pub fn mark_executed(&mut self, ix: usize)
        requires
            old(self).wf(),
            ix < old(self).graph.nodes@.len(),
            old(self).spec_ready(ix as int),
        ensures
            final(self).wf(),
            final(self).graph == old(self).graph,
            final(self).edge_consumed == old(self).edge_consumed,
            final(self).states@ == old(self).states@.update(ix as int, NodeState::Executed),
    {
        let mut states = Vec::new();
        core::mem::swap(&mut self.states, &mut states);
        let _ = states.remove(ix);
        states.insert(ix, NodeState::Executed);
        core::mem::swap(&mut self.states, &mut states);
        proof {
            assert(self.states@ =~= old(self).states@.update(ix as int, NodeState::Executed));
        }
    }

    /// Marks a node failed; per the all-or-nothing policy the caller aborts
    /// the remaining graph execution.
    pub fn mark_failed(&mut self, ix: usize)
        requires
            old(self).wf(),
            ix < old(self).graph.nodes@.len(),
        ensures
            final(self).wf(),
            final(self).graph == old(self).graph,
            final(self).edge_consumed == old(self).edge_consumed,
            final(self).states@ == old(self).states@.update(ix as int, NodeState::Failed),
    {
        let mut states = Vec::new();
        core::mem::swap(&mut self.states, &mut states);
        let _ = states.remove(ix);
        states.insert(ix, NodeState::Failed);
        core::mem::swap(&mut self.states, &mut states);
        proof {
            assert(self.states@ =~= old(self).states@.update(ix as int, NodeState::Failed));
        }
    }

    /// Consumes one edge whose source has executed. An ordering edge only
    /// records the constraint; a data-flow edge extracts the parent's
    /// identities from its output and rewrites the target node before the
    /// target can become ready. A transformation failure fails the whole
    /// graph: the caller must abort, no partially rewritten node is kept.
    pub fn process_edge(&mut self, edge_ix: usize, parent_result: &ManyRecords) -> (r: Result<
        (),
        QueryGraphBuilderError,
    >)
        requires
            old(self).wf(),
            edge_ix < old(self).graph.edges@.len(),
            !old(self).edge_consumed@[edge_ix as int],
            old(self).states@[old(self).graph.edges@[edge_ix as int].source as int] is Executed,
            records_well_formed(parent_result.records@, parent_result.field_names@),
        ensures
            final(self).wf(),
            final(self).states == old(self).states,
            final(self).graph.edges == old(self).graph.edges,
            r is Ok <==> match old(self).graph.edges@[edge_ix as int].dependency {
                QueryGraphDependency::ExecutionOrder => true,
                QueryGraphDependency::ParentProjection(proj, t) => (parent_result.records@.len()
                    == 0 || all_names_present(
                    flat_db_names(proj@),
                    string_views(parent_result.field_names@),
                )) && match t {
                    Transformation::InjectFilterExpectCount { expected, .. } => parent_result.records@.len()
                        == expected,
                    Transformation::InjectSingleIdFilter => parent_result.records@.len() >= 1,
                    _ => true,
                },
            },
            r is Err ==> final(self).graph.nodes == old(self).graph.nodes
                && final(self).edge_consumed == old(self).edge_consumed,
            r matches Err(e) ==> (e is Domain || e is RecordsNotConnected || e is AssertionError),
            r is Ok ==> final(self).edge_consumed@ == old(self).edge_consumed@.update(
                edge_ix as int,
                true,
            ),
            r is Ok ==> match old(self).graph.edges@[edge_ix as int].dependency {
                QueryGraphDependency::ExecutionOrder => final(self).graph.nodes == old(
                    self,
                ).graph.nodes,
                QueryGraphDependency::ParentProjection(proj, t) => {
                    let target = old(self).graph.edges@[edge_ix as int].target as int;
                    let ids = spec_extracted_ids(
                        parent_result.records@,
                        string_views(parent_result.field_names@),
                        flat_db_names(proj@),
                    );
                    &&& (parent_result.records@.len() == 0 || all_names_present(
                        flat_db_names(proj@),
                        string_views(parent_result.field_names@),
                    ))
                    &&& forall|j: int|
                        0 <= j < old(self).graph.nodes@.len() && j != target
                            ==> final(self).graph.nodes@[j] == old(self).graph.nodes@[j]
                    &&& final(self).graph.nodes@.len() == old(self).graph.nodes@.len()
                    &&& match t {
                        Transformation::InjectFilter => spec_filter_injected(
                            old(self).graph.nodes@[target],
                            ids,
                            Ok(final(self).graph.nodes@[target]),
                        ),
                        Transformation::InjectFilterExpectCount { expected, .. } => ids.len()
                            == expected && spec_filter_injected(
                            old(self).graph.nodes@[target],
                            ids,
                            Ok(final(self).graph.nodes@[target]),
                        ),
                        Transformation::InjectSingleIdFilter => ids.len() >= 1
                            && spec_single_id_injected(
                            old(self).graph.nodes@[target],
                            ids[ids.len() - 1],
                            Ok(final(self).graph.nodes@[target]),
                        ),
                        Transformation::InjectParentProjections => match old(self).graph.nodes@[target] {
                            Node::Read(rn) => final(self).graph.nodes@[target] matches Node::Read(
                                rn2,
                            ) && rn2.model == rn.model && rn2.filter == rn.filter
                                && (rn2.parent_projections matches Some(v) && v@.map_values(
                                |p: crate::projection::RecordProjection| p@,
                            ) == ids),
                            Node::Check(cn) => final(self).graph.nodes@[target] matches
                                Node::Check(cn2) && cn2.model == cn.model
                                && (cn2.parent_projections matches Some(v) && v@.map_values(
                                |p: crate::projection::RecordProjection| p@,
                            ) == ids),
                            Node::Write(_) => final(self).graph.nodes@[target]
                                == old(self).graph.nodes@[target],
                        },
                    }
                },
            },
    {
        let ghost old_consumed = self.edge_consumed@;
        let target = self.graph.edges[edge_ix].target;
        proof {
            assert(target < self.graph.nodes@.len());
        }
        match &self.graph.edges[edge_ix].dependency {
            QueryGraphDependency::ExecutionOrder => {
                let mut consumed = Vec::new();
                core::mem::swap(&mut self.edge_consumed, &mut consumed);
                let _ = consumed.remove(edge_ix);
                consumed.insert(edge_ix, true);
                core::mem::swap(&mut self.edge_consumed, &mut consumed);
                proof {
                    assert(self.edge_consumed@ =~= old_consumed.update(edge_ix as int, true));
                }
                Ok(())
            },
            QueryGraphDependency::ParentProjection(proj, t) => {
                let ids = match parent_result.projections(proj) {
                    Ok(v) => v,
                    Err(e) => {
                        return Err(QueryGraphBuilderError::Domain(e));
                    },
                };
                proof {
                    assert(ids@.map_values(|p: crate::projection::RecordProjection| p@)
                        =~= spec_extracted_ids(
                        parent_result.records@,
                        string_views(parent_result.field_names@),
                        flat_db_names(proj@),
                    ));
                }
                match t {
                    Transformation::InjectFilterExpectCount {
                        expected,
                        relation_name,
                        parent_name,
                        child_name,
                    } => {
                        if ids.len() != *expected {
                            return Err(
                                QueryGraphBuilderError::RecordsNotConnected {
                                    relation_name: relation_name.clone(),
                                    parent_name: parent_name.clone(),
                                    child_name: child_name.clone(),
                                },
                            );
                        }
                    },
                    Transformation::InjectSingleIdFilter => {
                        if ids.len() == 0 {
                            return Err(
                                QueryGraphBuilderError::AssertionError(
                                    "expected a parent identity for a nested delete on a one-to-one relation".to_owned(),
                                ),
                            );
                        }
                    },
                    _ => {},
                }
                let ghost old_nodes = self.graph.nodes@;
                let node = self.graph.nodes.remove(target);
                let transformed = match crate::query_graph::apply_transformation(t, node, ids) {
                    Ok(n) => n,
                    Err(e) => {
                        proof {
                            assert(false);
                        }
                        return Err(e);
                    },
                };
                self.graph.nodes.insert(target, transformed);
                proof {
                    assert(self.graph.nodes@ =~= old_nodes.update(target as int, transformed));
                }
                let mut consumed = Vec::new();
                core::mem::swap(&mut self.edge_consumed, &mut consumed);
                let _ = consumed.remove(edge_ix);
                consumed.insert(edge_ix, true);
                core::mem::swap(&mut self.edge_consumed, &mut consumed);
                proof {
                    assert(self.edge_consumed@ =~= old_consumed.update(edge_ix as int, true));
                }
                Ok(())
            },
        }
    }
}

} // verus!
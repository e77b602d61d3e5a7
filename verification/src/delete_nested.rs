//! Nested delete builders: they grow the query graph so that nothing is
//! deleted without first being discovered and checked, and so that a filtered
//! delete fails when the discovered children disagree with the declared
//! parent linkage.
use vstd::prelude::*;

use crate::error::QueryGraphBuilderError;
use crate::filter::{Filter, FilterView};
use crate::model::{spec_field_names, Model};
use crate::nested_read::RelationField;
use crate::parsed_input::{assert_non_null, assert_size, coerce_vec, ParsedInputValue};
use crate::prisma_value::PrismaValue;
use crate::projection::{field_views, name_index, names_contain};
use crate::query_graph::{
    DeletionCheck, Node, NodeRef, QueryGraph, QueryGraphDependency, ReadNode, Transformation,
    WriteQuery,
};

verus! {

broadcast use Seq::lemma_map_take_succ, Seq::lemma_push_map_commute;

/// The equality condition one map entry denotes, if the entry names a
/// single-column field of the model and carries a scalar value.
pub open spec fn spec_entry_cond(
    fields: Seq<crate::projection::ProjectionFieldView>,
    entry: (String, ParsedInputValue),
) -> Option<FilterView> {
    if names_contain(spec_field_names(fields), entry.0@) {
        let f = fields[name_index(spec_field_names(fields), entry.0@)];
        if f.db_names.len() == 1 && entry.1 is Single {
            Some(FilterView::Equals(f.db_names[0], entry.1->Single_0@))
        } else {
            None
        }
    } else {
        None
    }
}

/// Whether every entry of the map denotes a condition.
pub open spec fn spec_filter_extractable(
    fields: Seq<crate::projection::ProjectionFieldView>,
    entries: Seq<(String, ParsedInputValue)>,
) -> bool {
    forall|i: int| 0 <= i < entries.len() ==> spec_entry_cond(fields, #[trigger] entries[i])
        is Some
}

/// The filter a parsed input map denotes: AND over its entry conditions.
pub open spec fn spec_extracted_filter(
    fields: Seq<crate::projection::ProjectionFieldView>,
    entries: Seq<(String, ParsedInputValue)>,
) -> FilterView {
    FilterView::And(
        entries.map_values(
            |e: (String, ParsedInputValue)| spec_entry_cond(fields, e)->Some_0,
        ),
    )
}

/// The first entry of the map that denotes no condition; meaningful only
/// when one exists.
pub open spec fn first_bad_filter_entry(
    fields: Seq<crate::projection::ProjectionFieldView>,
    entries: Seq<(String, ParsedInputValue)>,
) -> int
    decreases entries.len(),
{
    if entries.len() == 0 {
        0
    } else if spec_entry_cond(fields, entries[0]) is None {
        0
    } else {
        1 + first_bad_filter_entry(fields, entries.skip(1))
    }
}

pub proof fn lemma_first_bad_filter_entry_of(
    fields: Seq<crate::projection::ProjectionFieldView>,
    entries: Seq<(String, ParsedInputValue)>,
    k: int,
)
    requires
        0 <= k < entries.len(),
        spec_entry_cond(fields, entries[k]) is None,
        forall|l: int| 0 <= l < k ==> spec_entry_cond(fields, #[trigger] entries[l]) is Some,
    ensures
        first_bad_filter_entry(fields, entries) == k,
    decreases k,
{
    if k > 0 {
        assert forall|l: int| 0 <= l < k - 1 implies spec_entry_cond(
            fields,
            #[trigger] entries.skip(1)[l],
        ) is Some by {
            assert(entries.skip(1)[l] == entries[l + 1]);
        }
        assert(entries.skip(1)[k - 1] == entries[k]);
        lemma_first_bad_filter_entry_of(fields, entries.skip(1), k - 1);
    }
}

/// What a filter-extraction failure reports: the first entry that denotes no
/// condition, named in the error — an unresolvable field as an assertion
/// failure naming field and model, a bad shape as an input error naming the
/// field.
pub open spec fn spec_filter_error(
    model: Model,
    entries: Seq<(String, ParsedInputValue)>,
    e: QueryGraphBuilderError,
) -> bool {
    let entry = entries[first_bad_filter_entry(field_views(model.fields@), entries)];
    if !names_contain(spec_field_names(field_views(model.fields@)), entry.0@) {
        e matches QueryGraphBuilderError::AssertionError(m) && m@ == entry.0@
            + " is not a field of "@ + model.name@
    } else {
        e matches QueryGraphBuilderError::InputError(m) && m@ == entry.0@
    }
}

/// Extracts the filter a parsed input map denotes over `model`: each entry
/// names a field and gives the scalar value its column must equal.
pub fn extract_filter(
    map: &Vec<(String, ParsedInputValue)>,
    model: &Model,
) -> (r: Result<Filter, QueryGraphBuilderError>)
    ensures
        r is Ok <==> spec_filter_extractable(field_views(model.fields@), map@),
        r matches Ok(f) ==> f@ == spec_extracted_filter(field_views(model.fields@), map@),
        r matches Err(e) ==> spec_filter_error(*model, map@, e),
{
    let ghost fields = field_views(model.fields@);
    let ghost entries = map@;
    let mut conds: Vec<Filter> = Vec::new();
    let mut i: usize = 0;
    proof {
        assert(conds@.map_values(|f: Filter| f@) =~= entries.take(0).map_values(
            |e: (String, ParsedInputValue)| spec_entry_cond(fields, e)->Some_0,
        ));
    }
    while i < map.len()
        invariant
            i <= map.len(),
            fields == field_views(model.fields@),
            entries == map@,
            conds@.len() == i,
            forall|j: int| 0 <= j < i ==> spec_entry_cond(fields, #[trigger] entries[j]) is Some,
            conds@.map_values(|f: Filter| f@) == entries.take(i as int).map_values(
                |e: (String, ParsedInputValue)| spec_entry_cond(fields, e)->Some_0,
            ),
        decreases map.len() - i,
    {
        let entry = &map[i];
        match model.find_field(&entry.0) {
            Some(field) => {
                proof {
                    crate::projection::lemma_name_index(
                        spec_field_names(fields),
                        entries[i as int].0@,
                    );
                }
                if field.db_names.len() == 1 {
                    match &entry.1 {
                        ParsedInputValue::Single(v) => {
                            conds.push(Filter::Equals(field.db_names[0].clone(), v.clone()));
                            proof {
                                assert(fields[name_index(spec_field_names(fields), entries[
                                    i as int
                                ].0@)] == field@);
                                assert(field@.db_names[0] == field.db_names@[0]@);
                                assert(spec_entry_cond(fields, entries[i as int]) == Some(
                                    FilterView::Equals(field@.db_names[0], v@),
                                ));
                                assert(conds@.map_values(|f: Filter| f@) =~= entries.take(
                                    i + 1,
                                ).map_values(
                                    |e: (String, ParsedInputValue)| spec_entry_cond(
                                        fields,
                                        e,
                                    )->Some_0,
                                ));
                            }
                        },
                        _ => {
                            proof {
                                assert(spec_entry_cond(fields, entries[i as int]) is None);
                                lemma_first_bad_filter_entry_of(fields, entries, i as int);
                            }
                            return Err(QueryGraphBuilderError::InputError(entry.0.clone()));
                        },
                    }
                } else {
                    proof {
                        assert(fields[name_index(spec_field_names(fields), entries[i as int].0@)]
                            == field@);
                        assert(field@.db_names.len() == field.db_names@.len());
                        assert(spec_entry_cond(fields, entries[i as int]) is None);
                        lemma_first_bad_filter_entry_of(fields, entries, i as int);
                    }
                    return Err(QueryGraphBuilderError::InputError(entry.0.clone()));
                }
            },
            None => {
                proof {
                    assert(spec_entry_cond(fields, entries[i as int]) is None);
                    lemma_first_bad_filter_entry_of(fields, entries, i as int);
                }
                return Err(
                    QueryGraphBuilderError::AssertionError(
                        entry.0.clone().concat(" is not a field of ").concat(
                            model.name.as_str(),
                        ),
                    ),
                );
            },
        }
        i += 1;
    }
    proof {
        assert(entries.take(map@.len() as int) =~= entries);
    }
    let r = Filter::And(conds);
    proof {
        assert(r@ matches FilterView::And(s) && s =~= entries.map_values(
            |e: (String, ParsedInputValue)| spec_entry_cond(fields, e)->Some_0,
        ));
    }
    Ok(r)
}

/// Adds the read node that discovers the children connected to the parent
/// through the relation, under an extra filter, and wires the parent's
/// identities into it.
pub fn insert_find_children_by_parent_node(
    graph: &mut QueryGraph,
    parent_node: &NodeRef,
    parent_relation_field: &RelationField,
    filter: Filter,
) -> (r: Result<NodeRef, QueryGraphBuilderError>)
    ensures
        r is Ok <==> parent_node.node_ix < old(graph).nodes@.len() as int + 1,
        r matches Ok(node) ==> node.node_ix == old(graph).nodes@.len() && final(graph).nodes@
            == old(graph).nodes@.push(
            Node::Read(
                ReadNode {
                    model: parent_relation_field.related_model_name,
                    filter: filter,
                    parent_projections: None,
                },
            ),
        ) && final(graph).edges@.len() == old(graph).edges@.len() + 1 && final(graph).edges@.take(
            old(graph).edges@.len() as int,
        ) == old(graph).edges@ && (final(graph).edges@.last() matches crate::query_graph::Edge {
            source,
            target,
            dependency,
        } && source == parent_node.node_ix && target == node.node_ix && (dependency matches
        QueryGraphDependency::ParentProjection(proj, t) && proj@
            == parent_relation_field.linking_fields@ && t is InjectParentProjections)),
        r is Err ==> final(graph).nodes@ == old(graph).nodes@.push(
            Node::Read(
                ReadNode {
                    model: parent_relation_field.related_model_name,
                    filter: filter,
                    parent_projections: None,
                },
            ),
        ) && final(graph).edges == old(graph).edges,
{
    let read_node = Node::Read(
        ReadNode {
            model: clone_string(&parent_relation_field.related_model_name),
            filter,
            parent_projections: None,
        },
    );
    let node_ref = graph.create_node(read_node);
    let dependency = QueryGraphDependency::ParentProjection(
        parent_relation_field.linking_fields.clone(),
        Transformation::InjectParentProjections,
    );
    match graph.create_edge(parent_node, &node_ref, dependency) {
        Ok(()) => {
            proof {
                assert(final(graph).edges@.take(old(graph).edges@.len() as int) =~= old(graph).edges@);
            }
            Ok(node_ref)
        },
        Err(e) => Err(e),
    }
}

/// Clones one name.
fn clone_string(s: &String) -> (r: String)
    ensures
        r == *s,
{
    s.clone()
}

/// Adds the deletion-checks node between discovery and deletion: the
/// discovered identities flow into the check node, and the delete node is
/// ordered after the check.
pub fn insert_deletion_checks(
    graph: &mut QueryGraph,
    child_model: &Model,
    find_node: &NodeRef,
    delete_node: &NodeRef,
) -> (r: Result<(), QueryGraphBuilderError>)
    ensures
        r is Ok <==> find_node.node_ix < old(graph).nodes@.len() + 1 && delete_node.node_ix
            < old(graph).nodes@.len() as int + 1,
        r is Ok ==> final(graph).nodes@ == old(graph).nodes@.push(
            Node::Check(DeletionCheck { model: child_model.name, parent_projections: None }),
        ) && final(graph).edges@.len() == old(graph).edges@.len() + 2 && final(graph).edges@.take(
            old(graph).edges@.len() as int,
        ) == old(graph).edges@ && (final(graph).edges@[final(graph).edges@.len() - 2] matches
        crate::query_graph::Edge { source, target, dependency } && source == find_node.node_ix
            && target == old(graph).nodes@.len() && (dependency matches
        QueryGraphDependency::ParentProjection(proj, t) && proj@
            == child_model.primary_identifier@ && t is InjectParentProjections))
            && (final(graph).edges@.last() matches crate::query_graph::Edge {
            source,
            target,
            dependency,
        } && source == old(graph).nodes@.len() && target == delete_node.node_ix && dependency
            is ExecutionOrder),
{
    let check_node = graph.create_node(
        Node::Check(
            DeletionCheck { model: clone_string(&child_model.name), parent_projections: None },
        ),
    );
    let ghost mid_edges = graph.edges@;
    let dependency = QueryGraphDependency::ParentProjection(
        child_model.primary_identifier(),
        Transformation::InjectParentProjections,
    );
    match graph.create_edge(find_node, &check_node, dependency) {
        Ok(()) => {},
        Err(e) => {
            return Err(e);
        },
    }
    match graph.create_edge(&check_node, delete_node, QueryGraphDependency::ExecutionOrder) {
        Ok(()) => {},
        Err(e) => {
            return Err(e);
        },
    }
    proof {
        assert(final(graph).edges@.take(old(graph).edges@.len() as int) =~= old(graph).edges@);
    }
    Ok(())
}

/// The values a nested-delete argument coerces to.
pub open spec fn spec_coerced(v: ParsedInputValue) -> Seq<ParsedInputValue> {
    match v {
        ParsedInputValue::List(items) => items@,
        other => seq![other],
    }
}

/// Whether one coerced nested-delete value is a one-entry, non-null map whose
/// filter is extractable over the child model.
pub open spec fn spec_delete_value_ok(
    fields: Seq<crate::projection::ProjectionFieldView>,
    v: ParsedInputValue,
) -> bool {
    &&& v is Object
    &&& v->Object_0@.len() == 1
    &&& forall|i: int| 0 <= i < v->Object_0@.len() ==> !((#[trigger] v->Object_0@[i]).1 matches
        ParsedInputValue::Single(x) && x is Null)
    &&& spec_filter_extractable(fields, v->Object_0@)
}

/// The per-value filters of a nested delete.
pub open spec fn spec_delete_filters(
    fields: Seq<crate::projection::ProjectionFieldView>,
    vs: Seq<ParsedInputValue>,
) -> Seq<FilterView> {
    vs.map_values(|v: ParsedInputValue| spec_extracted_filter(fields, v->Object_0@))
}

/// The three wiring edges every nested-delete subgraph carries, starting at
/// edge index `e0`: the parent's identities flow into the discovery read, the
/// discovered identities flow into the check, and the delete is ordered after
/// the check.
pub open spec fn spec_wiring_edges(
    edges: Seq<crate::query_graph::Edge>,
    e0: int,
    parent: int,
    read_ix: int,
    check_ix: int,
    delete_ix: int,
    linking: Seq<crate::projection::ProjectionFieldView>,
    pid: Seq<crate::projection::ProjectionFieldView>,
) -> bool {
    &&& edges[e0] matches crate::query_graph::Edge { source, target, dependency } && source
        == parent && target == read_ix && (dependency matches
    QueryGraphDependency::ParentProjection(proj, t) && proj@ == linking
        && t is InjectParentProjections)
    &&& edges[e0 + 1] matches crate::query_graph::Edge { source, target, dependency } && source
        == read_ix && target == check_ix && (dependency matches
    QueryGraphDependency::ParentProjection(proj, t) && proj@ == pid
        && t is InjectParentProjections)
    &&& edges[e0 + 2] matches crate::query_graph::Edge { source, target, dependency } && source
        == check_ix && target == delete_ix && dependency is ExecutionOrder
}

/// The discovery read node and the check node every nested-delete subgraph
/// carries, at node indexes `read_ix` and `check_ix`.
pub open spec fn spec_discover_and_check_nodes(
    nodes: Seq<Node>,
    read_ix: int,
    check_ix: int,
    related_model: Seq<char>,
    child_name: Seq<char>,
    read_filter: FilterView,
) -> bool {
    &&& nodes[read_ix] matches Node::Read(rn) && rn.model@ == related_model && rn.filter@
        == read_filter && rn.parent_projections is None
    &&& nodes[check_ix] matches Node::Check(cn) && cn.model@ == child_name
        && cn.parent_projections is None
}

/// Adds a nested delete under a parent node.
///
/// For a list relation, every given value selects one record by a one-entry
/// filter; the records are first discovered via the relation, checked, and
/// only then deleted — and the delete is rewritten at execution time to the
/// discovered identities, with the requirement that exactly as many connected
/// children are discovered as filters were given (else the declared linkage
/// is not connected and the graph fails).
///
/// For a non-list relation, a boolean value decides: `true` discovers, checks
/// and deletes the one connected record; any other scalar leaves the graph
/// unchanged.
pub fn connect_nested_delete(
    graph: &mut QueryGraph,
    parent_node: &NodeRef,
    parent_relation_field: &RelationField,
    value: ParsedInputValue,
    child_model: &Model,
) -> (r: Result<(), QueryGraphBuilderError>)
    requires
        parent_node.node_ix < old(graph).nodes@.len(),
    ensures
        parent_relation_field.is_list ==> (r is Ok <==> forall|k: int|
            0 <= k < spec_coerced(value).len() ==> spec_delete_value_ok(
                field_views(child_model.fields@),
                #[trigger] spec_coerced(value)[k],
            )),
        parent_relation_field.is_list && r is Ok ==> final(graph).nodes@.len() == old(graph).nodes@.len() + 3 && final(graph).nodes@.take(old(graph).nodes@.len() as int) == old(graph).nodes@ && (final(graph).nodes@[old(graph).nodes@.len() as int] matches Node::Write(
            WriteQuery::DeleteManyRecords { model, filter },
        ) && model@ == child_model.name@ && filter@ == FilterView::Or(
            spec_delete_filters(field_views(child_model.fields@), spec_coerced(value)),
        )) && spec_discover_and_check_nodes(
            final(graph).nodes@,
            old(graph).nodes@.len() as int + 1,
            old(graph).nodes@.len() as int + 2,
            parent_relation_field.related_model_name@,
            child_model.name@,
            FilterView::Or(
                spec_delete_filters(field_views(child_model.fields@), spec_coerced(value)),
            ),
        ) && final(graph).edges@.len() == old(graph).edges@.len() + 4 && final(graph).edges@.take(old(graph).edges@.len() as int) == old(graph).edges@ && spec_wiring_edges(
            final(graph).edges@,
            old(graph).edges@.len() as int,
            parent_node.node_ix as int,
            old(graph).nodes@.len() as int + 1,
            old(graph).nodes@.len() as int + 2,
            old(graph).nodes@.len() as int,
            parent_relation_field.linking_fields@,
            child_model.primary_identifier@,
        ) && (final(graph).edges@.last() matches crate::query_graph::Edge {
            source,
            target,
            dependency,
        } && source == old(graph).nodes@.len() + 1 && target == old(graph).nodes@.len() && (
        dependency matches QueryGraphDependency::ParentProjection(proj, t) && proj@
            == child_model.primary_identifier@ && (t matches
        Transformation::InjectFilterExpectCount {
            expected,
            relation_name,
            parent_name,
            child_name,
        } && expected == spec_coerced(value).len() && relation_name@
            == parent_relation_field.relation_name@ && parent_name@
            == parent_relation_field.model_name@ && child_name@ == child_model.name@))),
        !parent_relation_field.is_list ==> (r is Ok <==> value is Single),
        !parent_relation_field.is_list && (value matches ParsedInputValue::Single(v) && v matches
            PrismaValue::Boolean(b) && b) ==> final(graph).nodes@.len() == old(graph).nodes@.len() + 3 && final(graph).nodes@.take(old(graph).nodes@.len() as int) == old(graph).nodes@ && spec_discover_and_check_nodes(
            final(graph).nodes@,
            old(graph).nodes@.len() as int,
            old(graph).nodes@.len() as int + 2,
            parent_relation_field.related_model_name@,
            child_model.name@,
            FilterView::Empty,
        ) && (final(graph).nodes@[old(graph).nodes@.len() as int + 1] matches Node::Write(
            WriteQuery::DeleteRecord { model, filter },
        ) && model@ == child_model.name@ && filter is None) && final(graph).edges@.len() == old(graph).edges@.len() + 4 && final(graph).edges@.take(old(graph).edges@.len() as int) == old(graph).edges@ && spec_wiring_edges(
            final(graph).edges@,
            old(graph).edges@.len() as int,
            parent_node.node_ix as int,
            old(graph).nodes@.len() as int,
            old(graph).nodes@.len() as int + 2,
            old(graph).nodes@.len() as int + 1,
            parent_relation_field.linking_fields@,
            child_model.primary_identifier@,
        ) && (final(graph).edges@.last() matches crate::query_graph::Edge {
            source,
            target,
            dependency,
        } && source == old(graph).nodes@.len() && target == old(graph).nodes@.len() + 1 && (
        dependency matches QueryGraphDependency::ParentProjection(proj, t) && proj@
            == child_model.primary_identifier@ && t is InjectSingleIdFilter)),
        !parent_relation_field.is_list && (value matches ParsedInputValue::Single(v) && !(v
            matches PrismaValue::Boolean(b) && b)) ==> final(graph).nodes == old(graph).nodes
            && final(graph).edges == old(graph).edges,
        r is Err ==> final(graph).nodes == old(graph).nodes && final(graph).edges == old(graph).edges,
{
    if !parent_relation_field.is_list {
        let single = match value {
            ParsedInputValue::Single(v) => v,
            _ => {
                return Err(
                    QueryGraphBuilderError::InputError(
                        "every nested delete selector must be a map of fields to values".to_owned(),
                    ),
                );
            },
        };
        let should_delete = match single {
            PrismaValue::Boolean(b) => b,
            _ => false,
        };
        if !should_delete {
            return Ok(());
        }
        let find_child_records_node = match insert_find_children_by_parent_node(
            graph,
            parent_node,
            parent_relation_field,
            Filter::Empty,
        ) {
            Ok(n) => n,
            Err(e) => {
                return Err(e);
            },
        };
        let delete_record_node = graph.create_node(
            Node::Write(
                WriteQuery::DeleteRecord { model: clone_string(&child_model.name), filter: None },
            ),
        );
        match insert_deletion_checks(
            graph,
            child_model,
            &find_child_records_node,
            &delete_record_node,
        ) {
            Ok(()) => {},
            Err(e) => {
                proof {
                    assert(false);
                }
                return Err(e);
            },
        }
        let dependency = QueryGraphDependency::ParentProjection(
            child_model.primary_identifier(),
            Transformation::InjectSingleIdFilter,
        );
        match graph.create_edge(&find_child_records_node, &delete_record_node, dependency) {
            Ok(()) => {},
            Err(e) => {
                proof {
                    assert(false);
                }
                return Err(e);
            },
        }
        proof {
            assert(final(graph).nodes@.take(old(graph).nodes@.len() as int) =~= old(graph).nodes@);
            assert(final(graph).edges@.take(old(graph).edges@.len() as int) =~= old(graph).edges@);
        }
        return Ok(());
    }
    let ghost fields = field_views(child_model.fields@);
    let values = coerce_vec(value);
    let ghost coerced = spec_coerced(value);
    proof {
        assert(coerced =~= values@);
    }
    let mut filters: Vec<Filter> = Vec::new();
    let mut k: usize = 0;
    proof {
        assert(filters@.map_values(|f: Filter| f@) =~= spec_delete_filters(
            fields,
            coerced.take(0),
        ));
    }
    while k < values.len()
        invariant
            k <= values.len(),
            parent_relation_field.is_list,
            graph.nodes == old(graph).nodes,
            graph.edges == old(graph).edges,
            fields == field_views(child_model.fields@),
            coerced == values@,
            coerced == spec_coerced(value),
            filters@.len() == k,
            forall|l: int| 0 <= l < k ==> spec_delete_value_ok(fields, #[trigger] coerced[l]),
            filters@.map_values(|f: Filter| f@) == spec_delete_filters(
                fields,
                coerced.take(k as int),
            ),
        decreases values.len() - k,
    {
        match &values[k] {
            ParsedInputValue::Object(map) => {
                proof {
                    assert(values@[k as int] == ParsedInputValue::Object(*map));
                }
                match assert_size(map, 1) {
                    Ok(()) => {},
                    Err(e) => {
                        proof {
                            assert(!spec_delete_value_ok(
                                field_views(child_model.fields@),
                                spec_coerced(value)[k as int],
                            ));
                        }
                        return Err(e);
                    },
                }
                match assert_non_null(map) {
                    Ok(()) => {},
                    Err(e) => {
                        proof {
                            assert(!spec_delete_value_ok(
                                field_views(child_model.fields@),
                                spec_coerced(value)[k as int],
                            ));
                        }
                        return Err(e);
                    },
                }
                match extract_filter(map, child_model) {
                    Ok(f) => {
                        filters.push(f);
                        proof {
                            assert(spec_delete_value_ok(fields, coerced[k as int]));
                            assert(filters@.map_values(|x: Filter| x@) =~= spec_delete_filters(
                                fields,
                                coerced.take(k + 1),
                            ));
                        }
                    },
                    Err(e) => {
                        proof {
                            assert(!spec_delete_value_ok(
                                field_views(child_model.fields@),
                                spec_coerced(value)[k as int],
                            ));
                        }
                        return Err(e);
                    },
                }
            },
            _ => {
                proof {
                    assert(!spec_delete_value_ok(
                                field_views(child_model.fields@),
                                spec_coerced(value)[k as int],
                            ));
                }
                return Err(
                    QueryGraphBuilderError::InputError(
                        "every nested delete selector must be a map of fields to values".to_owned(),
                    ),
                );
            },
        }
        k += 1;
    }
    proof {
        assert(coerced.take(values@.len() as int) =~= coerced);
    }
    let filter_len = values.len();
    let or_filter = Filter::Or(filters);
    let ghost or_view = or_filter@;
    proof {
        assert(or_view matches FilterView::Or(s) && s =~= spec_delete_filters(fields, coerced));
        assert(or_view == FilterView::Or(spec_delete_filters(fields, coerced)));
    }
    let or_filter2 = or_filter.clone();
    let delete_many_node = graph.create_node(
        Node::Write(
            WriteQuery::DeleteManyRecords {
                model: clone_string(&child_model.name),
                filter: or_filter,
            },
        ),
    );
    let find_child_records_node = match insert_find_children_by_parent_node(
        graph,
        parent_node,
        parent_relation_field,
        or_filter2,
    ) {
        Ok(n) => n,
        Err(e) => {
            return Err(e);
        },
    };
    match insert_deletion_checks(graph, child_model, &find_child_records_node, &delete_many_node) {
        Ok(()) => {},
        Err(e) => {
            return Err(e);
        },
    }
    let dependency = QueryGraphDependency::ParentProjection(
        child_model.primary_identifier(),
        Transformation::InjectFilterExpectCount {
            expected: filter_len,
            relation_name: clone_string(&parent_relation_field.relation_name),
            parent_name: clone_string(&parent_relation_field.model_name),
            child_name: clone_string(&child_model.name),
        },
    );
    match graph.create_edge(&find_child_records_node, &delete_many_node, dependency) {
        Ok(()) => {},
        Err(e) => {
            return Err(e);
        },
    }
    proof {
        assert(final(graph).nodes@.take(old(graph).nodes@.len() as int) =~= old(graph).nodes@);
    }
    Ok(())
}

/// One unit of a nested delete-many: its discovery read node (carrying the
/// extracted filter), its delete node (same filter), its check node, the
/// three wiring edges, and a data-flow edge that narrows the delete to the
/// discovered identities, without a count check.
pub open spec fn spec_delete_many_unit(
    nodes: Seq<Node>,
    edges: Seq<crate::query_graph::Edge>,
    n0: int,
    e0: int,
    parent: int,
    linking: Seq<crate::projection::ProjectionFieldView>,
    related_model: Seq<char>,
    pid: Seq<crate::projection::ProjectionFieldView>,
    child_name: Seq<char>,
    filter: FilterView,
) -> bool {
    &&& spec_discover_and_check_nodes(nodes, n0, n0 + 2, related_model, child_name, filter)
    &&& nodes[n0 + 1] matches Node::Write(WriteQuery::DeleteManyRecords { model, filter: f })
        && model@ == child_name && f@ == filter
    &&& spec_wiring_edges(edges, e0, parent, n0, n0 + 2, n0 + 1, linking, pid)
    &&& edges[e0 + 3] matches crate::query_graph::Edge { source, target, dependency } && source
        == n0 && target == n0 + 1 && (dependency matches QueryGraphDependency::ParentProjection(
        proj,
        t,
    ) && proj@ == pid && t is InjectFilter)
}

/// Adds one delete-many subgraph per given filter map: the records matching
/// each filter are discovered via the relation, checked, and the delete is
/// narrowed to the discovered identities at execution time. Unlike the
/// filtered single deletes, no count check is installed.
pub fn connect_nested_delete_many(
    graph: &mut QueryGraph,
    parent: &NodeRef,
    parent_relation_field: &RelationField,
    value: ParsedInputValue,
    child_model: &Model,
) -> (r: Result<(), QueryGraphBuilderError>)
    requires
        parent.node_ix < old(graph).nodes@.len(),
    ensures
        r is Ok <==> forall|k: int| 0 <= k < spec_coerced(value).len()
            ==> ((#[trigger] spec_coerced(value)[k]) is Object && spec_filter_extractable(
            field_views(child_model.fields@),
            spec_coerced(value)[k]->Object_0@,
        )),
        r is Ok ==> final(graph).nodes@.len() == old(graph).nodes@.len() + 3 * spec_coerced(
            value,
        ).len() && final(graph).nodes@.take(old(graph).nodes@.len() as int) == old(graph).nodes@
            && final(graph).edges@.len() == old(graph).edges@.len() + 4 * spec_coerced(
            value,
        ).len() && final(graph).edges@.take(old(graph).edges@.len() as int) == old(graph).edges@
            && forall|k: int| 0 <= k < spec_coerced(value).len() ==> spec_delete_many_unit(
                final(graph).nodes@,
                final(graph).edges@,
                old(graph).nodes@.len() + 3 * k,
                old(graph).edges@.len() + 4 * k,
                parent.node_ix as int,
                parent_relation_field.linking_fields@,
                parent_relation_field.related_model_name@,
                child_model.primary_identifier@,
                child_model.name@,
                spec_extracted_filter(
                    field_views(child_model.fields@),
                    (#[trigger] spec_coerced(value)[k])->Object_0@,
                ),
            ),
{
    let ghost fields = field_views(child_model.fields@);
    let values = coerce_vec(value);
    let ghost coerced = spec_coerced(value);
    proof {
        assert(coerced =~= values@);
        assert(graph.nodes@.take(old(graph).nodes@.len() as int) =~= old(graph).nodes@);
        assert(graph.edges@.take(old(graph).edges@.len() as int) =~= old(graph).edges@);
    }
    let mut k: usize = 0;
    while k < values.len()
        invariant
            k <= values.len(),
            fields == field_views(child_model.fields@),
            coerced == values@,
            coerced == spec_coerced(value),
            coerced.len() == values@.len(),
            parent.node_ix < old(graph).nodes@.len(),
            graph.nodes@.len() == old(graph).nodes@.len() + 3 * k,
            graph.nodes@.take(old(graph).nodes@.len() as int) == old(graph).nodes@,
            graph.edges@.len() == old(graph).edges@.len() + 4 * k,
            graph.edges@.take(old(graph).edges@.len() as int) == old(graph).edges@,
            forall|l: int| 0 <= l < k ==> ((#[trigger] coerced[l]) is Object
                && spec_filter_extractable(fields, coerced[l]->Object_0@)),
            forall|l: int| 0 <= l < k ==> spec_delete_many_unit(
                graph.nodes@,
                graph.edges@,
                old(graph).nodes@.len() + 3 * l,
                old(graph).edges@.len() + 4 * l,
                parent.node_ix as int,
                parent_relation_field.linking_fields@,
                parent_relation_field.related_model_name@,
                child_model.primary_identifier@,
                child_model.name@,
                spec_extracted_filter(fields, (#[trigger] coerced[l])->Object_0@),
            ),
        decreases values.len() - k,
    {
        let ghost nodes_head = graph.nodes@;
        let ghost edges_head = graph.edges@;
        let map = match &values[k] {
            ParsedInputValue::Object(map) => map,
            _ => {
                return Err(
                    QueryGraphBuilderError::InputError(
                        "every nested delete selector must be a map of fields to values".to_owned(),
                    ),
                );
            },
        };
        let filter = match extract_filter(map, child_model) {
            Ok(f) => f,
            Err(e) => {
                return Err(e);
            },
        };
        let filter2 = filter.clone();
        let find_child_records_node = match insert_find_children_by_parent_node(
            graph,
            parent,
            parent_relation_field,
            filter,
        ) {
            Ok(n) => n,
            Err(e) => {
                proof {
                    assert(false);
                }
                return Err(e);
            },
        };
        let delete_many_node = graph.create_node(
            Node::Write(
                WriteQuery::DeleteManyRecords {
                    model: clone_string(&child_model.name),
                    filter: filter2,
                },
            ),
        );
        match insert_deletion_checks(
            graph,
            child_model,
            &find_child_records_node,
            &delete_many_node,
        ) {
            Ok(()) => {},
            Err(e) => {
                proof {
                    assert(false);
                }
                return Err(e);
            },
        }
        let dependency = QueryGraphDependency::ParentProjection(
            child_model.primary_identifier(),
            Transformation::InjectFilter,
        );
        match graph.create_edge(&find_child_records_node, &delete_many_node, dependency) {
            Ok(()) => {},
            Err(e) => {
                proof {
                    assert(false);
                }
                return Err(e);
            },
        }
        proof {
            assert(graph.nodes@.take(nodes_head.len() as int) =~= nodes_head);
            assert(graph.edges@.take(edges_head.len() as int) =~= edges_head);
            assert(graph.nodes@.take(old(graph).nodes@.len() as int) =~= old(graph).nodes@);
            assert(graph.edges@.take(old(graph).edges@.len() as int) =~= old(graph).edges@);
            let n0 = old(graph).nodes@.len() + 3 * k;
            let e0 = old(graph).edges@.len() + 4 * k;
            assert(spec_delete_many_unit(
                graph.nodes@,
                graph.edges@,
                n0,
                e0,
                parent.node_ix as int,
                parent_relation_field.linking_fields@,
                parent_relation_field.related_model_name@,
                child_model.primary_identifier@,
                child_model.name@,
                spec_extracted_filter(fields, coerced[k as int]->Object_0@),
            ));
            assert forall|l: int| 0 <= l < k + 1 implies spec_delete_many_unit(
                graph.nodes@,
                graph.edges@,
                old(graph).nodes@.len() + 3 * l,
                old(graph).edges@.len() + 4 * l,
                parent.node_ix as int,
                parent_relation_field.linking_fields@,
                parent_relation_field.related_model_name@,
                child_model.primary_identifier@,
                child_model.name@,
                spec_extracted_filter(fields, (#[trigger] coerced[l])->Object_0@),
            ) by {
                if l < k {
                    let m0 = old(graph).nodes@.len() + 3 * l;
                    let f0 = old(graph).edges@.len() + 4 * l;
                    assert(m0 + 2 < nodes_head.len());
                    assert(f0 + 3 < edges_head.len());
                    assert(graph.nodes@[m0] == nodes_head[m0]);
                    assert(graph.nodes@[m0 + 1] == nodes_head[m0 + 1]);
                    assert(graph.nodes@[m0 + 2] == nodes_head[m0 + 2]);
                    assert(graph.edges@[f0] == edges_head[f0]);
                    assert(graph.edges@[f0 + 1] == edges_head[f0 + 1]);
                    assert(graph.edges@[f0 + 2] == edges_head[f0 + 2]);
                    assert(graph.edges@[f0 + 3] == edges_head[f0 + 3]);
                }
            }
        }
        k += 1;
    }
    proof {
        assert(coerced.take(values@.len() as int) =~= coerced);
    }
    Ok(())
}

} // verus!

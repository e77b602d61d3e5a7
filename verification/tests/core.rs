use query_core::cursor_condition::{CompareOp, Comparison, ConditionTree};
use query_core::delete_nested::{connect_nested_delete, extract_filter};
use query_core::error::{DomainError, InterpreterError, QueryGraphBuilderError};
use query_core::extractors::{extract_cursor, extract_query_args, ParsedArgument};
use query_core::filter::Filter;
use query_core::interpreter::{Interpreter, NodeState};
use query_core::migration::{output_after_rollback, output_no_candidate, should_unapply};
use query_core::model::{CompoundIndex, Model};
use query_core::nested_read::{
    distinct_projections, m2m_attach, one2m_attach, relation_filter, resolve_parent_projections,
    NestedPagination, RelationField,
};
use query_core::parsed_input::ParsedInputValue;
use query_core::prisma_value::PrismaValue;
use query_core::projection::{ModelProjection, ProjectionField, RecordProjection};
use query_core::query_arguments::{OrderBy, QueryArguments, SortOrder};
use query_core::query_graph::{
    apply_transformation, Node, QueryGraph, QueryGraphDependency, ReadNode, Transformation,
    WriteQuery,
};
use query_core::record::{ManyRecords, Record, SingleRecord};
use query_core::scalar_field::{InternalDataModel, ScalarFieldTemplate};

fn s(x: &str) -> String {
    x.to_string()
}

fn iv(n: i64) -> PrismaValue {
    PrismaValue::Int(n)
}

fn field(name: &str, db: &str) -> ProjectionField {
    ProjectionField { name: s(name), db_names: vec![s(db)] }
}

fn pair(name: &str, v: PrismaValue) -> (String, PrismaValue) {
    (s(name), v)
}

fn proj(pairs: Vec<(String, PrismaValue)>) -> RecordProjection {
    RecordProjection::new(pairs)
}

fn post_model() -> Model {
    Model {
        name: s("Post"),
        fields: vec![field("authorId", "author_id"), field("slug", "slug")],
        primary_identifier: ModelProjection {
            fields: vec![field("authorId", "author_id"), field("slug", "slug")],
        },
        compound_indexes: vec![CompoundIndex {
            name: s("authorId_slug"),
            fields: vec![field("authorId", "author_id"), field("slug", "slug")],
        }],
    }
}

fn user_model() -> Model {
    Model {
        name: s("User"),
        fields: vec![field("id", "id"), field("name", "name")],
        primary_identifier: ModelProjection { fields: vec![field("id", "id")] },
        compound_indexes: vec![],
    }
}

#[test]
fn projection_equality_is_order_independent() {
    let a = proj(vec![pair("a", iv(1)), pair("b", iv(2))]);
    let b = proj(vec![pair("b", iv(2)), pair("a", iv(1))]);
    assert!(a.equals(&b));
    assert!(b.equals(&a));
    let c = proj(vec![pair("a", iv(1)), pair("b", iv(3))]);
    assert!(!a.equals(&c));
}

#[test]
fn projection_extraction_round_trips() {
    let record = Record::new(vec![iv(7), iv(9)]);
    let names = vec![s("author_id"), s("slug")];
    let mp = ModelProjection { fields: vec![field("authorId", "author_id")] };
    let p1 = record.projection(&names, &mp).unwrap();
    let p2 = record.projection(&names, &mp).unwrap();
    assert!(p1.equals(&p2));
    assert_eq!(p1.pairs.len(), 1);
    assert_eq!(p1.pairs[0].0, s("author_id"));
    assert!(p1.pairs[0].1.value_eq(&iv(7)));
}

#[test]
fn projection_missing_field_is_reported() {
    let record = Record::new(vec![iv(7)]);
    let names = vec![s("author_id")];
    let mp = ModelProjection { fields: vec![field("slug", "slug")] };
    match record.projection(&names, &mp) {
        Err(DomainError::FieldNotFound { name, .. }) => assert_eq!(name, s("slug")),
        _ => panic!("expected a field-not-found error"),
    }
}

#[test]
fn get_field_value_finds_first_occurrence() {
    let record = Record::new(vec![iv(1), iv(2)]);
    let names = vec![s("x"), s("x")];
    let v = record.get_field_value(&names, &s("x")).unwrap();
    assert!(v.value_eq(&iv(1)));
    assert!(record.get_field_value(&names, &s("y")).is_err());
}

#[test]
fn split_into_partitions_pairs() {
    let p = proj(vec![pair("id", iv(1)), pair("fk", iv(9))]);
    let shapes = vec![
        ModelProjection { fields: vec![field("id", "id")] },
        ModelProjection { fields: vec![field("fk", "fk")] },
    ];
    let halves = p.split_into(&shapes).unwrap();
    assert_eq!(halves.len(), 2);
    assert!(halves[0].equals(&proj(vec![pair("id", iv(1))])));
    assert!(halves[1].equals(&proj(vec![pair("fk", iv(9))])));
}

#[test]
fn many_records_reverse_and_pairs() {
    let mut mr = ManyRecords {
        records: vec![Record::new(vec![iv(1)]), Record::new(vec![iv(2)])],
        field_names: vec![s("id")],
    };
    let pairs = mr.as_pairs();
    assert_eq!(pairs.len(), 2);
    assert_eq!(pairs[0][0].0, s("id"));
    assert!(pairs[0][0].1.value_eq(&iv(1)));
    mr.reverse();
    assert!(mr.records[0].values[0].value_eq(&iv(2)));
}

#[test]
fn single_record_projects() {
    let single = SingleRecord::new(Record::new(vec![iv(5)]), vec![s("id")]);
    let mp = ModelProjection { fields: vec![field("id", "id")] };
    let p = single.projection(&mp).unwrap();
    assert!(p.equals(&proj(vec![pair("id", iv(5))])));
    let many = single.into_many();
    assert_eq!(many.records.len(), 1);
}

#[test]
fn m2m_fanout_conserves_parents() {
    // Two parents share the one fetched child: the result holds exactly two
    // records for it, one per parent, with the child's own values unchanged.
    let scalars = ManyRecords {
        records: vec![Record::new(vec![iv(10)])],
        field_names: vec![s("id")],
    };
    let rows = vec![
        (proj(vec![pair("id", iv(1))]), proj(vec![pair("id", iv(10))])),
        (proj(vec![pair("id", iv(2))]), proj(vec![pair("id", iv(10))])),
    ];
    let child_pid = ModelProjection { fields: vec![field("id", "id")] };
    let out = m2m_attach(scalars, &rows, &child_pid).unwrap();
    assert_eq!(out.records.len(), 2);
    let p0 = out.records[0].parent_id.as_ref().unwrap();
    let p1 = out.records[1].parent_id.as_ref().unwrap();
    assert!(p0.equals(&proj(vec![pair("id", iv(1))])));
    assert!(p1.equals(&proj(vec![pair("id", iv(2))])));
    assert!(!p0.equals(p1));
    assert!(out.records[0].values[0].value_eq(&iv(10)));
    assert!(out.records[1].values[0].value_eq(&iv(10)));
}

#[test]
fn m2m_unknown_child_aborts() {
    let scalars = ManyRecords {
        records: vec![Record::new(vec![iv(99)])],
        field_names: vec![s("id")],
    };
    let rows = vec![(proj(vec![pair("id", iv(1))]), proj(vec![pair("id", iv(10))]))];
    let child_pid = ModelProjection { fields: vec![field("id", "id")] };
    match m2m_attach(scalars, &rows, &child_pid) {
        Err(InterpreterError::InconsistentResultData) => {},
        _ => panic!("expected a consistency violation"),
    }
}

fn one2m_relation(parent_inlined: bool, child_inlined: bool) -> RelationField {
    RelationField {
        name: s("posts"),
        relation_name: s("PostToUser"),
        model_name: s("User"),
        related_model_name: s("Post"),
        is_list: true,
        is_inlined_on_enclosing_model: parent_inlined,
        related_field_is_inlined: child_inlined,
        linking_fields: ModelProjection { fields: vec![field("id", "id")] },
        related_linking_fields: ModelProjection { fields: vec![field("author", "author_id")] },
    }
}

#[test]
fn one2m_child_inlined_assigns_first_parent_only() {
    // Child carries author_id = 1; the group for value 1 holds two parents,
    // the child is assigned the first; the other parent gets no record.
    let scalars = ManyRecords {
        records: vec![Record::new(vec![iv(100), iv(1)])],
        field_names: vec![s("id"), s("author_id")],
    };
    let joined = vec![
        (proj(vec![pair("id", iv(1))]), proj(vec![pair("author_id", iv(1))])),
        (proj(vec![pair("id", iv(2))]), proj(vec![pair("author_id", iv(1))])),
    ];
    let child_link = ModelProjection { fields: vec![field("author", "author_id")] };
    let rf = one2m_relation(false, true);
    let out = one2m_attach(&rf, scalars, &joined, &child_link).unwrap();
    assert_eq!(out.records.len(), 1);
    let p = out.records[0].parent_id.as_ref().unwrap();
    assert!(p.equals(&proj(vec![pair("id", iv(1))])));
}

#[test]
fn one2m_parent_inlined_fans_out() {
    let scalars = ManyRecords {
        records: vec![Record::new(vec![iv(100), iv(1)])],
        field_names: vec![s("id"), s("author_id")],
    };
    let joined = vec![
        (proj(vec![pair("id", iv(1))]), proj(vec![pair("author_id", iv(1))])),
        (proj(vec![pair("id", iv(2))]), proj(vec![pair("author_id", iv(1))])),
    ];
    let child_link = ModelProjection { fields: vec![field("author", "author_id")] };
    let rf = one2m_relation(true, false);
    let out = one2m_attach(&rf, scalars, &joined, &child_link).unwrap();
    assert_eq!(out.records.len(), 2);
}

#[test]
fn one2m_without_inlining_is_fatal() {
    let scalars = ManyRecords { records: vec![], field_names: vec![s("id")] };
    let rf = one2m_relation(false, false);
    let child_link = ModelProjection { fields: vec![field("author", "author_id")] };
    match one2m_attach(&rf, scalars, &vec![], &child_link) {
        Err(InterpreterError::RelationNotInlined) => {},
        _ => panic!("expected the modeling-inconsistency error"),
    }
}

#[test]
fn parent_projections_come_from_results_when_not_explicit() {
    let mr = ManyRecords {
        records: vec![Record::new(vec![iv(1)]), Record::new(vec![iv(2)])],
        field_names: vec![s("id")],
    };
    let pid = ModelProjection { fields: vec![field("id", "id")] };
    let ids = resolve_parent_projections(None, Some(&mr), &pid).unwrap();
    assert_eq!(ids.len(), 2);
    assert!(ids[1].equals(&proj(vec![pair("id", iv(2))])));
    match resolve_parent_projections(None, None, &pid) {
        Err(InterpreterError::MissingParentResults) => {},
        _ => panic!("expected the missing-parent-results error"),
    }
}

#[test]
fn distinct_projections_dedups_by_pair_set() {
    let ids = vec![
        proj(vec![pair("id", iv(1))]),
        proj(vec![pair("id", iv(1))]),
        proj(vec![pair("id", iv(2))]),
    ];
    let d = distinct_projections(&ids);
    assert_eq!(d.len(), 2);
}

#[test]
fn relation_filter_uses_in_for_single_column() {
    let link = ModelProjection { fields: vec![field("author", "author_id")] };
    let ids = vec![proj(vec![pair("author_id", iv(1))]), proj(vec![pair("author_id", iv(2))])];
    match relation_filter(&link, &ids) {
        Filter::In(column, values) => {
            assert_eq!(column, s("author_id"));
            assert_eq!(values.len(), 2);
            assert!(values[0].value_eq(&iv(1)));
        },
        _ => panic!("expected an IN filter"),
    }
}

#[test]
fn relation_filter_uses_or_for_compound_link() {
    let link = ModelProjection {
        fields: vec![field("authorId", "author_id"), field("slug", "slug")],
    };
    let ids = vec![proj(vec![
        pair("author_id", iv(1)),
        pair("slug", PrismaValue::String(s("hi"))),
    ])];
    match relation_filter(&link, &ids) {
        Filter::Or(per_id) => {
            assert_eq!(per_id.len(), 1);
            match &per_id[0] {
                Filter::And(conds) => assert_eq!(conds.len(), 2),
                _ => panic!("expected per-identity AND"),
            }
        },
        _ => panic!("expected an OR filter"),
    }
}

#[test]
fn pagination_applies_skip_first_last() {
    let mk = |n: i64| Record::new(vec![iv(n)]);
    let mut mr = ManyRecords {
        records: vec![mk(1), mk(2), mk(3), mk(4), mk(5)],
        field_names: vec![s("id")],
    };
    let p = NestedPagination { skip: Some(1), first: Some(3), last: Some(2) };
    p.apply_pagination(&mut mr);
    assert_eq!(mr.records.len(), 2);
    assert!(mr.records[0].values[0].value_eq(&iv(3)));
    assert!(mr.records[1].values[0].value_eq(&iv(4)));
}

#[test]
fn cursor_condition_without_cursors_is_empty() {
    let model = user_model();
    let args = QueryArguments::default();
    match model.cursor_condition(&args) {
        Ok(ConditionTree::NoCondition) => {},
        _ => panic!("expected no condition"),
    }
}

#[test]
fn cursor_condition_after_ascending_shape() {
    let model = user_model();
    let mut args = QueryArguments::default();
    args.after = Some(proj(vec![pair("id", iv(5))]));
    let tree = model.cursor_condition(&args).unwrap();
    // (order == subquery AND id > values) OR (order > subquery)
    match tree {
        ConditionTree::Or(eq_part, cmp_part) => {
            match *eq_part {
                ConditionTree::And(first, second) => {
                    match *first {
                        ConditionTree::Single(c) => match *c {
                            Comparison::RowCmpSelect { op, columns, select } => {
                                assert_eq!(op, CompareOp::Eq);
                                assert_eq!(columns, vec![s("id")]);
                                assert_eq!(select.table, s("User"));
                            },
                            _ => panic!("expected a subquery comparison"),
                        },
                        _ => panic!("expected a single comparison"),
                    }
                    match *second {
                        ConditionTree::Single(c) => match *c {
                            Comparison::RowCmpValues { op, values, .. } => {
                                assert_eq!(op, CompareOp::Gt);
                                assert!(values[0].value_eq(&iv(5)));
                            },
                            _ => panic!("expected a literal row comparison"),
                        },
                        _ => panic!("expected a single comparison"),
                    }
                },
                _ => panic!("expected the tie-break AND"),
            }
            match *cmp_part {
                ConditionTree::Single(c) => match *c {
                    Comparison::RowCmpSelect { op, .. } => assert_eq!(op, CompareOp::Gt),
                    _ => panic!("expected a subquery comparison"),
                },
                _ => panic!("expected a single comparison"),
            }
        },
        _ => panic!("expected an OR tree"),
    }
}

#[test]
fn cursor_condition_rejects_implicit_compound_ordering() {
    // Model projection over the compound primary key has two columns, so an
    // implicit ordering must be rejected.
    let model = post_model();
    let mut args = QueryArguments::default();
    args.after = Some(proj(vec![
        pair("author_id", iv(1)),
        pair("slug", PrismaValue::String(s("intro"))),
    ]));
    match model.cursor_condition(&args) {
        Err(DomainError::MultiFieldOrdering) => {},
        _ => panic!("expected the multi-column implicit ordering rejection"),
    }
}

#[test]
fn cursor_condition_accepts_explicit_order_on_compound_model() {
    let model = post_model();
    let mut args = QueryArguments::default();
    args.order_by = Some(OrderBy { field: s("slug"), sort_order: SortOrder::Descending });
    args.before = Some(proj(vec![
        pair("author_id", iv(1)),
        pair("slug", PrismaValue::String(s("intro"))),
    ]));
    assert!(model.cursor_condition(&args).is_ok());
}

#[test]
fn expect_count_guards_connectivity() {
    // Deleting 2 filtered children when only 1 is discovered must fail with
    // the relation-connectivity error.
    let t = Transformation::InjectFilterExpectCount {
        expected: 2,
        relation_name: s("PostToUser"),
        parent_name: s("User"),
        child_name: s("Post"),
    };
    let node = Node::Write(WriteQuery::DeleteManyRecords {
        model: s("Post"),
        filter: Filter::Empty,
    });
    let ids = vec![proj(vec![pair("id", iv(1))])];
    match apply_transformation(&t, node, ids) {
        Err(QueryGraphBuilderError::RecordsNotConnected { relation_name, .. }) => {
            assert_eq!(relation_name, s("PostToUser"));
        },
        _ => panic!("expected the records-not-connected error"),
    }
    let node = Node::Write(WriteQuery::DeleteManyRecords {
        model: s("Post"),
        filter: Filter::Empty,
    });
    let ids = vec![proj(vec![pair("id", iv(1))]), proj(vec![pair("id", iv(2))])];
    match apply_transformation(&t, node, ids) {
        Ok(Node::Write(WriteQuery::DeleteManyRecords { filter: Filter::And(parts), .. })) => {
            assert_eq!(parts.len(), 2);
        },
        _ => panic!("expected the narrowed delete"),
    }
}

#[test]
fn connect_nested_delete_builds_discover_check_delete() {
    let mut graph = QueryGraph::new();
    let parent = graph.create_node(Node::Read(ReadNode {
        model: s("User"),
        filter: Filter::Empty,
        parent_projections: None,
    }));
    let rf = one2m_relation(false, true);
    let value = ParsedInputValue::List(vec![ParsedInputValue::Object(vec![(
        s("authorId"),
        ParsedInputValue::Single(iv(1)),
    )])]);
    connect_nested_delete(&mut graph, &parent, &rf, value, &post_model()).unwrap();
    assert_eq!(graph.nodes.len(), 4);
    assert_eq!(graph.edges.len(), 4);
    let last = graph.edges.last().unwrap();
    match &last.dependency {
        QueryGraphDependency::ParentProjection(
            _,
            Transformation::InjectFilterExpectCount { expected, .. },
        ) => assert_eq!(*expected, 1),
        _ => panic!("expected the connectivity-checked data-flow edge"),
    }
}

#[test]
fn connect_nested_delete_rejects_bad_shape() {
    let mut graph = QueryGraph::new();
    let parent = graph.create_node(Node::Read(ReadNode {
        model: s("User"),
        filter: Filter::Empty,
        parent_projections: None,
    }));
    let rf = one2m_relation(false, true);
    let value = ParsedInputValue::List(vec![ParsedInputValue::Single(iv(1))]);
    assert!(connect_nested_delete(&mut graph, &parent, &rf, value, &post_model()).is_err());
}

#[test]
fn interpreter_runs_edges_in_dependency_order() {
    let mut graph = QueryGraph::new();
    let parent = graph.create_node(Node::Read(ReadNode {
        model: s("User"),
        filter: Filter::Empty,
        parent_projections: None,
    }));
    let child = graph.create_node(Node::Write(WriteQuery::DeleteManyRecords {
        model: s("Post"),
        filter: Filter::Empty,
    }));
    let pid = ModelProjection { fields: vec![field("id", "id")] };
    graph
        .create_edge(
            &parent,
            &child,
            QueryGraphDependency::ParentProjection(pid, Transformation::InjectFilter),
        )
        .unwrap();
    let mut interp = Interpreter::new(graph);
    assert_eq!(interp.next_ready(), Some(0));
    assert!(!interp.node_ready(1));
    interp.mark_executed(0);
    let result = ManyRecords {
        records: vec![Record::new(vec![iv(7)])],
        field_names: vec![s("id")],
    };
    interp.process_edge(0, &result).unwrap();
    assert!(interp.node_ready(1));
    match &interp.graph.nodes[1] {
        Node::Write(WriteQuery::DeleteManyRecords { filter: Filter::And(parts), .. }) => {
            assert_eq!(parts.len(), 2);
        },
        _ => panic!("expected the rewritten delete"),
    }
    interp.mark_failed(1);
    assert_eq!(interp.states[1], NodeState::Failed);
}

#[test]
fn extract_filter_builds_equalities() {
    let map = vec![(s("name"), ParsedInputValue::Single(PrismaValue::String(s("ada"))))];
    match extract_filter(&map, &user_model()).unwrap() {
        Filter::And(conds) => {
            assert_eq!(conds.len(), 1);
            match &conds[0] {
                Filter::Equals(column, v) => {
                    assert_eq!(*column, s("name"));
                    assert!(v.value_eq(&PrismaValue::String(s("ada"))));
                },
                _ => panic!("expected an equality"),
            }
        },
        _ => panic!("expected an AND filter"),
    }
    let bad = vec![(s("nope"), ParsedInputValue::Single(iv(1)))];
    match extract_filter(&bad, &user_model()) {
        Err(QueryGraphBuilderError::AssertionError(_)) => {},
        _ => panic!("expected the unresolved-field error"),
    }
}

#[test]
fn extract_cursor_handles_null_single_and_compound() {
    assert!(extract_cursor(ParsedInputValue::Single(PrismaValue::Null), &user_model())
        .unwrap()
        .is_none());
    let single = ParsedInputValue::Object(vec![(s("id"), ParsedInputValue::Single(iv(3)))]);
    let p = extract_cursor(single, &user_model()).unwrap().unwrap();
    assert!(p.equals(&proj(vec![pair("id", iv(3))])));
    let compound = ParsedInputValue::Object(vec![(
        s("authorId_slug"),
        ParsedInputValue::Object(vec![
            (s("authorId"), ParsedInputValue::Single(iv(1))),
            (s("slug"), ParsedInputValue::Single(PrismaValue::String(s("intro")))),
        ]),
    )]);
    let p = extract_cursor(compound, &post_model()).unwrap().unwrap();
    assert!(p.equals(&proj(vec![
        pair("author_id", iv(1)),
        pair("slug", PrismaValue::String(s("intro"))),
    ])));
}

#[test]
fn extract_query_args_folds_arguments() {
    let args = vec![
        ParsedArgument { name: s("skip"), value: ParsedInputValue::Single(iv(2)) },
        ParsedArgument { name: s("first"), value: ParsedInputValue::Single(iv(10)) },
        ParsedArgument {
            name: s("orderBy"),
            value: ParsedInputValue::Object(vec![(
                s("name"),
                ParsedInputValue::Single(PrismaValue::Boolean(true)),
            )]),
        },
        ParsedArgument {
            name: s("where"),
            value: ParsedInputValue::Object(vec![(
                s("name"),
                ParsedInputValue::Single(PrismaValue::String(s("ada"))),
            )]),
        },
    ];
    let q = extract_query_args(args, &user_model()).unwrap();
    assert_eq!(q.skip, Some(2));
    assert_eq!(q.first, Some(10));
    let order_by = q.order_by.unwrap();
    assert_eq!(order_by.field, s("name"));
    assert_eq!(order_by.sort_order, SortOrder::Descending);
    assert!(q.filter.is_some());
    let bad = vec![ParsedArgument {
        name: s("skip"),
        value: ParsedInputValue::Single(PrismaValue::Boolean(true)),
    }];
    assert!(extract_query_args(bad, &user_model()).is_err());
}

#[test]
fn unapply_decision_table() {
    assert!(should_unapply(false, None));
    assert!(should_unapply(false, Some(false)));
    assert!(should_unapply(true, None));
    assert!(should_unapply(true, Some(true)));
    assert!(!should_unapply(true, Some(false)));
    let none = output_no_candidate();
    assert_eq!(none.rolled_back, s("not-applicable"));
    assert_eq!(none.errors.len(), 1);
    assert_eq!(none.errors[0], s("There is no last migration that can be rolled back."));
    let done = output_after_rollback(s("m1"), Some(s("m0")), vec![s("w")]);
    assert_eq!(done.rolled_back, s("m1"));
    assert_eq!(done.active, Some(s("m0")));
    assert!(done.errors.is_empty());
}

#[test]
fn scalar_field_classification() {
    let template = ScalarFieldTemplate {
        name: s("id"),
        is_required: true,
        is_list: false,
        is_unique: false,
        is_id: false,
        is_auto_generated_int_id: false,
        behaviour: None,
        db_name: s("id"),
    };
    let f = template.build(0);
    let legacy = InternalDataModel { models: vec![user_model()], is_legacy: true };
    let modern = InternalDataModel { models: vec![user_model()], is_legacy: false };
    assert!(f.is_id(&legacy));
    assert!(!f.is_id(&modern));
    assert!(f.unique(&legacy));
    assert!(!f.unique(&modern));
    assert!(!f.is_created_at(&modern));
    assert!(f.model(&legacy).is_some());
    assert_eq!(f.db_name(), &s("id"));
}

#[test]
fn split_joined_separates_identity_and_link() {
    let joined = vec![proj(vec![pair("id", iv(1)), pair("fk", iv(9))])];
    let pid = ModelProjection { fields: vec![field("id", "id")] };
    let link = ModelProjection { fields: vec![field("fk", "fk")] };
    let pairs = query_core::nested_read::split_joined(&joined, &pid, &link).unwrap();
    assert_eq!(pairs.len(), 1);
    assert!(pairs[0].0.equals(&proj(vec![pair("id", iv(1))])));
    assert!(pairs[0].1.equals(&proj(vec![pair("fk", iv(9))])));
}

#[test]
fn cursor_condition_intersects_both_sides() {
    let model = user_model();
    let mut args = QueryArguments::default();
    args.after = Some(proj(vec![pair("id", iv(2))]));
    args.before = Some(proj(vec![pair("id", iv(7))]));
    match model.cursor_condition(&args).unwrap() {
        ConditionTree::And(after_side, before_side) => {
            assert!(matches!(*after_side, ConditionTree::Or(_, _)));
            assert!(matches!(*before_side, ConditionTree::Or(_, _)));
        },
        _ => panic!("expected the intersection of the two windows"),
    }
}

#[test]
fn pagination_empty_and_oversized_limits() {
    let mk = |n: i64| Record::new(vec![iv(n)]);
    let mut mr = ManyRecords { records: vec![mk(1), mk(2)], field_names: vec![s("id")] };
    let p = NestedPagination { skip: Some(5), first: None, last: None };
    p.apply_pagination(&mut mr);
    assert_eq!(mr.records.len(), 0);
    let mut mr = ManyRecords { records: vec![mk(1), mk(2)], field_names: vec![s("id")] };
    let p = NestedPagination { skip: None, first: Some(10), last: Some(1) };
    p.apply_pagination(&mut mr);
    assert_eq!(mr.records.len(), 1);
    assert!(mr.records[0].values[0].value_eq(&iv(2)));
}

#[test]
fn single_id_injection_narrows_a_delete() {
    let t = Transformation::InjectSingleIdFilter;
    let node = Node::Write(WriteQuery::DeleteRecord { model: s("Post"), filter: None });
    let ids = vec![proj(vec![pair("id", iv(4))])];
    match apply_transformation(&t, node, ids) {
        Ok(Node::Write(WriteQuery::DeleteRecord { filter: Some(Filter::And(conds)), .. })) => {
            assert_eq!(conds.len(), 1);
        },
        _ => panic!("expected the single-identity filter"),
    }
    let node = Node::Write(WriteQuery::DeleteRecord { model: s("Post"), filter: None });
    match apply_transformation(&t, node, vec![]) {
        Err(QueryGraphBuilderError::AssertionError(_)) => {},
        _ => panic!("expected the missing-identity error"),
    }
}

#[test]
fn non_list_nested_delete_builds_when_requested() {
    let mut graph = QueryGraph::new();
    let parent = graph.create_node(Node::Read(ReadNode {
        model: s("User"),
        filter: Filter::Empty,
        parent_projections: None,
    }));
    let mut rf = one2m_relation(false, true);
    rf.is_list = false;
    let value = ParsedInputValue::Single(PrismaValue::Boolean(true));
    connect_nested_delete(&mut graph, &parent, &rf, value, &post_model()).unwrap();
    assert_eq!(graph.nodes.len(), 4);
    assert_eq!(graph.edges.len(), 4);
    assert!(matches!(&graph.nodes[1], Node::Read(_)));
    assert!(matches!(
        &graph.nodes[2],
        Node::Write(WriteQuery::DeleteRecord { filter: None, .. })
    ));
    let last = graph.edges.last().unwrap();
    assert_eq!(last.source, 1);
    assert_eq!(last.target, 2);
    assert!(matches!(
        &last.dependency,
        QueryGraphDependency::ParentProjection(_, Transformation::InjectSingleIdFilter)
    ));
}

#[test]
fn non_list_nested_delete_is_a_no_op_without_true() {
    let mut graph = QueryGraph::new();
    let parent = graph.create_node(Node::Read(ReadNode {
        model: s("User"),
        filter: Filter::Empty,
        parent_projections: None,
    }));
    let mut rf = one2m_relation(false, true);
    rf.is_list = false;
    let value = ParsedInputValue::Single(PrismaValue::Boolean(false));
    connect_nested_delete(&mut graph, &parent, &rf, value, &post_model()).unwrap();
    assert_eq!(graph.nodes.len(), 1);
    assert_eq!(graph.edges.len(), 0);
    let value = ParsedInputValue::List(vec![]);
    assert!(connect_nested_delete(&mut graph, &parent, &rf, value, &post_model()).is_err());
}

#[test]
fn connect_nested_delete_wires_discovery_and_check() {
    let mut graph = QueryGraph::new();
    let parent = graph.create_node(Node::Read(ReadNode {
        model: s("User"),
        filter: Filter::Empty,
        parent_projections: None,
    }));
    let rf = one2m_relation(false, true);
    let value = ParsedInputValue::List(vec![ParsedInputValue::Object(vec![(
        s("authorId"),
        ParsedInputValue::Single(iv(1)),
    )])]);
    connect_nested_delete(&mut graph, &parent, &rf, value, &post_model()).unwrap();
    assert!(matches!(&graph.nodes[2], Node::Read(_)));
    assert!(matches!(&graph.nodes[3], Node::Check(_)));
    assert_eq!(graph.edges[0].source, 0);
    assert_eq!(graph.edges[0].target, 2);
    assert!(matches!(
        &graph.edges[0].dependency,
        QueryGraphDependency::ParentProjection(_, Transformation::InjectParentProjections)
    ));
    assert_eq!(graph.edges[1].source, 2);
    assert_eq!(graph.edges[1].target, 3);
    assert_eq!(graph.edges[2].source, 3);
    assert_eq!(graph.edges[2].target, 1);
    assert!(matches!(&graph.edges[2].dependency, QueryGraphDependency::ExecutionOrder));
}

#[test]
fn connect_nested_delete_many_builds_one_unit_per_filter() {
    let mut graph = QueryGraph::new();
    let parent = graph.create_node(Node::Read(ReadNode {
        model: s("User"),
        filter: Filter::Empty,
        parent_projections: None,
    }));
    let rf = one2m_relation(false, true);
    let value = ParsedInputValue::List(vec![
        ParsedInputValue::Object(vec![(s("authorId"), ParsedInputValue::Single(iv(1)))]),
        ParsedInputValue::Object(vec![(s("slug"), ParsedInputValue::Single(iv(2)))]),
    ]);
    query_core::delete_nested::connect_nested_delete_many(
        &mut graph,
        &parent,
        &rf,
        value,
        &post_model(),
    )
    .unwrap();
    assert_eq!(graph.nodes.len(), 7);
    assert_eq!(graph.edges.len(), 8);
    for unit in 0..2usize {
        let n0 = 1 + 3 * unit;
        assert!(matches!(&graph.nodes[n0], Node::Read(_)));
        assert!(matches!(
            &graph.nodes[n0 + 1],
            Node::Write(WriteQuery::DeleteManyRecords { .. })
        ));
        assert!(matches!(&graph.nodes[n0 + 2], Node::Check(_)));
        let data_flow = &graph.edges[4 * unit + 3];
        assert_eq!(data_flow.source, n0);
        assert_eq!(data_flow.target, n0 + 1);
        assert!(matches!(
            &data_flow.dependency,
            QueryGraphDependency::ParentProjection(_, Transformation::InjectFilter)
        ));
    }
    let bad = ParsedInputValue::List(vec![ParsedInputValue::Single(iv(1))]);
    assert!(query_core::delete_nested::connect_nested_delete_many(
        &mut graph,
        &parent,
        &rf,
        bad,
        &post_model(),
    )
    .is_err());
}

#[test]
fn extraction_errors_name_what_failed() {
    // Filter extraction: an unresolvable field names field and model.
    let bad = vec![(s("nope"), ParsedInputValue::Single(iv(1)))];
    match extract_filter(&bad, &user_model()) {
        Err(QueryGraphBuilderError::AssertionError(m)) => {
            assert_eq!(m, s("nope is not a field of User"));
        },
        _ => panic!("expected the unresolved-field error"),
    }
    // Cursor extraction: same, over fields and compound uniques.
    let cursor = ParsedInputValue::Object(vec![(s("nope"), ParsedInputValue::Single(iv(1)))]);
    match extract_cursor(cursor, &post_model()) {
        Err(QueryGraphBuilderError::AssertionError(m)) => {
            assert_eq!(m, s("nope is not a field or compound unique of Post"));
        },
        _ => panic!("expected the unresolved-field error"),
    }
    // A bad shape names the offending entry or argument.
    let shape = ParsedInputValue::Object(vec![(s("id"), ParsedInputValue::List(vec![]))]);
    match extract_cursor(shape, &user_model()) {
        Err(QueryGraphBuilderError::InputError(m)) => assert_eq!(m, s("id")),
        _ => panic!("expected the bad-shape error"),
    }
    let args = vec![ParsedArgument {
        name: s("skip"),
        value: ParsedInputValue::Single(PrismaValue::Boolean(true)),
    }];
    match extract_query_args(args, &user_model()) {
        Err(QueryGraphBuilderError::InputError(m)) => assert_eq!(m, s("skip")),
        _ => panic!("expected the bad-argument error"),
    }
}

#[test]
fn process_edge_rejects_disconnected_counts_and_keeps_the_graph() {
    let mut graph = QueryGraph::new();
    let parent = graph.create_node(Node::Read(ReadNode {
        model: s("User"),
        filter: Filter::Empty,
        parent_projections: None,
    }));
    let child = graph.create_node(Node::Write(WriteQuery::DeleteManyRecords {
        model: s("Post"),
        filter: Filter::Empty,
    }));
    let pid = ModelProjection { fields: vec![field("id", "id")] };
    graph
        .create_edge(
            &parent,
            &child,
            QueryGraphDependency::ParentProjection(
                pid,
                Transformation::InjectFilterExpectCount {
                    expected: 2,
                    relation_name: s("PostToUser"),
                    parent_name: s("User"),
                    child_name: s("Post"),
                },
            ),
        )
        .unwrap();
    let mut interp = Interpreter::new(graph);
    interp.mark_executed(0);
    let result = ManyRecords {
        records: vec![Record::new(vec![iv(7)])],
        field_names: vec![s("id")],
    };
    match interp.process_edge(0, &result) {
        Err(QueryGraphBuilderError::RecordsNotConnected { relation_name, .. }) => {
            assert_eq!(relation_name, s("PostToUser"));
        },
        _ => panic!("expected the records-not-connected error"),
    }
    // The failure left the graph intact: the delete node still stands
    // unrewritten, for the caller to abort cleanly.
    assert_eq!(interp.graph.nodes.len(), 2);
    assert!(matches!(
        &interp.graph.nodes[1],
        Node::Write(WriteQuery::DeleteManyRecords { filter: Filter::Empty, .. })
    ));
}

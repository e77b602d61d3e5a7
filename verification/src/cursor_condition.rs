//! Keyset (cursor-based) pagination: builds the row-value comparison
//! condition selecting the records before / after a cursor row, and states
//! what that condition means for a candidate row.
use vstd::prelude::*;

use crate::error::DomainError;
use crate::model::Model;
use crate::prisma_value::{clone_value_vec, PrismaValue, ValueView};
use crate::projection::{clone_string_vec, flat_db_names, spec_db_len};
use crate::query_arguments::{QueryArguments, SortOrder};

verus! {

/// Which side of the cursor a condition selects.
#[derive(Debug, Clone, Copy, PartialEq, Eq, Structural)]
pub enum CursorType {
    Before,
    After,
}

/// A row-value comparison operator.
#[derive(Debug, Clone, Copy, PartialEq, Eq, Structural)]
pub enum CompareOp {
    Eq,
    Lt,
    Gt,
}

/// A subquery selecting `columns` of the single row of `table` whose
/// `where_columns` row equals `where_values`: the cursor row, looked up live.
#[derive(Debug)]
pub struct Select {
    pub table: String,
    pub columns: Vec<String>,
    pub where_columns: Vec<String>,
    pub where_values: Vec<PrismaValue>,
}

/// Mathematical model of a `Select`.
pub struct SelectView {
    pub table: Seq<char>,
    pub columns: Seq<Seq<char>>,
    pub where_columns: Seq<Seq<char>>,
    pub where_values: Seq<ValueView>,
}

impl View for Select {
    type V = SelectView;

    open spec fn view(&self) -> SelectView {
        SelectView {
            table: self.table@,
            columns: crate::prisma_value::string_views(self.columns@),
            where_columns: crate::prisma_value::string_views(self.where_columns@),
            where_values: crate::prisma_value::value_views(self.where_values@),
        }
    }
}

/// One row-value comparison: the candidate row's `columns` against either a
/// subquery's result row or a literal value row.
#[derive(Debug)]
pub enum Comparison {
    RowCmpSelect { columns: Vec<String>, op: CompareOp, select: Select },
    RowCmpValues { columns: Vec<String>, op: CompareOp, values: Vec<PrismaValue> },
}

/// Mathematical model of a `Comparison`.
pub enum ComparisonView {
    RowCmpSelect { columns: Seq<Seq<char>>, op: CompareOp, select: SelectView },
    RowCmpValues { columns: Seq<Seq<char>>, op: CompareOp, values: Seq<ValueView> },
}

impl View for Comparison {
    type V = ComparisonView;

    open spec fn view(&self) -> ComparisonView {
        match self {
            Comparison::RowCmpSelect { columns, op, select } => ComparisonView::RowCmpSelect {
                columns: crate::prisma_value::string_views(columns@),
                op: *op,
                select: select@,
            },
            Comparison::RowCmpValues { columns, op, values } => ComparisonView::RowCmpValues {
                columns: crate::prisma_value::string_views(columns@),
                op: *op,
                values: crate::prisma_value::value_views(values@),
            },
        }
    }
}

/// The dialect-agnostic condition tree emitted for pagination, rendered to a
/// concrete query language by a downstream executor.
#[derive(Debug)]
pub enum ConditionTree {
    NoCondition,
    Single(Box<Comparison>),
    And(Box<ConditionTree>, Box<ConditionTree>),
    Or(Box<ConditionTree>, Box<ConditionTree>),
}

/// Mathematical model of a `ConditionTree`.
pub enum ConditionTreeView {
    NoCondition,
    Single(ComparisonView),
    And(Box<ConditionTreeView>, Box<ConditionTreeView>),
    Or(Box<ConditionTreeView>, Box<ConditionTreeView>),
}

impl View for ConditionTree {
    type V = ConditionTreeView;

    open spec fn view(&self) -> ConditionTreeView
        decreases self,
    {
        match self {
            ConditionTree::NoCondition => ConditionTreeView::NoCondition,
            ConditionTree::Single(c) => ConditionTreeView::Single((**c)@),
            ConditionTree::And(a, b) => ConditionTreeView::And(
                Box::new((**a)@),
                Box::new((**b)@),
            ),
            ConditionTree::Or(a, b) => ConditionTreeView::Or(Box::new((**a)@), Box::new((**b)@)),
        }
    }
}

impl ConditionTree {
    /// Conjunction with the no-condition as neutral element, as the two
    /// cursor sides are combined.
    pub fn and(a: ConditionTree, b: ConditionTree) -> (r: ConditionTree)
        ensures
            a is NoCondition ==> r == b,
            !(a is NoCondition) && b is NoCondition ==> r == a,
            !(a is NoCondition) && !(b is NoCondition) ==> r@ == ConditionTreeView::And(
                Box::new(a@),
                Box::new(b@),
            ),
    {
        match a {
            ConditionTree::NoCondition => b,
            other => match b {
                ConditionTree::NoCondition => other,
                b_other => ConditionTree::And(Box::new(other), Box::new(b_other)),
            },
        }
    }
}

/// The comparison used against the cursor row: rows strictly before the
/// cursor for `Before`, strictly after it for `After`, in the given sort
/// direction.
pub open spec fn spec_comparison_op(cursor_type: CursorType, sort_order: SortOrder) -> CompareOp {
    match (cursor_type, sort_order) {
        (CursorType::Before, SortOrder::Ascending) => CompareOp::Lt,
        (CursorType::After, SortOrder::Ascending) => CompareOp::Gt,
        (CursorType::After, SortOrder::Descending) => CompareOp::Lt,
        (CursorType::Before, SortOrder::Descending) => CompareOp::Gt,
    }
}

/// The subquery selecting the cursor row's comparison column.
pub open spec fn spec_cursor_select(
    table: Seq<char>,
    column: Seq<char>,
    cursor_fields: Seq<Seq<char>>,
    cursor_values: Seq<ValueView>,
) -> SelectView {
    SelectView {
        table: table,
        columns: seq![column],
        where_columns: cursor_fields,
        where_values: cursor_values,
    }
}

/// The condition one cursor contributes:
/// `(comparison_row == subquery AND identity_row <op> cursor_values)
///  OR (comparison_row <op> subquery)`.
/// Rows tied on the sort column are broken by identity-row order; other rows
/// are ordered by the sort column against the cursor row's live value.
pub open spec fn spec_cursor_condition(
    cursor_type: CursorType,
    sort_order: SortOrder,
    table: Seq<char>,
    column: Seq<char>,
    cursor_fields: Seq<Seq<char>>,
    cursor_values: Seq<ValueView>,
) -> ConditionTreeView {
    let op = spec_comparison_op(cursor_type, sort_order);
    let select = spec_cursor_select(table, column, cursor_fields, cursor_values);
    ConditionTreeView::Or(
        Box::new(
            ConditionTreeView::And(
                Box::new(
                    ConditionTreeView::Single(
                        ComparisonView::RowCmpSelect {
                            columns: seq![column],
                            op: CompareOp::Eq,
                            select: select,
                        },
                    ),
                ),
                Box::new(
                    ConditionTreeView::Single(
                        ComparisonView::RowCmpValues {
                            columns: cursor_fields,
                            op: op,
                            values: cursor_values,
                        },
                    ),
                ),
            ),
        ),
        Box::new(
            ConditionTreeView::Single(
                ComparisonView::RowCmpSelect { columns: seq![column], op: op, select: select },
            ),
        ),
    )
}

impl Model {
    /// Builds one cursor side's condition.
    fn cursor_for(
        &self,
        cursor_type: CursorType,
        sort_order: SortOrder,
        column: &String,
        projection: &crate::projection::RecordProjection,
    ) -> (r: ConditionTree)
        ensures
            r@ == spec_cursor_condition(
                cursor_type,
                sort_order,
                self.name@,
                column@,
                projection.spec_names(),
                projection.spec_values(),
            ),
    {
        let op = match (cursor_type, sort_order) {
            (CursorType::Before, SortOrder::Ascending) => CompareOp::Lt,
            (CursorType::After, SortOrder::Ascending) => CompareOp::Gt,
            (CursorType::After, SortOrder::Descending) => CompareOp::Lt,
            (CursorType::Before, SortOrder::Descending) => CompareOp::Gt,
        };
        let fields = projection.fields();
        let values = projection.values();
        let mut order_columns: Vec<String> = Vec::new();
        order_columns.push(column.clone());
        let mut order_columns2: Vec<String> = Vec::new();
        order_columns2.push(column.clone());
        let select = Select {
            table: self.name.clone(),
            columns: clone_string_vec(&order_columns),
            where_columns: clone_string_vec(&fields),
            where_values: clone_value_vec(&values),
        };
        let select2 = Select {
            table: self.name.clone(),
            columns: clone_string_vec(&order_columns),
            where_columns: fields,
            where_values: values,
        };
        proof {
            assert(crate::prisma_value::string_views(order_columns@) =~= seq![column@]);
            assert(crate::prisma_value::string_views(order_columns2@) =~= seq![column@]);
        }
        let tie_break = Comparison::RowCmpValues {
            columns: clone_string_vec(&select.where_columns),
            op,
            values: clone_value_vec(&select.where_values),
        };
        let ghost select_view = spec_cursor_select(
            self.name@,
            column@,
            projection.spec_names(),
            projection.spec_values(),
        );
        proof {
            assert(select@ == select_view);
            assert(select2@ == select_view);
            assert(tie_break@ == ComparisonView::RowCmpValues {
                columns: projection.spec_names(),
                op: spec_comparison_op(cursor_type, sort_order),
                values: projection.spec_values(),
            });
        }
        let single_eq = ConditionTree::Single(
            Box::new(
                Comparison::RowCmpSelect { columns: order_columns, op: CompareOp::Eq, select },
            ),
        );
        let ghost single_eq_view = single_eq@;
        let single_tie = ConditionTree::Single(Box::new(tie_break));
        let ghost single_tie_view = single_tie@;
        let eq_part = ConditionTree::And(Box::new(single_eq), Box::new(single_tie));
        let ghost eq_part_view = eq_part@;
        proof {
            assert(eq_part_view == ConditionTreeView::And(
                Box::new(single_eq_view),
                Box::new(single_tie_view),
            ));
        }
        let cmp_part = ConditionTree::Single(
            Box::new(
                Comparison::RowCmpSelect { columns: order_columns2, op, select: select2 },
            ),
        );
        let ghost cmp_part_view = cmp_part@;
        let r = ConditionTree::Or(Box::new(eq_part), Box::new(cmp_part));
        proof {
            assert(r@ == ConditionTreeView::Or(Box::new(eq_part_view), Box::new(cmp_part_view)));
        }
        r
    }

    /// Builds the keyset pagination condition for the given arguments.
    ///
    /// With neither cursor there is no condition. Otherwise the comparison
    /// column is the explicit order-by column if given, else the model's
    /// single-column primary identifier; an implicit ordering over a
    /// multi-column identifier is a caller contract violation and is
    /// rejected. The two cursor sides, when both present, intersect by AND.
    pub fn cursor_condition(&self, query_arguments: &QueryArguments) -> (r: Result<
        ConditionTree,
        DomainError,
    >)
        ensures
            query_arguments.before is None && query_arguments.after is None ==> (r matches Ok(t)
                && t@ == ConditionTreeView::NoCondition),
            r is Err <==> !(query_arguments.before is None && query_arguments.after is None)
                && query_arguments.order_by is None && spec_db_len(self.primary_identifier@) != 1,
            r matches Err(e) ==> e is MultiFieldOrdering,
            !(query_arguments.before is None && query_arguments.after is None) && r is Ok
                ==> spec_build_matches(*self, *query_arguments, r->Ok_0@),
    {
        if query_arguments.before.is_none() && query_arguments.after.is_none() {
            return Ok(ConditionTree::NoCondition);
        }
        let (column, sort_order): (String, SortOrder) = match &query_arguments.order_by {
            Some(order_by) => (order_by.field.clone(), order_by.sort_order),
            None => {
                let id_names = self.primary_identifier.db_names();
                if id_names.len() == 1 {
                    let mut names = id_names;
                    let column = names.pop().unwrap();
                    proof {
                        assert(column@ == flat_db_names(self.primary_identifier@)[0]);
                    }
                    (column, SortOrder::Ascending)
                } else {
                    return Err(DomainError::MultiFieldOrdering);
                }
            },
        };
        let after_cond = match &query_arguments.after {
            Some(projection) => self.cursor_for(CursorType::After, sort_order, &column, projection),
            None => ConditionTree::NoCondition,
        };
        let before_cond = match &query_arguments.before {
            Some(projection) => self.cursor_for(
                CursorType::Before,
                sort_order,
                &column,
                projection,
            ),
            None => ConditionTree::NoCondition,
        };
        Ok(ConditionTree::and(after_cond, before_cond))
    }
}

/// A strict total order on scalar values: variants rank below one another,
/// and values of one variant compare by their content, strings and enum names
/// lexicographically.
pub open spec fn value_rank(v: ValueView) -> int {
    match v {
        ValueView::Null => 0,
        ValueView::Boolean(_) => 1,
        ValueView::Int(_) => 2,
        ValueView::String(_) => 3,
        ValueView::Enum(_) => 4,
    }
}

/// Lexicographic order on character sequences.
pub open spec fn seq_char_lt(a: Seq<char>, b: Seq<char>) -> bool
    decreases a.len(),
{
    if b.len() == 0 {
        false
    } else if a.len() == 0 {
        true
    } else if a[0] == b[0] {
        seq_char_lt(a.skip(1), b.skip(1))
    } else {
        a[0] < b[0]
    }
}

pub proof fn lemma_seq_char_lt_irreflexive(a: Seq<char>)
    ensures
        !seq_char_lt(a, a),
    decreases a.len(),
{
    if a.len() > 0 {
        lemma_seq_char_lt_irreflexive(a.skip(1));
    }
}

pub proof fn lemma_seq_char_lt_asymmetric(a: Seq<char>, b: Seq<char>)
    ensures
        !(seq_char_lt(a, b) && seq_char_lt(b, a)),
    decreases a.len(),
{
    if a.len() > 0 && b.len() > 0 && a[0] == b[0] {
        lemma_seq_char_lt_asymmetric(a.skip(1), b.skip(1));
    }
}

/// Strict order on scalar values.
pub open spec fn spec_value_lt(a: ValueView, b: ValueView) -> bool {
    if value_rank(a) != value_rank(b) {
        value_rank(a) < value_rank(b)
    } else {
        match (a, b) {
            (ValueView::Boolean(x), ValueView::Boolean(y)) => !x && y,
            (ValueView::Int(x), ValueView::Int(y)) => x < y,
            (ValueView::String(x), ValueView::String(y)) => seq_char_lt(x, y),
            (ValueView::Enum(x), ValueView::Enum(y)) => seq_char_lt(x, y),
            _ => false,
        }
    }
}

pub proof fn lemma_value_lt_irreflexive(a: ValueView)
    ensures
        !spec_value_lt(a, a),
{
    match a {
        ValueView::String(x) => lemma_seq_char_lt_irreflexive(x),
        ValueView::Enum(x) => lemma_seq_char_lt_irreflexive(x),
        _ => (),
    }
}

pub proof fn lemma_value_lt_asymmetric(a: ValueView, b: ValueView)
    ensures
        !(spec_value_lt(a, b) && spec_value_lt(b, a)),
{
    match (a, b) {
        (ValueView::String(x), ValueView::String(y)) => lemma_seq_char_lt_asymmetric(x, y),
        (ValueView::Enum(x), ValueView::Enum(y)) => lemma_seq_char_lt_asymmetric(x, y),
        _ => (),
    }
}

/// Row-value (tuple) comparison: lexicographic over the columns. Rows of the
/// queries built here always have equal lengths.
pub open spec fn spec_row_lt(a: Seq<ValueView>, b: Seq<ValueView>) -> bool
    decreases a.len(),
{
    if a.len() == 0 || b.len() == 0 {
        false
    } else if a[0] == b[0] {
        spec_row_lt(a.skip(1), b.skip(1))
    } else {
        spec_value_lt(a[0], b[0])
    }
}

pub proof fn lemma_row_lt_irreflexive(a: Seq<ValueView>)
    ensures
        !spec_row_lt(a, a),
    decreases a.len(),
{
    if a.len() > 0 {
        lemma_row_lt_irreflexive(a.skip(1));
    }
}

pub proof fn lemma_row_lt_asymmetric(a: Seq<ValueView>, b: Seq<ValueView>)
    ensures
        !(spec_row_lt(a, b) && spec_row_lt(b, a)),
    decreases a.len(),
{
    if a.len() > 0 && b.len() > 0 {
        if a[0] == b[0] {
            lemma_row_lt_asymmetric(a.skip(1), b.skip(1));
        } else {
            lemma_value_lt_asymmetric(a[0], b[0]);
        }
    }
}

/// Keyset order on (sort value, identity row) pairs: by the sort column, ties
/// broken by the identity row.
pub open spec fn spec_keyset_lt(
    o1: ValueView,
    id1: Seq<ValueView>,
    o2: ValueView,
    id2: Seq<ValueView>,
) -> bool {
    spec_value_lt(o1, o2) || (o1 == o2 && spec_row_lt(id1, id2))
}

pub proof fn lemma_keyset_lt_irreflexive(o: ValueView, id: Seq<ValueView>)
    ensures
        !spec_keyset_lt(o, id, o, id),
{
    lemma_value_lt_irreflexive(o);
    lemma_row_lt_irreflexive(id);
}

pub proof fn lemma_keyset_lt_asymmetric(
    o1: ValueView,
    id1: Seq<ValueView>,
    o2: ValueView,
    id2: Seq<ValueView>,
)
    ensures
        !(spec_keyset_lt(o1, id1, o2, id2) && spec_keyset_lt(o2, id2, o1, id1)),
{
    lemma_value_lt_asymmetric(o1, o2);
    lemma_row_lt_asymmetric(id1, id2);
}

/// Row comparison under an operator.
pub open spec fn eval_op(op: CompareOp, a: Seq<ValueView>, b: Seq<ValueView>) -> bool {
    match op {
        CompareOp::Eq => a == b,
        CompareOp::Lt => spec_row_lt(a, b),
        CompareOp::Gt => spec_row_lt(b, a),
    }
}

/// What a cursor condition means for a candidate row: `ord` is the row's
/// value in the comparison column, `id` its identity row, and `cursor_ord`
/// the cursor row's live comparison value, which is what the subquery
/// returns. A comparison against a subquery compares `ord` with `cursor_ord`;
/// a comparison against literal values compares `id` with those values.
pub open spec fn eval_cursor_tree(
    t: ConditionTreeView,
    ord: ValueView,
    id: Seq<ValueView>,
    cursor_ord: ValueView,
) -> bool
    decreases t,
{
    match t {
        ConditionTreeView::NoCondition => true,
        ConditionTreeView::Single(c) => match c {
            ComparisonView::RowCmpSelect { op, .. } => eval_op(
                op,
                seq![ord],
                seq![cursor_ord],
            ),
            ComparisonView::RowCmpValues { op, values, .. } => eval_op(op, id, values),
        },
        ConditionTreeView::And(a, b) => eval_cursor_tree(*a, ord, id, cursor_ord)
            && eval_cursor_tree(*b, ord, id, cursor_ord),
        ConditionTreeView::Or(a, b) => eval_cursor_tree(*a, ord, id, cursor_ord)
            || eval_cursor_tree(*b, ord, id, cursor_ord),
    }
}

pub proof fn lemma_row_lt_singleton(a: ValueView, b: ValueView)
    ensures
        spec_row_lt(seq![a], seq![b]) == spec_value_lt(a, b),
{
    reveal_with_fuel(spec_row_lt, 2);
    lemma_value_lt_irreflexive(a);
    assert(seq![a][0] == a);
    assert(seq![b][0] == b);
    if a == b {
        assert(seq![a].skip(1) =~= Seq::<ValueView>::empty());
        assert(seq![b].skip(1) =~= Seq::<ValueView>::empty());
    }
}

pub proof fn lemma_eq_singleton(a: ValueView, b: ValueView)
    ensures
        (seq![a] == seq![b]) == (a == b),
{
    if seq![a] == seq![b] {
        assert(seq![a][0] == seq![b][0]);
    } else {
        if a == b {
            assert(seq![a] =~= seq![b]);
        }
    }
}

/// What the after-cursor condition selects under ascending order: exactly the
/// rows strictly greater than the cursor row in keyset order.
pub proof fn lemma_after_ascending_selects(
    table: Seq<char>,
    column: Seq<char>,
    cursor_fields: Seq<Seq<char>>,
    cursor_values: Seq<ValueView>,
    ord: ValueView,
    id: Seq<ValueView>,
    cursor_ord: ValueView,
)
    ensures
        eval_cursor_tree(
            spec_cursor_condition(
                CursorType::After,
                SortOrder::Ascending,
                table,
                column,
                cursor_fields,
                cursor_values,
            ),
            ord,
            id,
            cursor_ord,
        ) == spec_keyset_lt(cursor_ord, cursor_values, ord, id),
{
    reveal_with_fuel(eval_cursor_tree, 4);
    lemma_row_lt_singleton(cursor_ord, ord);
    lemma_eq_singleton(ord, cursor_ord);
}

/// What the before-cursor condition selects under ascending order: exactly
/// the rows strictly smaller than the cursor row in keyset order.
pub proof fn lemma_before_ascending_selects(
    table: Seq<char>,
    column: Seq<char>,
    cursor_fields: Seq<Seq<char>>,
    cursor_values: Seq<ValueView>,
    ord: ValueView,
    id: Seq<ValueView>,
    cursor_ord: ValueView,
)
    ensures
        eval_cursor_tree(
            spec_cursor_condition(
                CursorType::Before,
                SortOrder::Ascending,
                table,
                column,
                cursor_fields,
                cursor_values,
            ),
            ord,
            id,
            cursor_ord,
        ) == spec_keyset_lt(ord, id, cursor_ord, cursor_values),
{
    reveal_with_fuel(eval_cursor_tree, 4);
    lemma_row_lt_singleton(ord, cursor_ord);
    lemma_eq_singleton(ord, cursor_ord);
}

/// Cursor monotonicity: over records strictly ascending in keyset order
/// (sort value with unique identity tie-break), the after-cursor condition at
/// record `i` holds for record `j` exactly when `j` follows `i`.
pub proof fn lemma_after_cursor_window(
    table: Seq<char>,
    column: Seq<char>,
    cursor_fields: Seq<Seq<char>>,
    records: Seq<(ValueView, Seq<ValueView>)>,
    i: int,
    j: int,
)
    requires
        0 <= i < records.len(),
        0 <= j < records.len(),
        forall|k: int, l: int|
            0 <= k < l < records.len() ==> spec_keyset_lt(
                (#[trigger] records[k]).0,
                records[k].1,
                (#[trigger] records[l]).0,
                records[l].1,
            ),
    ensures
        eval_cursor_tree(
            spec_cursor_condition(
                CursorType::After,
                SortOrder::Ascending,
                table,
                column,
                cursor_fields,
                records[i].1,
            ),
            records[j].0,
            records[j].1,
            records[i].0,
        ) == (j > i),
{
    lemma_after_ascending_selects(
        table,
        column,
        cursor_fields,
        records[i].1,
        records[j].0,
        records[j].1,
        records[i].0,
    );
    if j == i {
        lemma_keyset_lt_irreflexive(records[i].0, records[i].1);
    } else if j < i {
        lemma_keyset_lt_asymmetric(records[i].0, records[i].1, records[j].0, records[j].1);
    }
}

/// The mirror image: the before-cursor condition at record `i` holds for
/// record `j` exactly when `j` precedes `i`.
pub proof fn lemma_before_cursor_window(
    table: Seq<char>,
    column: Seq<char>,
    cursor_fields: Seq<Seq<char>>,
    records: Seq<(ValueView, Seq<ValueView>)>,
    i: int,
    j: int,
)
    requires
        0 <= i < records.len(),
        0 <= j < records.len(),
        forall|k: int, l: int|
            0 <= k < l < records.len() ==> spec_keyset_lt(
                (#[trigger] records[k]).0,
                records[k].1,
                (#[trigger] records[l]).0,
                records[l].1,
            ),
    ensures
        eval_cursor_tree(
            spec_cursor_condition(
                CursorType::Before,
                SortOrder::Ascending,
                table,
                column,
                cursor_fields,
                records[i].1,
            ),
            records[j].0,
            records[j].1,
            records[i].0,
        ) == (j < i),
{
    lemma_before_ascending_selects(
        table,
        column,
        cursor_fields,
        records[i].1,
        records[j].0,
        records[j].1,
        records[i].0,
    );
    if j == i {
        lemma_keyset_lt_irreflexive(records[i].0, records[i].1);
    } else if j > i {
        lemma_keyset_lt_asymmetric(records[i].0, records[i].1, records[j].0, records[j].1);
    }
}

/// Adjacent cursor windows do not overlap: an after-cursor at `i` and a
/// before-cursor at `j` select no record in common when `j <= i + 1`.
pub proof fn lemma_adjacent_cursor_windows_empty(
    table: Seq<char>,
    column: Seq<char>,
    cursor_fields: Seq<Seq<char>>,
    records: Seq<(ValueView, Seq<ValueView>)>,
    i: int,
    j: int,
    k: int,
)
    requires
        0 <= i < records.len(),
        0 <= j < records.len(),
        0 <= k < records.len(),
        j <= i + 1,
        forall|m: int, l: int|
            0 <= m < l < records.len() ==> spec_keyset_lt(
                (#[trigger] records[m]).0,
                records[m].1,
                (#[trigger] records[l]).0,
                records[l].1,
            ),
    ensures
        !(eval_cursor_tree(
            spec_cursor_condition(
                CursorType::After,
                SortOrder::Ascending,
                table,
                column,
                cursor_fields,
                records[i].1,
            ),
            records[k].0,
            records[k].1,
            records[i].0,
        ) && eval_cursor_tree(
            spec_cursor_condition(
                CursorType::Before,
                SortOrder::Ascending,
                table,
                column,
                cursor_fields,
                records[j].1,
            ),
            records[k].0,
            records[k].1,
            records[j].0,
        )),
{
    lemma_after_cursor_window(table, column, cursor_fields, records, i, k);
    lemma_before_cursor_window(table, column, cursor_fields, records, j, k);
}

/// What the built condition is, given the comparison column the arguments
/// select: the AND of the per-cursor conditions, a missing cursor side
/// contributing no condition.
pub open spec fn spec_build_matches(
    model: Model,
    args: QueryArguments,
    t: ConditionTreeView,
) -> bool {
    let column = if args.order_by is Some {
        args.order_by->Some_0@.field
    } else {
        flat_db_names(model.primary_identifier@)[0]
    };
    let sort_order = if args.order_by is Some {
        args.order_by->Some_0@.sort_order
    } else {
        SortOrder::Ascending
    };
    let after = match args@.after {
        Some(p) => Some(
            spec_cursor_condition(
                CursorType::After,
                sort_order,
                model.name@,
                column,
                crate::projection::pair_names(p),
                crate::projection::pair_values(p),
            ),
        ),
        None => None,
    };
    let before = match args@.before {
        Some(p) => Some(
            spec_cursor_condition(
                CursorType::Before,
                sort_order,
                model.name@,
                column,
                crate::projection::pair_names(p),
                crate::projection::pair_values(p),
            ),
        ),
        None => None,
    };
    match (after, before) {
        (Some(a), Some(b)) => t == ConditionTreeView::And(Box::new(a), Box::new(b)),
        (Some(a), None) => t == a,
        (None, Some(b)) => t == b,
        (None, None) => t == ConditionTreeView::NoCondition,
    }
}

} // verus!

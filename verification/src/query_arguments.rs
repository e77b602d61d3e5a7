//! Query arguments: pagination cursors, skip / take limits, ordering and the
//! caller-supplied filter.
use vstd::prelude::*;

use crate::filter::{Filter, FilterView};
use crate::projection::RecordProjection;
use crate::prisma_value::ValueView;

verus! {

/// Sort direction of an explicit ordering.
#[derive(Debug, Clone, Copy, PartialEq, Eq, Structural)]
pub enum SortOrder {
    Ascending,
    Descending,
}

/// An explicit ordering: one physical column and a direction.
#[derive(Debug)]
pub struct OrderBy {
    pub field: String,
    pub sort_order: SortOrder,
}

/// Mathematical model of an `OrderBy`.
pub struct OrderByView {
    pub field: Seq<char>,
    pub sort_order: SortOrder,
}

impl View for OrderBy {
    type V = OrderByView;

    open spec fn view(&self) -> OrderByView {
        OrderByView { field: self.field@, sort_order: self.sort_order }
    }
}

impl Clone for OrderBy {
    fn clone(&self) -> (r: Self)
        ensures
            r@ == self@,
    {
        OrderBy { field: self.field.clone(), sort_order: self.sort_order }
    }
}

/// The arguments steering one read: where-filter, cursors, limits, ordering.
#[derive(Debug)]
pub struct QueryArguments {
    pub skip: Option<i64>,
    pub first: Option<i64>,
    pub last: Option<i64>,
    pub after: Option<RecordProjection>,
    pub before: Option<RecordProjection>,
    pub order_by: Option<OrderBy>,
    pub filter: Option<Filter>,
}

/// Mathematical model of `QueryArguments`.
pub struct QueryArgumentsView {
    pub skip: Option<i64>,
    pub first: Option<i64>,
    pub last: Option<i64>,
    pub after: Option<Seq<(Seq<char>, ValueView)>>,
    pub before: Option<Seq<(Seq<char>, ValueView)>>,
    pub order_by: Option<OrderByView>,
    pub filter: Option<FilterView>,
}

impl View for QueryArguments {
    type V = QueryArgumentsView;

    open spec fn view(&self) -> QueryArgumentsView {
        QueryArgumentsView {
            skip: self.skip,
            first: self.first,
            last: self.last,
            after: match self.after {
                Some(p) => Some(p@),
                None => None,
            },
            before: match self.before {
                Some(p) => Some(p@),
                None => None,
            },
            order_by: match self.order_by {
                Some(o) => Some(o@),
                None => None,
            },
            filter: match self.filter {
                Some(f) => Some(f@),
                None => None,
            },
        }
    }
}

impl Default for QueryArguments {
    /// No filter, no cursor, no limits, no ordering.
    fn default() -> (r: Self)
        ensures
            r.skip is None,
            r.first is None,
            r.last is None,
            r.after is None,
            r.before is None,
            r.order_by is None,
            r.filter is None,
    {
        QueryArguments {
            skip: None,
            first: None,
            last: None,
            after: None,
            before: None,
            order_by: None,
            filter: None,
        }
    }
}

impl QueryArguments {
    /// Replaces the filter with `filter` conjoined to the existing filter, as
    /// the nested-relation resolvers do before fetching children.
    pub fn merge_filter_into(self, fresh: Filter) -> (r: QueryArguments)
        ensures
            r.skip == self.skip,
            r.first == self.first,
            r.last == self.last,
            r.after == self.after,
            r.before == self.before,
            r.order_by == self.order_by,
            match self.filter {
                Some(f) => r@.filter == Some(FilterView::And(seq![f@, fresh@])),
                None => r.filter == Some(fresh),
            },
    {
        let merged = crate::filter::merge_filter(self.filter, fresh);
        QueryArguments {
            skip: self.skip,
            first: self.first,
            last: self.last,
            after: self.after,
            before: self.before,
            order_by: self.order_by,
            filter: Some(merged),
        }
    }
}

} // verus!

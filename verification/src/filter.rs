//! The abstract boolean filter tree the core produces: equality,
//! set-membership, logical AND / OR. It is rendered to a concrete query
//! language by a downstream executor.
use vstd::prelude::*;

use crate::prisma_value::{PrismaValue, ValueView};
use crate::projection::RecordProjection;

verus! {

broadcast use Seq::lemma_map_take_succ, Seq::lemma_push_map_commute;

/// A dialect-agnostic boolean condition over one model's columns.
#[derive(Debug)]
pub enum Filter {
    And(Vec<Filter>),
    Or(Vec<Filter>),
    /// One column equals one value.
    Equals(String, PrismaValue),
    /// One column is a member of the value list.
    In(String, Vec<PrismaValue>),
    /// The empty condition: always true.
    Empty,
}

/// Mathematical model of a `Filter`.
#[verifier::ext_equal]
pub enum FilterView {
    And(Seq<FilterView>),
    Or(Seq<FilterView>),
    Equals(Seq<char>, ValueView),
    In(Seq<char>, Seq<ValueView>),
    Empty,
}

impl View for Filter {
    type V = FilterView;

    open spec fn view(&self) -> FilterView
        decreases self,
    {
        match self {
            Filter::And(fs) => FilterView::And(
                Seq::new(fs@.len(), |i: int| if 0 <= i < fs@.len() { fs@[i]@ } else { FilterView::Empty }),
            ),
            Filter::Or(fs) => FilterView::Or(
                Seq::new(fs@.len(), |i: int| if 0 <= i < fs@.len() { fs@[i]@ } else { FilterView::Empty }),
            ),
            Filter::Equals(f, v) => FilterView::Equals(f@, v@),
            Filter::In(f, vs) => FilterView::In(f@, vs@.map_values(|v: PrismaValue| v@)),
            Filter::Empty => FilterView::Empty,
        }
    }
}

/// Clones a filter list; the clone denotes the same conditions.
fn clone_filter_vec(v: &Vec<Filter>) -> (r: Vec<Filter>)
    ensures
        r@.len() == v@.len(),
        forall|i: int| 0 <= i < v@.len() ==> (#[trigger] r@[i])@ == v@[i]@,
    decreases v,
{
    let mut out: Vec<Filter> = Vec::new();
    let mut i: usize = 0;
    while i < v.len()
        invariant
            i <= v.len(),
            out@.len() == i,
            forall|j: int| 0 <= j < i ==> (#[trigger] out@[j])@ == v@[j]@,
        decreases v.len() - i,
    {
        out.push(v[i].clone());
        i += 1;
    }
    out
}

impl Clone for Filter {
    /// The clone denotes the same condition.
    fn clone(&self) -> (r: Self)
        ensures
            r@ == self@,
        decreases self,
    {
        match self {
            Filter::And(fs) => {
                let c = clone_filter_vec(fs);
                let r = Filter::And(c);
                proof {
                    assert(r@ matches FilterView::And(s1) && self@ matches FilterView::And(s0)
                        && s1 =~= s0);
                }
                r
            },
            Filter::Or(fs) => {
                let c = clone_filter_vec(fs);
                let r = Filter::Or(c);
                proof {
                    assert(r@ matches FilterView::Or(s1) && self@ matches FilterView::Or(s0)
                        && s1 =~= s0);
                }
                r
            },
            Filter::Equals(f, v) => Filter::Equals(f.clone(), v.clone()),
            Filter::In(f, vs) => {
                let r = Filter::In(f.clone(), crate::prisma_value::clone_value_vec(vs));
                proof {
                    assert(r@ matches FilterView::In(n1, s1) && self@ matches FilterView::In(
                        n0,
                        s0,
                    ) && n1 == n0 && s1 =~= s0);
                }
                r
            },
            Filter::Empty => Filter::Empty,
        }
    }
}

impl Filter {
    /// Conjunction of the given filters.
    pub fn and(filters: Vec<Filter>) -> (r: Filter)
        ensures
            r == Filter::And(filters),
    {
        Filter::And(filters)
    }

    /// Disjunction of the given filters.
    pub fn or(filters: Vec<Filter>) -> (r: Filter)
        ensures
            r == Filter::Or(filters),
    {
        Filter::Or(filters)
    }

    /// The condition that holds of every record.
    pub fn empty() -> (r: Filter)
        ensures
            r == Filter::Empty,
    {
        Filter::Empty
    }
}

/// The equality condition an identity value denotes: AND over its pairs,
/// each pair a column equality.
pub open spec fn spec_projection_filter(pairs: Seq<(Seq<char>, ValueView)>) -> FilterView {
    FilterView::And(pairs.map_values(|p: (Seq<char>, ValueView)| FilterView::Equals(p.0, p.1)))
}

/// The membership condition a set of identity values denotes: OR over the
/// per-identity equality conditions.
pub open spec fn spec_projections_filter(ps: Seq<Seq<(Seq<char>, ValueView)>>) -> FilterView {
    FilterView::Or(ps.map_values(|p: Seq<(Seq<char>, ValueView)>| spec_projection_filter(p)))
}

/// Builds the equality filter selecting exactly the record identified by
/// `p`: AND across its columns.
pub fn projection_filter(p: &RecordProjection) -> (r: Filter)
    ensures
        r@ == spec_projection_filter(p@),
{
    let mut conds: Vec<Filter> = Vec::new();
    let mut i: usize = 0;
    proof {
        assert(conds@.map_values(|f: Filter| f@) =~= p@.take(0).map_values(
            |pr: (Seq<char>, ValueView)| FilterView::Equals(pr.0, pr.1),
        ));
    }
    while i < p.pairs.len()
        invariant
            i <= p.pairs.len(),
            conds@.len() == i,
            conds@.map_values(|f: Filter| f@) == p@.take(i as int).map_values(
                |pr: (Seq<char>, ValueView)| FilterView::Equals(pr.0, pr.1),
            ),
        decreases p.pairs.len() - i,
    {
        let pair = &p.pairs[i];
        conds.push(Filter::Equals(pair.0.clone(), pair.1.clone()));
        proof {
            assert(conds@.map_values(|f: Filter| f@) =~= p@.take(i + 1).map_values(
                |pr: (Seq<char>, ValueView)| FilterView::Equals(pr.0, pr.1),
            ));
        }
        i += 1;
    }
    proof {
        assert(p@.take(p.pairs@.len() as int) =~= p@);
    }
    let r = Filter::And(conds);
    proof {
        assert(r@ matches FilterView::And(s) && s =~= p@.map_values(
            |pr: (Seq<char>, ValueView)| FilterView::Equals(pr.0, pr.1),
        ));
    }
    r
}

/// Builds the filter selecting exactly the records identified by `ps`: OR
/// across the per-identity equality filters.
pub fn projections_filter(ps: &Vec<RecordProjection>) -> (r: Filter)
    ensures
        r@ == spec_projections_filter(ps@.map_values(|p: RecordProjection| p@)),
{
    let ghost views = ps@.map_values(|p: RecordProjection| p@);
    let mut conds: Vec<Filter> = Vec::new();
    let mut i: usize = 0;
    proof {
        assert(conds@.map_values(|f: Filter| f@) =~= views.take(0).map_values(
            |p: Seq<(Seq<char>, ValueView)>| spec_projection_filter(p),
        ));
    }
    while i < ps.len()
        invariant
            i <= ps.len(),
            views == ps@.map_values(|p: RecordProjection| p@),
            conds@.len() == i,
            conds@.map_values(|f: Filter| f@) == views.take(i as int).map_values(
                |p: Seq<(Seq<char>, ValueView)>| spec_projection_filter(p),
            ),
        decreases ps.len() - i,
    {
        conds.push(projection_filter(&ps[i]));
        proof {
            assert(views[i as int] == ps@[i as int]@);
            assert(conds@.map_values(|f: Filter| f@) =~= views.take(i + 1).map_values(
                |p: Seq<(Seq<char>, ValueView)>| spec_projection_filter(p),
            ));
        }
        i += 1;
    }
    proof {
        assert(views.take(ps@.len() as int) =~= views);
    }
    let r = Filter::Or(conds);
    proof {
        assert(r@ matches FilterView::Or(s) && s =~= views.map_values(
            |p: Seq<(Seq<char>, ValueView)>| spec_projection_filter(p),
        ));
    }
    r
}

/// Conjoins a freshly built relation filter with a caller-supplied one, if
/// any: resolvers merge their filter into the query's existing filter by AND.
pub fn merge_filter(existing: Option<Filter>, fresh: Filter) -> (r: Filter)
    ensures
        match existing {
            Some(f) => r@ == FilterView::And(seq![f@, fresh@]),
            None => r == fresh,
        },
{
    match existing {
        Some(f) => {
            let ghost fv = f@;
            let ghost nv = fresh@;
            let mut both: Vec<Filter> = Vec::new();
            both.push(f);
            both.push(fresh);
            let r = Filter::And(both);
            proof {
                assert(r@ matches FilterView::And(s) && s =~= seq![fv, nv]);
            }
            r
        },
        None => fresh,
    }
}

} // verus!

//! Nested-relation resolution: building the child filter from parent
//! identities, re-attaching fetched children to their parents (many-to-many
//! fan-out and one-to-many single assignment), and the pagination post-filter.
use vstd::prelude::*;

use crate::error::InterpreterError;
use crate::filter::{spec_projections_filter, Filter, FilterView};
use crate::prisma_value::{string_views, value_views, PrismaValue, ValueView};
use crate::projection::{
    all_names_present, extracted_pairs, flat_db_names, pair_values, spec_db_len, ModelProjection,
    RecordProjection,
};
use crate::record::{records_well_formed, ManyRecords, Record, RecordModel};

verus! {

broadcast use Seq::lemma_map_take_succ, Seq::lemma_push_map_commute, Seq::lemma_filter_push, Seq::lemma_flatten_push;

/// A (column, value) pair list: the view of one identity value.
pub type PairList = Seq<(Seq<char>, ValueView)>;

/// How a relation field links two models; all the resolvers read of relation
/// metadata.
#[derive(Debug)]
pub struct RelationField {
    pub name: String,
    pub relation_name: String,
    pub model_name: String,
    pub related_model_name: String,
    pub is_list: bool,
    /// The foreign key lives on this field's own model.
    pub is_inlined_on_enclosing_model: bool,
    /// The foreign key lives on the related model.
    pub related_field_is_inlined: bool,
    /// This side's link fields.
    pub linking_fields: ModelProjection,
    /// The related side's link fields.
    pub related_linking_fields: ModelProjection,
}

/// Skip / first / last applied to an assembled result set.
#[derive(Debug)]
pub struct NestedPagination {
    pub skip: Option<i64>,
    pub first: Option<i64>,
    pub last: Option<i64>,
}

/// What pagination keeps: drop `skip` from the front, then keep the first
/// `first`, then the last `last`.
pub open spec fn spec_paginate(
    records: Seq<Record>,
    skip: Option<i64>,
    first: Option<i64>,
    last: Option<i64>,
) -> Seq<Record> {
    let s = match skip {
        Some(n) => if n <= 0 {
            records
        } else if n >= records.len() {
            Seq::empty()
        } else {
            records.skip(n as int)
        },
        None => records,
    };
    let f = match first {
        Some(n) => if n <= 0 {
            Seq::empty()
        } else if n >= s.len() {
            s
        } else {
            s.take(n as int)
        },
        None => s,
    };
    match last {
        Some(n) => if n <= 0 {
            Seq::empty()
        } else if n >= f.len() {
            f
        } else {
            f.skip(f.len() - n as int)
        },
        None => f,
    }
}

/// Removes the first `n` records.
fn drop_front(v: &mut Vec<Record>, n: usize)
    requires
        n <= old(v)@.len(),
    ensures
        final(v)@ == old(v)@.skip(n as int),
{
    let ghost orig = v@;
    let mut i: usize = 0;
    while i < n
        invariant
            i <= n,
            n <= orig.len(),
            v@ == orig.skip(i as int),
        decreases n - i,
    {
        let _ = v.remove(0);
        proof {
            assert(orig.skip(i as int).skip(1) =~= orig.skip(i + 1));
        }
        i += 1;
    }
}

/// Keeps the first `n` records.
fn keep_first(v: &mut Vec<Record>, n: usize)
    requires
        n <= old(v)@.len(),
    ensures
        final(v)@ == old(v)@.take(n as int),
{
    let ghost orig = v@;
    proof {
        assert(orig.take(orig.len() as int) =~= orig);
    }
    while v.len() > n
        invariant
            n <= v@.len(),
            v@.len() <= orig.len(),
            v@ == orig.take(v@.len() as int),
        decreases v@.len(),
    {
        let _ = v.pop();
        proof {
            assert(orig.take(v@.len() as int + 1).drop_last() =~= orig.take(v@.len() as int));
        }
    }
}

/// Keeps the last `n` records.
fn keep_last(v: &mut Vec<Record>, n: usize)
    requires
        n <= old(v)@.len(),
    ensures
        final(v)@ == old(v)@.skip(old(v)@.len() - n as int),
{
    let ghost orig = v@;
    proof {
        assert(orig.skip(0) =~= orig);
    }
    while v.len() > n
        invariant
            n <= v@.len() <= orig.len(),
            v@ == orig.skip(orig.len() - v@.len()),
        decreases v@.len(),
    {
        let ghost k = orig.len() - v@.len();
        let _ = v.remove(0);
        proof {
            assert(orig.skip(k).skip(1) =~= orig.skip(k + 1));
        }
    }
}

impl NestedPagination {
    /// Applies the pagination post-filter in place.
    pub fn apply_pagination(&self, records: &mut ManyRecords)
        ensures
            final(records).records@ == spec_paginate(
                old(records).records@,
                self.skip,
                self.first,
                self.last,
            ),
            final(records).field_names == old(records).field_names,
    {
        let ghost orig = records.records@;
        match self.skip {
            Some(n) => {
                if n > 0 {
                    let k: usize = if n as u64 >= records.records.len() as u64 {
                        records.records.len()
                    } else {
                        n as usize
                    };
                    drop_front(&mut records.records, k);
                    proof {
                        if n >= orig.len() {
                            assert(records.records@ =~= Seq::<Record>::empty());
                        }
                        assert(records.records@ =~= spec_paginate(orig, self.skip, None, None));
                    }
                }
            },
            None => {},
        }
        let ghost after_skip = records.records@;
        proof {
            assert(after_skip == spec_paginate(orig, self.skip, None, None));
        }
        match self.first {
            Some(n) => {
                if n <= 0 {
                    records.records.clear();
                    proof {
                        assert(records.records@ =~= Seq::<Record>::empty());
                    }
                } else {
                    let k: usize = if n as u64 >= records.records.len() as u64 {
                        records.records.len()
                    } else {
                        n as usize
                    };
                    keep_first(&mut records.records, k);
                    proof {
                        if n >= after_skip.len() {
                            assert(records.records@ =~= after_skip);
                        }
                    }
                }
            },
            None => {},
        }
        let ghost after_first = records.records@;
        proof {
            assert(after_first =~= spec_paginate(orig, self.skip, self.first, None));
        }
        match self.last {
            Some(n) => {
                if n <= 0 {
                    records.records.clear();
                    proof {
                        assert(records.records@ =~= Seq::<Record>::empty());
                    }
                } else {
                    let k: usize = if n as u64 >= records.records.len() as u64 {
                        records.records.len()
                    } else {
                        n as usize
                    };
                    keep_last(&mut records.records, k);
                    proof {
                        if n >= after_first.len() {
                            assert(records.records@ =~= after_first);
                        }
                    }
                }
            },
            None => {},
        }
        proof {
            assert(records.records@ =~= spec_paginate(orig, self.skip, self.first, self.last));
        }
    }
}

/// The parent identities nested resolution starts from: explicit projections
/// handed down the graph if present, else identities extracted from the
/// parent result set.
pub fn resolve_parent_projections(
    parent_projections: Option<Vec<RecordProjection>>,
    parent_result: Option<&ManyRecords>,
    projection: &ModelProjection,
) -> (r: Result<Vec<RecordProjection>, InterpreterError>)
    requires
        parent_result matches Some(mr) ==> records_well_formed(mr.records@, mr.field_names@),
    ensures
        parent_projections matches Some(ps) ==> (r matches Ok(v) && v == ps),
        parent_projections is None && parent_result is None ==> (r matches Err(e) && e
            is MissingParentResults),
        parent_projections is None && parent_result is Some ==> match r {
            Ok(v) => (parent_result->Some_0.records@.len() == 0 || all_names_present(
                flat_db_names(projection@),
                string_views(parent_result->Some_0.field_names@),
            )) && v@.len() == parent_result->Some_0.records@.len() && forall|i: int|
                0 <= i < v@.len() ==> (#[trigger] v@[i])@ == extracted_pairs(
                    flat_db_names(projection@),
                    string_views(parent_result->Some_0.field_names@),
                    value_views(parent_result->Some_0.records@[i].values@),
                ),
            Err(e) => e is Domain && !(parent_result->Some_0.records@.len() == 0
                || all_names_present(
                flat_db_names(projection@),
                string_views(parent_result->Some_0.field_names@),
            )),
        },
{
    match parent_projections {
        Some(ps) => Ok(ps),
        None => match parent_result {
            Some(mr) => match mr.projections(projection) {
                Ok(v) => Ok(v),
                Err(e) => Err(InterpreterError::Domain(e)),
            },
            None => Err(InterpreterError::MissingParentResults),
        },
    }
}

/// Whether `p` is one of the identity values of `ids`, pairs and order alike.
pub open spec fn appears_in(p: PairList, ids: Seq<RecordProjection>) -> bool {
    exists|j: int| 0 <= j < ids.len() && p == (#[trigger] ids[j])@
}

/// Whether some identity value of `ps` denotes the pair set `key`.
pub open spec fn set_appears_in(
    key: Set<(Seq<char>, ValueView)>,
    ps: Seq<RecordProjection>,
) -> bool {
    exists|i: int| 0 <= i < ps.len() && key == (#[trigger] ps[i])@.to_set()
}

/// Distinct identity values, first occurrence kept, equality pair-set based.
pub fn distinct_projections(ids: &Vec<RecordProjection>) -> (r: Vec<RecordProjection>)
    ensures
        forall|i: int| 0 <= i < r@.len() ==> appears_in((#[trigger] r@[i])@, ids@),
        forall|j: int| 0 <= j < ids@.len() ==> set_appears_in(
            (#[trigger] ids@[j])@.to_set(),
            r@,
        ),
        forall|i: int, j: int| 0 <= i < j < r@.len() ==> (#[trigger] r@[i])@.to_set()
            != (#[trigger] r@[j])@.to_set(),
{
    let mut out: Vec<RecordProjection> = Vec::new();
    let mut j: usize = 0;
    while j < ids.len()
        invariant
            j <= ids.len(),
            forall|i: int| 0 <= i < out@.len() ==> appears_in((#[trigger] out@[i])@, ids@),
            forall|l: int| 0 <= l < j ==> set_appears_in((#[trigger] ids@[l])@.to_set(), out@),
            forall|i: int, l: int| 0 <= i < l < out@.len() ==> (#[trigger] out@[i])@.to_set()
                != (#[trigger] out@[l])@.to_set(),
        decreases ids.len() - j,
    {
        let candidate = &ids[j];
        let mut found = false;
        let mut i: usize = 0;
        while i < out.len()
            invariant
                i <= out.len(),
                0 <= j < ids@.len(),
                candidate == &ids@[j as int],
                found <==> exists|l: int|
                    0 <= l < i && (#[trigger] out@[l])@.to_set() == candidate@.to_set(),
            decreases out.len() - i,
        {
            if out[i].equals(candidate) {
                found = true;
                proof {
                    assert(out@[i as int]@.to_set() == candidate@.to_set());
                }
            }
            i += 1;
        }
        let ghost old_out = out@;
        if !found {
            out.push(candidate.clone());
        }
        proof {
            assert forall|l: int| 0 <= l < out@.len() implies appears_in(
                (#[trigger] out@[l])@,
                ids@,
            ) by {
                if l < old_out.len() {
                    assert(out@[l] == old_out[l]);
                } else {
                    assert(out@[l]@ == ids@[j as int]@);
                }
            }
            assert forall|l: int| 0 <= l < j + 1 implies set_appears_in(
                (#[trigger] ids@[l])@.to_set(),
                out@,
            ) by {
                if l < j {
                    let x0 = choose|x0: int|
                        0 <= x0 < old_out.len() && ids@[l]@.to_set() == (#[trigger] old_out[
                            x0
                        ])@.to_set();
                    assert(out@[x0] == old_out[x0]);
                    assert(ids@[l]@.to_set() == out@[x0]@.to_set());
                } else {
                    if found {
                        let x0 = choose|x0: int|
                            0 <= x0 < old_out.len() && (#[trigger] old_out[x0])@.to_set()
                                == candidate@.to_set();
                        assert(out@[x0] == old_out[x0]);
                        assert(ids@[l]@.to_set() == out@[x0]@.to_set());
                    } else {
                        assert(ids@[l]@.to_set() == out@[out@.len() - 1]@.to_set());
                    }
                }
            }
            assert forall|x: int, l: int| 0 <= x < l < out@.len() implies (#[trigger] out@[
                x
            ])@.to_set() != (#[trigger] out@[l])@.to_set() by {
                if l < old_out.len() {
                } else if !found {
                    assert(out@[l]@.to_set() == candidate@.to_set());
                    assert(out@[x] == old_out[x]);
                }
            }
        }
        j += 1;
    }
    out
}

/// The relation filter selecting children whose link key takes one of the
/// given identity values: a single-column IN filter when the link key is one
/// column, an OR of per-identity equality filters when it is compound.
pub open spec fn spec_relation_filter(child_link: Seq<crate::projection::ProjectionFieldView>, ids: Seq<PairList>) -> FilterView {
    if spec_db_len(child_link) > 1 {
        spec_projections_filter(ids)
    } else {
        FilterView::In(
            flat_db_names(child_link)[0],
            ids.map_values(|p: PairList| p[0].1),
        )
    }
}

/// Builds the relation filter over the child link key for the given identity
/// values.
pub fn relation_filter(child_link: &ModelProjection, ids: &Vec<RecordProjection>) -> (r: Filter)
    requires
        spec_db_len(child_link@) >= 1,
        spec_db_len(child_link@) == 1 ==> forall|i: int| 0 <= i < ids@.len()
            ==> (#[trigger] ids@[i])@.len() >= 1,
    ensures
        r@ == spec_relation_filter(child_link@, ids@.map_values(|p: RecordProjection| p@)),
{
    let ghost id_views = ids@.map_values(|p: RecordProjection| p@);
    let db_names = child_link.db_names();
    proof {
        assert(string_views(db_names@).len() == db_names@.len());
    }
    if db_names.len() > 1 {
        crate::filter::projections_filter(ids)
    } else {
        let mut names = db_names;
        let column = names.pop().unwrap();
        proof {
            assert(column@ == flat_db_names(child_link@)[0]);
        }
        let mut values: Vec<PrismaValue> = Vec::new();
        let mut i: usize = 0;
        proof {
            assert(value_views(values@) =~= id_views.take(0).map_values(|p: PairList| p[0].1));
        }
        while i < ids.len()
            invariant
                i <= ids.len(),
                id_views == ids@.map_values(|p: RecordProjection| p@),
                forall|k: int| 0 <= k < ids@.len() ==> (#[trigger] ids@[k])@.len() >= 1,
                value_views(values@) == id_views.take(i as int).map_values(
                    |p: PairList| p[0].1,
                ),
            decreases ids.len() - i,
        {
            values.push(ids[i].pairs[0].1.clone());
            proof {
                assert(ids@[i as int]@[0] == (ids@[i as int].pairs@[0].0@, ids@[i as int].pairs@[0].1@));
                assert(id_views[i as int] == ids@[i as int]@);
                assert(value_views(values@) =~= id_views.take(i + 1).map_values(
                    |p: PairList| p[0].1,
                ));
            }
            i += 1;
        }
        proof {
            assert(id_views.take(ids@.len() as int) =~= id_views);
        }
        let r = Filter::In(column, values);
        proof {
            assert(r@ matches FilterView::In(c, vs) && c == flat_db_names(child_link@)[0] && vs
                =~= id_views.map_values(|p: PairList| p[0].1));
        }
        r
    }
}

/// The views of a record list.
pub open spec fn record_views(rs: Seq<Record>) -> Seq<RecordModel> {
    rs.map_values(|r: Record| r@)
}

/// The record with its parent identity assigned.
pub open spec fn with_parent(m: RecordModel, p: PairList) -> RecordModel {
    RecordModel { values: m.values, parent_id: Some(p) }
}

/// The views of the join rows handed back for a many-to-many relation:
/// (parent identity, child identity) pairs.
pub open spec fn join_row_views(rows: Seq<(RecordProjection, RecordProjection)>) -> Seq<
    (PairList, PairList),
> {
    rows.map_values(|r: (RecordProjection, RecordProjection)| (r.0@, r.1@))
}

/// The parents a child identity is tied to, in join-row order; identity
/// equality is pair-set based.
pub open spec fn spec_parents_of(
    rows: Seq<(PairList, PairList)>,
    key: Set<(Seq<char>, ValueView)>,
) -> Seq<PairList> {
    rows.filter(|r: (PairList, PairList)| r.1.to_set() == key).map_values(
        |r: (PairList, PairList)| r.0,
    )
}

/// The key under which a fetched record is looked up: its identity pairs,
/// order-independent.
pub open spec fn spec_record_key(
    m: RecordModel,
    flat: Seq<Seq<char>>,
    names: Seq<Seq<char>>,
) -> Set<(Seq<char>, ValueView)> {
    extracted_pairs(flat, names, m.values).to_set()
}

/// The in-place part of the many-to-many fan-out: every fetched record is
/// assigned the first parent of its group.
pub open spec fn spec_m2m_base(
    ms: Seq<RecordModel>,
    flat: Seq<Seq<char>>,
    names: Seq<Seq<char>>,
    rows: Seq<(PairList, PairList)>,
) -> Seq<RecordModel> {
    Seq::new(
        ms.len(),
        |k: int| with_parent(ms[k], spec_parents_of(rows, spec_record_key(ms[k], flat, names))[0]),
    )
}

/// The fan-out clones record `k` contributes: one per additional parent, in
/// join-row order.
pub open spec fn spec_m2m_extras_at(
    ms: Seq<RecordModel>,
    flat: Seq<Seq<char>>,
    names: Seq<Seq<char>>,
    rows: Seq<(PairList, PairList)>,
    k: int,
) -> Seq<RecordModel> {
    spec_parents_of(rows, spec_record_key(ms[k], flat, names)).skip(1).map_values(
        |p: PairList| with_parent(ms[k], p),
    )
}

/// All fan-out clones, appended after the in-place records in record order.
pub open spec fn spec_m2m_extras(
    ms: Seq<RecordModel>,
    flat: Seq<Seq<char>>,
    names: Seq<Seq<char>>,
    rows: Seq<(PairList, PairList)>,
) -> Seq<RecordModel> {
    Seq::new(ms.len(), |k: int| spec_m2m_extras_at(ms, flat, names, rows, k)).flatten()
}

/// Collects the parents of `key` from the join rows, in order.
fn parents_of(
    rows: &Vec<(RecordProjection, RecordProjection)>,
    key: &RecordProjection,
) -> (r: Vec<RecordProjection>)
    ensures
        r@.map_values(|p: RecordProjection| p@) == spec_parents_of(
            join_row_views(rows@),
            key@.to_set(),
        ),
{
    let ghost row_views = join_row_views(rows@);
    let mut out: Vec<RecordProjection> = Vec::new();
    let mut m: usize = 0;
    proof {
        assert(row_views.take(0) =~= Seq::<(PairList, PairList)>::empty());
        assert(out@.map_values(|p: RecordProjection| p@) =~= spec_parents_of(
            row_views.take(0),
            key@.to_set(),
        ));
    }
    while m < rows.len()
        invariant
            m <= rows.len(),
            row_views == join_row_views(rows@),
            out@.map_values(|p: RecordProjection| p@) == spec_parents_of(
                row_views.take(m as int),
                key@.to_set(),
            ),
        decreases rows.len() - m,
    {
        let row = &rows[m];
        let is_match = row.1.equals(key);
        proof {
            assert(row_views[m as int] == (rows@[m as int].0@, rows@[m as int].1@));
            assert(row_views.take(m + 1) =~= row_views.take(m as int).push(row_views[m as int]));
        }
        if is_match {
            out.push(row.0.clone());
        }
        proof {
            assert(out@.map_values(|p: RecordProjection| p@) =~= spec_parents_of(
                row_views.take(m + 1),
                key@.to_set(),
            ));
        }
        m += 1;
    }
    proof {
        assert(row_views.take(rows@.len() as int) =~= row_views);
    }
    out
}

/// Many-to-many re-attachment: every fetched child is assigned the first
/// parent its identity is tied to in the join rows; for every additional
/// parent a clone of the record is appended, realizing the fan-out without
/// re-querying. A fetched child whose identity is absent from the join rows
/// is a consistency violation and aborts the resolution.
pub fn m2m_attach(
    scalars: ManyRecords,
    rows: &Vec<(RecordProjection, RecordProjection)>,
    child_model_id: &ModelProjection,
) -> (r: Result<ManyRecords, InterpreterError>)
    requires
        records_well_formed(scalars.records@, scalars.field_names@),
    ensures
        r is Ok <==> ((scalars.records@.len() == 0 || all_names_present(
            flat_db_names(child_model_id@),
            string_views(scalars.field_names@),
        )) && forall|k: int| 0 <= k < scalars.records@.len() ==> spec_parents_of(
            join_row_views(rows@),
            spec_record_key(
                #[trigger] record_views(scalars.records@)[k],
                flat_db_names(child_model_id@),
                string_views(scalars.field_names@),
            ),
        ).len() >= 1),
        r matches Ok(out) ==> out.field_names == scalars.field_names && record_views(
            out.records@,
        ) == spec_m2m_base(
            record_views(scalars.records@),
            flat_db_names(child_model_id@),
            string_views(scalars.field_names@),
            join_row_views(rows@),
        ) + spec_m2m_extras(
            record_views(scalars.records@),
            flat_db_names(child_model_id@),
            string_views(scalars.field_names@),
            join_row_views(rows@),
        ),
        r matches Err(e) ==> (e is Domain || e is InconsistentResultData),
{
    let ghost ms = record_views(scalars.records@);
    let ghost flat = flat_db_names(child_model_id@);
    let ghost names = string_views(scalars.field_names@);
    let ghost row_views = join_row_views(rows@);
    let mut base: Vec<Record> = Vec::new();
    let mut additional: Vec<Record> = Vec::new();
    let mut k: usize = 0;
    proof {
        assert(record_views(base@) =~= spec_m2m_base(ms, flat, names, row_views).take(0));
        assert(Seq::new(0, |x: int| spec_m2m_extras_at(ms, flat, names, row_views, x)).flatten()
            =~= Seq::<RecordModel>::empty());
        assert(record_views(additional@) =~= Seq::new(
            0,
            |x: int| spec_m2m_extras_at(ms, flat, names, row_views, x),
        ).flatten());
    }
    while k < scalars.records.len()
        invariant
            k <= scalars.records.len(),
            records_well_formed(scalars.records@, scalars.field_names@),
            ms == record_views(scalars.records@),
            flat == flat_db_names(child_model_id@),
            names == string_views(scalars.field_names@),
            row_views == join_row_views(rows@),
            ms.len() == scalars.records@.len(),
            k > 0 ==> all_names_present(flat, names),
            forall|l: int| 0 <= l < k ==> spec_parents_of(
                row_views,
                spec_record_key(#[trigger] ms[l], flat, names),
            ).len() >= 1,
            record_views(base@) == spec_m2m_base(ms, flat, names, row_views).take(k as int),
            record_views(additional@) == Seq::new(
                k as nat,
                |x: int| spec_m2m_extras_at(ms, flat, names, row_views, x),
            ).flatten(),
        decreases scalars.records.len() - k,
    {
        let record = &scalars.records[k];
        let record_id = match record.projection(&scalars.field_names, child_model_id) {
            Ok(p) => p,
            Err(e) => {
                return Err(InterpreterError::Domain(e));
            },
        };
        proof {
            assert(ms[k as int] == scalars.records@[k as int]@);
            assert(record_id@.to_set() == spec_record_key(ms[k as int], flat, names));
        }
        let parents = parents_of(rows, &record_id);
        if parents.len() == 0 {
            proof {
                assert(spec_parents_of(row_views, spec_record_key(ms[k as int], flat, names))
                    =~= Seq::<PairList>::empty());
            }
            return Err(InterpreterError::InconsistentResultData);
        }
        let ghost group = spec_parents_of(row_views, spec_record_key(ms[k as int], flat, names));
        proof {
            assert(group[0] == parents@[0]@);
        }
        let mut first = record.clone();
        first.parent_id = Some(parents[0].clone());
        base.push(first);
        proof {
            assert(record_views(base@) =~= spec_m2m_base(ms, flat, names, row_views).take(
                k + 1,
            ));
        }
        let ghost add_before = record_views(additional@);
        let mut m: usize = 1;
        while m < parents.len()
            invariant
                1 <= m <= parents@.len(),
                0 <= k < ms.len(),
                group == spec_parents_of(row_views, spec_record_key(ms[k as int], flat, names)),
                parents@.map_values(|p: RecordProjection| p@) == group,
                ms[k as int] == scalars.records@[k as int]@,
                record == &scalars.records@[k as int],
                record_views(additional@) == add_before + group.subrange(1, m as int).map_values(
                    |p: PairList| with_parent(ms[k as int], p),
                ),
            decreases parents.len() - m,
        {
            let mut extra = record.clone();
            extra.parent_id = Some(parents[m].clone());
            additional.push(extra);
            proof {
                assert(group[m as int] == parents@[m as int]@);
                assert(group.subrange(1, m + 1) =~= group.subrange(1, m as int).push(
                    group[m as int],
                ));
                assert(record_views(additional@) =~= add_before + group.subrange(
                    1,
                    m + 1,
                ).map_values(|p: PairList| with_parent(ms[k as int], p)));
            }
            m += 1;
        }
        proof {
            assert(group.subrange(1, group.len() as int) =~= group.skip(1));
            assert(record_views(additional@) == add_before + spec_m2m_extras_at(
                ms,
                flat,
                names,
                row_views,
                k as int,
            ));
            assert(Seq::new((k + 1) as nat, |x: int| spec_m2m_extras_at(ms, flat, names, row_views, x))
                =~= Seq::new(k as nat, |x: int| spec_m2m_extras_at(ms, flat, names, row_views, x)).push(
                spec_m2m_extras_at(ms, flat, names, row_views, k as int),
            ));
            assert(record_views(additional@) =~= Seq::new(
                (k + 1) as nat,
                |x: int| spec_m2m_extras_at(ms, flat, names, row_views, x),
            ).flatten());
        }
        k += 1;
    }
    let mut records = base;
    let mut extras = additional;
    records.append(&mut extras);
    proof {
        assert(spec_m2m_base(ms, flat, names, row_views).take(ms.len() as int) =~= spec_m2m_base(
            ms,
            flat,
            names,
            row_views,
        ));
        assert(record_views(records@) =~= spec_m2m_base(ms, flat, names, row_views)
            + spec_m2m_extras(ms, flat, names, row_views));
    }
    Ok(ManyRecords { records, field_names: scalars.field_names })
}

/// Splits each joined (primary identity ⊕ link identity) projection into its
/// two halves, as one-to-many resolution needs them.
pub fn split_joined(
    joined: &Vec<RecordProjection>,
    parent_pid: &ModelProjection,
    parent_link: &ModelProjection,
) -> (r: Result<Vec<(RecordProjection, RecordProjection)>, InterpreterError>)
    ensures
        r is Ok <==> forall|i: int| 0 <= i < joined@.len() ==> (all_names_present(
            flat_db_names(parent_pid@),
            (#[trigger] joined@[i]).spec_names(),
        ) && all_names_present(flat_db_names(parent_link@), joined@[i].spec_names())),
        r matches Ok(v) ==> v@.len() == joined@.len() && forall|i: int|
            0 <= i < joined@.len() ==> ((#[trigger] v@[i]).0@ == extracted_pairs(
                flat_db_names(parent_pid@),
                joined@[i].spec_names(),
                joined@[i].spec_values(),
            ) && v@[i].1@ == extracted_pairs(
                flat_db_names(parent_link@),
                joined@[i].spec_names(),
                joined@[i].spec_values(),
            )),
        r matches Err(e) ==> e is Domain,
{
    let mut out: Vec<(RecordProjection, RecordProjection)> = Vec::new();
    let mut i: usize = 0;
    while i < joined.len()
        invariant
            i <= joined.len(),
            out@.len() == i,
            forall|l: int| 0 <= l < i ==> (all_names_present(
                flat_db_names(parent_pid@),
                (#[trigger] joined@[l]).spec_names(),
            ) && all_names_present(flat_db_names(parent_link@), joined@[l].spec_names())),
            forall|l: int| 0 <= l < i ==> ((#[trigger] out@[l]).0@ == extracted_pairs(
                flat_db_names(parent_pid@),
                joined@[l].spec_names(),
                joined@[l].spec_values(),
            ) && out@[l].1@ == extracted_pairs(
                flat_db_names(parent_link@),
                joined@[l].spec_names(),
                joined@[l].spec_values(),
            )),
        decreases joined.len() - i,
    {
        let mut shapes: Vec<ModelProjection> = Vec::new();
        shapes.push(parent_pid.clone());
        shapes.push(parent_link.clone());
        proof {
            assert(shapes@[0]@ == parent_pid@);
            assert(shapes@[1]@ == parent_link@);
        }
        match joined[i].split_into(&shapes) {
            Ok(mut halves) => {
                proof {
                    assert(halves@.len() == 2);
                }
                let link_half = halves.pop().unwrap();
                let id_half = halves.pop().unwrap();
                out.push((id_half, link_half));
                i += 1;
            },
            Err(e) => {
                proof {
                    assert(!(all_names_present(
                        flat_db_names(shapes@[0]@),
                        joined@[i as int].spec_names(),
                    ) && all_names_present(
                        flat_db_names(shapes@[1]@),
                        joined@[i as int].spec_names(),
                    )));
                }
                return Err(InterpreterError::Domain(e));
            },
        }
    }
    Ok(out)
}

/// The parents grouped under one link-value row, in joined order.
pub open spec fn spec_group_of(joined: Seq<(PairList, PairList)>, key: Seq<ValueView>) -> Seq<
    PairList,
> {
    joined.filter(|j: (PairList, PairList)| pair_values(j.1) == key).map_values(
        |j: (PairList, PairList)| j.0,
    )
}

/// Collects the parents whose link-value row equals `key`, in order.
fn group_of(
    joined: &Vec<(RecordProjection, RecordProjection)>,
    key: &Vec<PrismaValue>,
) -> (r: Vec<RecordProjection>)
    ensures
        r@.map_values(|p: RecordProjection| p@) == spec_group_of(
            join_row_views(joined@),
            value_views(key@),
        ),
{
    let ghost views = join_row_views(joined@);
    let mut out: Vec<RecordProjection> = Vec::new();
    let mut m: usize = 0;
    proof {
        assert(views.take(0) =~= Seq::<(PairList, PairList)>::empty());
        assert(out@.map_values(|p: RecordProjection| p@) =~= spec_group_of(
            views.take(0),
            value_views(key@),
        ));
    }
    while m < joined.len()
        invariant
            m <= joined.len(),
            views == join_row_views(joined@),
            out@.map_values(|p: RecordProjection| p@) == spec_group_of(
                views.take(m as int),
                value_views(key@),
            ),
        decreases joined.len() - m,
    {
        let link_values = joined[m].1.values();
        let is_match = crate::prisma_value::row_eq(&link_values, key);
        proof {
            assert(views[m as int] == (joined@[m as int].0@, joined@[m as int].1@));
            assert(value_views(link_values@) == pair_values(joined@[m as int].1@));
            assert(views.take(m + 1) =~= views.take(m as int).push(views[m as int]));
        }
        if is_match {
            out.push(joined[m].0.clone());
        }
        proof {
            assert(out@.map_values(|p: RecordProjection| p@) =~= spec_group_of(
                views.take(m + 1),
                value_views(key@),
            ));
        }
        m += 1;
    }
    proof {
        assert(views.take(joined@.len() as int) =~= views);
    }
    out
}

/// The link-value row a fetched child carries in its link columns.
pub open spec fn spec_child_link_key(
    m: RecordModel,
    flat: Seq<Seq<char>>,
    names: Seq<Seq<char>>,
) -> Seq<ValueView> {
    pair_values(extracted_pairs(flat, names, m.values))
}

/// One-to-many re-attachment when the foreign key lives on the child's
/// table: each fetched child is assigned the first parent of its link group;
/// a child whose link value has no group keeps no parent, and parents without
/// a matching child get no record. No record is added or dropped.
pub open spec fn spec_one2m_child_inlined(
    ms: Seq<RecordModel>,
    flat: Seq<Seq<char>>,
    names: Seq<Seq<char>>,
    joined: Seq<(PairList, PairList)>,
) -> Seq<RecordModel> {
    Seq::new(
        ms.len(),
        |k: int|
            {
                let group = spec_group_of(joined, spec_child_link_key(ms[k], flat, names));
                if group.len() > 0 {
                    with_parent(ms[k], group[0])
                } else {
                    ms[k]
                }
            },
    )
}

/// One-to-many re-attachment for the child-side inlined case.
pub fn one2m_attach_child_inlined(
    scalars: ManyRecords,
    joined: &Vec<(RecordProjection, RecordProjection)>,
    child_link: &ModelProjection,
) -> (r: Result<ManyRecords, InterpreterError>)
    requires
        records_well_formed(scalars.records@, scalars.field_names@),
    ensures
        r is Ok <==> (scalars.records@.len() == 0 || all_names_present(
            flat_db_names(child_link@),
            string_views(scalars.field_names@),
        )),
        r matches Ok(out) ==> out.field_names == scalars.field_names && record_views(
            out.records@,
        ) == spec_one2m_child_inlined(
            record_views(scalars.records@),
            flat_db_names(child_link@),
            string_views(scalars.field_names@),
            join_row_views(joined@),
        ),
        r matches Err(e) ==> e is Domain,
{
    let ghost ms = record_views(scalars.records@);
    let ghost flat = flat_db_names(child_link@);
    let ghost names = string_views(scalars.field_names@);
    let ghost row_views = join_row_views(joined@);
    let mut out_records: Vec<Record> = Vec::new();
    let mut k: usize = 0;
    proof {
        assert(record_views(out_records@) =~= spec_one2m_child_inlined(
            ms,
            flat,
            names,
            row_views,
        ).take(0));
    }
    while k < scalars.records.len()
        invariant
            k <= scalars.records.len(),
            records_well_formed(scalars.records@, scalars.field_names@),
            ms == record_views(scalars.records@),
            flat == flat_db_names(child_link@),
            names == string_views(scalars.field_names@),
            row_views == join_row_views(joined@),
            ms.len() == scalars.records@.len(),
            k > 0 ==> all_names_present(flat, names),
            record_views(out_records@) == spec_one2m_child_inlined(
                ms,
                flat,
                names,
                row_views,
            ).take(k as int),
        decreases scalars.records.len() - k,
    {
        let record = &scalars.records[k];
        let child_link_id = match record.projection(&scalars.field_names, child_link) {
            Ok(p) => p,
            Err(e) => {
                return Err(InterpreterError::Domain(e));
            },
        };
        let link_values = child_link_id.values();
        proof {
            assert(ms[k as int] == scalars.records@[k as int]@);
            assert(value_views(link_values@) == spec_child_link_key(ms[k as int], flat, names));
        }
        let group = group_of(joined, &link_values);
        let mut next = record.clone();
        if group.len() > 0 {
            next.parent_id = Some(group[0].clone());
            proof {
                assert(group@[0]@ == spec_group_of(
                    row_views,
                    spec_child_link_key(ms[k as int], flat, names),
                )[0]);
            }
        }
        out_records.push(next);
        proof {
            assert(record_views(out_records@) =~= spec_one2m_child_inlined(
                ms,
                flat,
                names,
                row_views,
            ).take(k + 1));
        }
        k += 1;
    }
    proof {
        assert(spec_one2m_child_inlined(ms, flat, names, row_views).take(ms.len() as int)
            =~= spec_one2m_child_inlined(ms, flat, names, row_views));
    }
    Ok(ManyRecords { records: out_records, field_names: scalars.field_names })
}

/// The in-place part of the parent-side inlined one-to-many re-attachment:
/// a fetched child with a nonempty link group takes its first parent; one
/// without a group is kept unchanged.
pub open spec fn spec_one2m_parent_base(
    ms: Seq<RecordModel>,
    flat: Seq<Seq<char>>,
    names: Seq<Seq<char>>,
    joined: Seq<(PairList, PairList)>,
) -> Seq<RecordModel> {
    spec_one2m_child_inlined(ms, flat, names, joined)
}

/// The fan-out clones record `k` contributes in the parent-side inlined case.
pub open spec fn spec_one2m_parent_extras_at(
    ms: Seq<RecordModel>,
    flat: Seq<Seq<char>>,
    names: Seq<Seq<char>>,
    joined: Seq<(PairList, PairList)>,
    k: int,
) -> Seq<RecordModel> {
    let group = spec_group_of(joined, spec_child_link_key(ms[k], flat, names));
    if group.len() == 0 {
        Seq::empty()
    } else {
        group.skip(1).map_values(|p: PairList| with_parent(ms[k], p))
    }
}

/// All parent-side fan-out clones, appended in record order.
pub open spec fn spec_one2m_parent_extras(
    ms: Seq<RecordModel>,
    flat: Seq<Seq<char>>,
    names: Seq<Seq<char>>,
    joined: Seq<(PairList, PairList)>,
) -> Seq<RecordModel> {
    Seq::new(ms.len(), |k: int| spec_one2m_parent_extras_at(ms, flat, names, joined, k)).flatten()
}

/// One-to-many re-attachment when the foreign key lives on the parent's
/// table: the fetched children carry the link value in their own columns; a
/// child's link group may hold several parents, and the record fans out by
/// cloning, exactly as in the many-to-many case. A child without a group is
/// kept without a parent.
pub fn one2m_attach_parent_inlined(
    scalars: ManyRecords,
    joined: &Vec<(RecordProjection, RecordProjection)>,
    child_link: &ModelProjection,
) -> (r: Result<ManyRecords, InterpreterError>)
    requires
        records_well_formed(scalars.records@, scalars.field_names@),
    ensures
        r is Ok <==> (scalars.records@.len() == 0 || all_names_present(
            flat_db_names(child_link@),
            string_views(scalars.field_names@),
        )),
        r matches Ok(out) ==> out.field_names == scalars.field_names && record_views(
            out.records@,
        ) == spec_one2m_parent_base(
            record_views(scalars.records@),
            flat_db_names(child_link@),
            string_views(scalars.field_names@),
            join_row_views(joined@),
        ) + spec_one2m_parent_extras(
            record_views(scalars.records@),
            flat_db_names(child_link@),
            string_views(scalars.field_names@),
            join_row_views(joined@),
        ),
        r matches Err(e) ==> e is Domain,
{
    let ghost ms = record_views(scalars.records@);
    let ghost flat = flat_db_names(child_link@);
    let ghost names = string_views(scalars.field_names@);
    let ghost row_views = join_row_views(joined@);
    let mut base: Vec<Record> = Vec::new();
    let mut additional: Vec<Record> = Vec::new();
    let mut k: usize = 0;
    proof {
        assert(record_views(base@) =~= spec_one2m_parent_base(ms, flat, names, row_views).take(0));
        assert(Seq::new(
            0,
            |x: int| spec_one2m_parent_extras_at(ms, flat, names, row_views, x),
        ).flatten() =~= Seq::<RecordModel>::empty());
        assert(record_views(additional@) =~= Seq::new(
            0,
            |x: int| spec_one2m_parent_extras_at(ms, flat, names, row_views, x),
        ).flatten());
    }
    while k < scalars.records.len()
        invariant
            k <= scalars.records.len(),
            records_well_formed(scalars.records@, scalars.field_names@),
            ms == record_views(scalars.records@),
            flat == flat_db_names(child_link@),
            names == string_views(scalars.field_names@),
            row_views == join_row_views(joined@),
            ms.len() == scalars.records@.len(),
            k > 0 ==> all_names_present(flat, names),
            record_views(base@) == spec_one2m_parent_base(ms, flat, names, row_views).take(
                k as int,
            ),
            record_views(additional@) == Seq::new(
                k as nat,
                |x: int| spec_one2m_parent_extras_at(ms, flat, names, row_views, x),
            ).flatten(),
        decreases scalars.records.len() - k,
    {
        let record = &scalars.records[k];
        let child_link_id = match record.projection(&scalars.field_names, child_link) {
            Ok(p) => p,
            Err(e) => {
                return Err(InterpreterError::Domain(e));
            },
        };
        let link_values = child_link_id.values();
        proof {
            assert(ms[k as int] == scalars.records@[k as int]@);
            assert(value_views(link_values@) == spec_child_link_key(ms[k as int], flat, names));
        }
        let group = group_of(joined, &link_values);
        let ghost g = spec_group_of(row_views, spec_child_link_key(ms[k as int], flat, names));
        let mut next = record.clone();
        if group.len() > 0 {
            next.parent_id = Some(group[0].clone());
            proof {
                assert(group@[0]@ == g[0]);
            }
        }
        base.push(next);
        proof {
            assert(record_views(base@) =~= spec_one2m_parent_base(ms, flat, names, row_views).take(
                k + 1,
            ));
        }
        let ghost add_before = record_views(additional@);
        if group.len() > 0 {
            let mut m: usize = 1;
            proof {
                assert(g.subrange(1, 1) =~= Seq::<PairList>::empty());
                assert(record_views(additional@) =~= add_before + g.subrange(1, 1).map_values(
                    |p: PairList| with_parent(ms[k as int], p),
                ));
            }
            while m < group.len()
                invariant
                    1 <= m <= group@.len(),
                    0 <= k < ms.len(),
                    g == spec_group_of(row_views, spec_child_link_key(ms[k as int], flat, names)),
                    group@.map_values(|p: RecordProjection| p@) == g,
                    ms[k as int] == scalars.records@[k as int]@,
                    record == &scalars.records@[k as int],
                    record_views(additional@) == add_before + g.subrange(1, m as int).map_values(
                        |p: PairList| with_parent(ms[k as int], p),
                    ),
                decreases group.len() - m,
            {
                let mut extra = record.clone();
                extra.parent_id = Some(group[m].clone());
                additional.push(extra);
                proof {
                    assert(g[m as int] == group@[m as int]@);
                    assert(g.subrange(1, m + 1) =~= g.subrange(1, m as int).push(g[m as int]));
                    assert(record_views(additional@) =~= add_before + g.subrange(
                        1,
                        m + 1,
                    ).map_values(|p: PairList| with_parent(ms[k as int], p)));
                }
                m += 1;
            }
            proof {
                assert(g.subrange(1, g.len() as int) =~= g.skip(1));
            }
        }
        proof {
            assert(record_views(additional@) == add_before + spec_one2m_parent_extras_at(
                ms,
                flat,
                names,
                row_views,
                k as int,
            ));
            assert(Seq::new(
                (k + 1) as nat,
                |x: int| spec_one2m_parent_extras_at(ms, flat, names, row_views, x),
            ) =~= Seq::new(
                k as nat,
                |x: int| spec_one2m_parent_extras_at(ms, flat, names, row_views, x),
            ).push(spec_one2m_parent_extras_at(ms, flat, names, row_views, k as int)));
            assert(record_views(additional@) =~= Seq::new(
                (k + 1) as nat,
                |x: int| spec_one2m_parent_extras_at(ms, flat, names, row_views, x),
            ).flatten());
        }
        k += 1;
    }
    let mut records = base;
    let mut extras = additional;
    records.append(&mut extras);
    proof {
        assert(spec_one2m_parent_base(ms, flat, names, row_views).take(ms.len() as int)
            =~= spec_one2m_parent_base(ms, flat, names, row_views));
        assert(record_views(records@) =~= spec_one2m_parent_base(ms, flat, names, row_views)
            + spec_one2m_parent_extras(ms, flat, names, row_views));
    }
    Ok(ManyRecords { records, field_names: scalars.field_names })
}

/// One-to-many re-attachment: which side the foreign key is physically
/// stored on decides the strategy. Neither side inlined is an unrecoverable
/// modeling inconsistency.
pub fn one2m_attach(
    parent_field: &RelationField,
    scalars: ManyRecords,
    joined: &Vec<(RecordProjection, RecordProjection)>,
    child_link: &ModelProjection,
) -> (r: Result<ManyRecords, InterpreterError>)
    requires
        records_well_formed(scalars.records@, scalars.field_names@),
    ensures
        !parent_field.is_inlined_on_enclosing_model && !parent_field.related_field_is_inlined
            ==> (r matches Err(e) && e is RelationNotInlined),
        parent_field.is_inlined_on_enclosing_model && r is Ok ==> r->Ok_0.field_names
            == scalars.field_names && record_views(r->Ok_0.records@) == spec_one2m_parent_base(
            record_views(scalars.records@),
            flat_db_names(child_link@),
            string_views(scalars.field_names@),
            join_row_views(joined@),
        ) + spec_one2m_parent_extras(
            record_views(scalars.records@),
            flat_db_names(child_link@),
            string_views(scalars.field_names@),
            join_row_views(joined@),
        ),
        !parent_field.is_inlined_on_enclosing_model && parent_field.related_field_is_inlined && r
            is Ok ==> r->Ok_0.field_names == scalars.field_names && record_views(
            r->Ok_0.records@,
        ) == spec_one2m_child_inlined(
            record_views(scalars.records@),
            flat_db_names(child_link@),
            string_views(scalars.field_names@),
            join_row_views(joined@),
        ),
        (parent_field.is_inlined_on_enclosing_model || parent_field.related_field_is_inlined)
            ==> (r is Ok <==> (scalars.records@.len() == 0 || all_names_present(
            flat_db_names(child_link@),
            string_views(scalars.field_names@),
        ))),
{
    if parent_field.is_inlined_on_enclosing_model {
        one2m_attach_parent_inlined(scalars, joined, child_link)
    } else if parent_field.related_field_is_inlined {
        one2m_attach_child_inlined(scalars, joined, child_link)
    } else {
        Err(InterpreterError::RelationNotInlined)
    }
}

/// Many-to-many fan-out conservation: a fetched child whose identity is tied
/// to `p` parents in the join rows yields exactly `p` result records — one in
/// place and `p - 1` appended clones — each carrying one of those parents in
/// join-row order, and each holding the child's own values unchanged.
pub proof fn lemma_m2m_fanout_conservation(
    ms: Seq<RecordModel>,
    flat: Seq<Seq<char>>,
    names: Seq<Seq<char>>,
    rows: Seq<(PairList, PairList)>,
    k: int,
)
    requires
        0 <= k < ms.len(),
        spec_parents_of(rows, spec_record_key(ms[k], flat, names)).len() >= 1,
    ensures
        spec_m2m_base(ms, flat, names, rows)[k].values == ms[k].values,
        spec_m2m_base(ms, flat, names, rows)[k].parent_id == Some(
            spec_parents_of(rows, spec_record_key(ms[k], flat, names))[0],
        ),
        spec_m2m_extras_at(ms, flat, names, rows, k).len() == spec_parents_of(
            rows,
            spec_record_key(ms[k], flat, names),
        ).len() - 1,
        forall|j: int| 0 <= j < spec_m2m_extras_at(ms, flat, names, rows, k).len()
            ==> (#[trigger] spec_m2m_extras_at(ms, flat, names, rows, k)[j]).values
            == ms[k].values && spec_m2m_extras_at(ms, flat, names, rows, k)[j].parent_id == Some(
            spec_parents_of(rows, spec_record_key(ms[k], flat, names))[j + 1],
        ),
{
}

/// One-to-many single assignment (child-side inlined): re-attachment keeps
/// the record count, assigns each fetched child with a nonempty link group
/// exactly the first parent of its group, and leaves a child without a group
/// unassigned. Parents without a matching fetched child get no record.
pub proof fn lemma_one2m_single_assignment(
    ms: Seq<RecordModel>,
    flat: Seq<Seq<char>>,
    names: Seq<Seq<char>>,
    joined: Seq<(PairList, PairList)>,
)
    ensures
        spec_one2m_child_inlined(ms, flat, names, joined).len() == ms.len(),
        forall|k: int|
            0 <= k < ms.len() && spec_group_of(
                joined,
                spec_child_link_key(ms[k], flat, names),
            ).len() > 0 ==> (#[trigger] spec_one2m_child_inlined(ms, flat, names, joined)[k])
                == with_parent(
                ms[k],
                spec_group_of(joined, spec_child_link_key(ms[k], flat, names))[0],
            ),
        forall|k: int|
            0 <= k < ms.len() && spec_group_of(
                joined,
                spec_child_link_key(ms[k], flat, names),
            ).len() == 0 ==> (#[trigger] spec_one2m_child_inlined(ms, flat, names, joined)[k])
                == ms[k],
{
}

} // verus!

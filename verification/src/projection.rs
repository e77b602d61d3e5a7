//! Model and record projections: compound-key identity specifications and
//! identity values extracted from fetched records.
use vstd::prelude::*;

use crate::error::DomainError;
use crate::prisma_value::{PrismaValue, ValueView};

verus! {

broadcast use Seq::lemma_map_take_succ, Seq::lemma_push_map_commute;

/// One logical field of an identity specification, mapping to one or more
/// physical (data source) columns.
#[derive(Debug)]
pub struct ProjectionField {
    pub name: String,
    pub db_names: Vec<String>,
}

/// Mathematical model of a `ProjectionField`.
pub struct ProjectionFieldView {
    pub name: Seq<char>,
    pub db_names: Seq<Seq<char>>,
}

impl View for ProjectionField {
    type V = ProjectionFieldView;

    open spec fn view(&self) -> ProjectionFieldView {
        ProjectionFieldView {
            name: self.name@,
            db_names: crate::prisma_value::string_views(self.db_names@),
        }
    }
}

/// Clones a column-name vector; the clone denotes the same name list.
pub fn clone_string_vec(v: &Vec<String>) -> (r: Vec<String>)
    ensures
        r@ == v@,
{
    let mut out: Vec<String> = Vec::new();
    let mut i: usize = 0;
    while i < v.len()
        invariant
            i <= v.len(),
            out@ == v@.take(i as int),
        decreases v.len() - i,
    {
        out.push(v[i].clone());
        proof {
            assert(out@ =~= v@.take(i + 1));
        }
        i += 1;
    }
    proof {
        assert(v@.take(v@.len() as int) =~= v@);
    }
    out
}

impl Clone for ProjectionField {
    fn clone(&self) -> (r: Self)
        ensures
            r@ == self@,
    {
        ProjectionField { name: self.name.clone(), db_names: clone_string_vec(&self.db_names) }
    }
}

/// A specification of which logical fields compose an identity (a primary
/// key, or a relation's link fields).
#[derive(Debug)]
pub struct ModelProjection {
    pub fields: Vec<ProjectionField>,
}

/// The views of a field list, in order.
pub open spec fn field_views(fields: Seq<ProjectionField>) -> Seq<ProjectionFieldView> {
    fields.map_values(|f: ProjectionField| f@)
}

impl View for ModelProjection {
    type V = Seq<ProjectionFieldView>;

    open spec fn view(&self) -> Seq<ProjectionFieldView> {
        field_views(self.fields@)
    }
}

impl Clone for ModelProjection {
    fn clone(&self) -> (r: Self)
        ensures
            r@ == self@,
    {
        let mut fields: Vec<ProjectionField> = Vec::new();
        let mut i: usize = 0;
        proof {
            assert(field_views(fields@) =~= self@.take(0));
        }
        while i < self.fields.len()
            invariant
                i <= self.fields.len(),
                field_views(fields@) == self@.take(i as int),
            decreases self.fields.len() - i,
        {
            fields.push(self.fields[i].clone());
            proof {
                assert(field_views(fields@) =~= self@.take(i + 1));
            }
            i += 1;
        }
        proof {
            assert(self@.take(self.fields@.len() as int) =~= self@);
        }
        ModelProjection { fields }
    }
}

/// The physical column names of `fields`, flattened in order.
pub open spec fn flat_db_names(fields: Seq<ProjectionFieldView>) -> Seq<Seq<char>>
    decreases fields.len(),
{
    if fields.len() == 0 {
        Seq::empty()
    } else {
        flat_db_names(fields.drop_last()) + fields.last().db_names
    }
}

/// How many physical columns an identity specification covers.
pub open spec fn spec_db_len(fields: Seq<ProjectionFieldView>) -> nat {
    flat_db_names(fields).len()
}

pub proof fn lemma_flat_db_names_take_succ(fields: Seq<ProjectionFieldView>, i: int)
    requires
        0 <= i < fields.len(),
    ensures
        flat_db_names(fields.take(i + 1)) == flat_db_names(fields.take(i)) + fields[i].db_names,
{
    let t = fields.take(i + 1);
    assert(t.drop_last() =~= fields.take(i));
    assert(t.last() == fields[i]);
}

pub proof fn lemma_flat_db_names_take_le(fields: Seq<ProjectionFieldView>, i: int)
    requires
        0 <= i <= fields.len(),
    ensures
        flat_db_names(fields.take(i)).len() <= flat_db_names(fields).len(),
    decreases fields.len() - i,
{
    if i == fields.len() {
        assert(fields.take(i) =~= fields);
    } else {
        lemma_flat_db_names_take_succ(fields, i);
        lemma_flat_db_names_take_le(fields, i + 1);
    }
}

/// An identity specification is well formed when its physical column names
/// are pairwise distinct: a projection extracted under it then holds each
/// column once, the invariant identity values rely on.
pub open spec fn model_projection_well_formed(fields: Seq<ProjectionFieldView>) -> bool {
    forall|i: int, j: int| 0 <= i < j < flat_db_names(fields).len()
        ==> flat_db_names(fields)[i] != flat_db_names(fields)[j]
}

impl ModelProjection {
    /// The identity specification's physical column names are pairwise
    /// distinct.
    pub open spec fn wf(self) -> bool {
        model_projection_well_formed(self@)
    }
}

/// Under a well-formed identity specification, an extracted identity value
/// carries each column name exactly once: its names are the specification's
/// columns in order, so their distinctness carries over.
pub proof fn lemma_extracted_names_unique(
    fields: Seq<ProjectionFieldView>,
    names: Seq<Seq<char>>,
    values: Seq<ValueView>,
)
    requires
        model_projection_well_formed(fields),
    ensures
        pair_names(extracted_pairs(flat_db_names(fields), names, values)) == flat_db_names(fields),
        forall|i: int, j: int|
            0 <= i < j < extracted_pairs(flat_db_names(fields), names, values).len()
                ==> (#[trigger] extracted_pairs(flat_db_names(fields), names, values)[i]).0 != (
            #[trigger] extracted_pairs(flat_db_names(fields), names, values)[j]).0,
{
    assert(pair_names(extracted_pairs(flat_db_names(fields), names, values)) =~= flat_db_names(
        fields,
    ));
}

impl ModelProjection {
    /// The logical fields composing the identity.
    pub fn fields(&self) -> (r: &Vec<ProjectionField>)
        ensures
            r == &self.fields,
    {
        &self.fields
    }

    /// Count of physical columns. A projection with a single physical column
    /// enables the single-column IN-filter optimization.
    pub fn db_len(&self) -> (r: usize)
        requires
            spec_db_len(self@) <= usize::MAX,
        ensures
            r == spec_db_len(self@),
    {
        let mut total: usize = 0;
        let mut i: usize = 0;
        proof {
            assert(self@.take(0) =~= Seq::<ProjectionFieldView>::empty());
        }
        while i < self.fields.len()
            invariant
                i <= self.fields.len(),
                spec_db_len(self@) <= usize::MAX,
                self@.len() == self.fields@.len(),
                total == spec_db_len(self@.take(i as int)),
            decreases self.fields.len() - i,
        {
            proof {
                lemma_flat_db_names_take_succ(self@, i as int);
                lemma_flat_db_names_take_le(self@, i as int + 1);
                assert(self@[i as int].db_names.len() == self.fields@[i as int].db_names@.len());
            }
            total = total + self.fields[i].db_names.len();
            i += 1;
        }
        proof {
            assert(self@.take(self.fields@.len() as int) =~= self@);
        }
        total
    }

    /// The flattened physical column names, in order.
    pub fn db_names(&self) -> (r: Vec<String>)
        ensures
            crate::prisma_value::string_views(r@) == flat_db_names(self@),
    {
        let mut out: Vec<String> = Vec::new();
        let mut i: usize = 0;
        proof {
            assert(self@.take(0) =~= Seq::<ProjectionFieldView>::empty());
            assert(crate::prisma_value::string_views(out@) =~= flat_db_names(self@.take(0)));
        }
        while i < self.fields.len()
            invariant
                i <= self.fields.len(),
                self@.len() == self.fields@.len(),
                crate::prisma_value::string_views(out@) == flat_db_names(self@.take(i as int)),
            decreases self.fields.len() - i,
        {
            let field = &self.fields[i];
            let mut j: usize = 0;
            while j < field.db_names.len()
                invariant
                    j <= field.db_names.len(),
                    field == &self.fields@[i as int],
                    0 <= i < self.fields@.len(),
                    self@.len() == self.fields@.len(),
                    crate::prisma_value::string_views(out@) == flat_db_names(
                        self@.take(i as int),
                    ) + self@[i as int].db_names.take(j as int),
                decreases field.db_names.len() - j,
            {
                out.push(field.db_names[j].clone());
                proof {
                    assert(self@[i as int].db_names[j as int] == field.db_names@[j as int]@);
                    assert(self@[i as int].db_names.take(j + 1) =~= self@[i as int].db_names.take(
                        j as int,
                    ).push(self@[i as int].db_names[j as int]));
                    assert(crate::prisma_value::string_views(out@) =~= flat_db_names(
                        self@.take(i as int),
                    ) + self@[i as int].db_names.take(j + 1));
                }
                j += 1;
            }
            proof {
                assert(self@[i as int].db_names.take(field.db_names@.len() as int) =~= self@[
                    i as int
                ].db_names);
                lemma_flat_db_names_take_succ(self@, i as int);
            }
            i += 1;
        }
        proof {
            assert(self@.take(self.fields@.len() as int) =~= self@);
        }
        out
    }

    /// Concatenates two identity specifications; used to extract a parent's
    /// primary identity and link identity in one pass.
    pub fn merge(self, other: ModelProjection) -> (r: ModelProjection)
        ensures
            r@ == self@ + other@,
    {
        let mut fields = self.fields;
        let mut other_fields = other.fields;
        fields.append(&mut other_fields);
        let r = ModelProjection { fields };
        proof {
            assert(r@ =~= self@ + other@);
        }
        r
    }
}

/// An identity value: an ordered list of (physical column, value) pairs.
/// Equality is pair-set based, order-independent.
#[derive(Debug)]
pub struct RecordProjection {
    pub pairs: Vec<(String, PrismaValue)>,
}

/// The views of a pair list, in order.
pub open spec fn pair_views(pairs: Seq<(String, PrismaValue)>) -> Seq<(Seq<char>, ValueView)> {
    pairs.map_values(|p: (String, PrismaValue)| (p.0@, p.1@))
}

/// The column names of a pair list, in order.
pub open spec fn pair_names(pairs: Seq<(Seq<char>, ValueView)>) -> Seq<Seq<char>> {
    pairs.map_values(|p: (Seq<char>, ValueView)| p.0)
}

/// The values of a pair list, in order.
pub open spec fn pair_values(pairs: Seq<(Seq<char>, ValueView)>) -> Seq<ValueView> {
    pairs.map_values(|p: (Seq<char>, ValueView)| p.1)
}

impl View for RecordProjection {
    type V = Seq<(Seq<char>, ValueView)>;

    open spec fn view(&self) -> Seq<(Seq<char>, ValueView)> {
        pair_views(self.pairs@)
    }
}

impl Clone for RecordProjection {
    fn clone(&self) -> (r: Self)
        ensures
            r@ == self@,
    {
        let mut pairs: Vec<(String, PrismaValue)> = Vec::new();
        let mut i: usize = 0;
        while i < self.pairs.len()
            invariant
                i <= self.pairs.len(),
                pairs@ == self.pairs@.take(i as int),
            decreases self.pairs.len() - i,
        {
            let p = &self.pairs[i];
            pairs.push((p.0.clone(), p.1.clone()));
            proof {
                assert(pairs@ =~= self.pairs@.take(i + 1));
            }
            i += 1;
        }
        proof {
            assert(self.pairs@.take(self.pairs@.len() as int) =~= self.pairs@);
        }
        RecordProjection { pairs }
    }
}

impl RecordProjection {
    /// Wraps the given pairs as an identity value.
    pub fn new(pairs: Vec<(String, PrismaValue)>) -> (r: Self)
        ensures
            r.pairs == pairs,
    {
        RecordProjection { pairs }
    }

    /// The pair set an identity value denotes: projection equality is decided
    /// on this set, so pair order does not matter.
    pub open spec fn pair_set(self) -> Set<(Seq<char>, ValueView)> {
        self@.to_set()
    }

    /// The column names, in pair order.
    pub open spec fn spec_names(self) -> Seq<Seq<char>> {
        pair_names(self@)
    }

    /// The values, in pair order.
    pub open spec fn spec_values(self) -> Seq<ValueView> {
        pair_values(self@)
    }

    /// The values, in pair order.
    pub fn values(&self) -> (r: Vec<PrismaValue>)
        ensures
            crate::prisma_value::value_views(r@) == self.spec_values(),
    {
        let mut out: Vec<PrismaValue> = Vec::new();
        let mut i: usize = 0;
        while i < self.pairs.len()
            invariant
                i <= self.pairs.len(),
                crate::prisma_value::value_views(out@) == pair_values(self@.take(i as int)),
            decreases self.pairs.len() - i,
        {
            out.push(self.pairs[i].1.clone());
            proof {
                assert(self@.take(i + 1) =~= self@.take(i as int).push(self@[i as int]));
                assert(crate::prisma_value::value_views(out@) =~= pair_values(self@.take(i + 1)));
            }
            i += 1;
        }
        proof {
            assert(self@.take(self.pairs@.len() as int) =~= self@);
        }
        out
    }

    /// The column names, in pair order.
    pub fn fields(&self) -> (r: Vec<String>)
        ensures
            crate::prisma_value::string_views(r@) == self.spec_names(),
    {
        let mut out: Vec<String> = Vec::new();
        let mut i: usize = 0;
        while i < self.pairs.len()
            invariant
                i <= self.pairs.len(),
                crate::prisma_value::string_views(out@) == pair_names(self@.take(i as int)),
            decreases self.pairs.len() - i,
        {
            out.push(self.pairs[i].0.clone());
            proof {
                assert(self@.take(i + 1) =~= self@.take(i as int).push(self@[i as int]));
                assert(crate::prisma_value::string_views(out@) =~= pair_names(self@.take(i + 1)));
            }
            i += 1;
        }
        proof {
            assert(self@.take(self.pairs@.len() as int) =~= self@);
        }
        out
    }

    /// Whether the pair set contains the given (column, value) pair.
    pub fn contains_pair(&self, name: &String, value: &PrismaValue) -> (r: bool)
        ensures
            r == self.pair_set().contains((name@, value@)),
    {
        let mut i: usize = 0;
        while i < self.pairs.len()
            invariant
                i <= self.pairs.len(),
                forall|j: int| 0 <= j < i ==> self@[j] != (name@, value@),
            decreases self.pairs.len() - i,
        {
            let p = &self.pairs[i];
            if p.0 == *name && p.1.value_eq(value) {
                assert(self@[i as int] == (name@, value@));
                return true;
            }
            i += 1;
        }
        assert(!self@.contains((name@, value@)));
        false
    }

    /// Pair-set equality: two projections are equal exactly when they hold
    /// the same (column, value) pairs, in whatever order.
    pub fn equals(&self, other: &RecordProjection) -> (r: bool)
        ensures
            r == (self.pair_set() == other.pair_set()),
    {
        let mut i: usize = 0;
        while i < self.pairs.len()
            invariant
                i <= self.pairs.len(),
                forall|j: int| 0 <= j < i ==> other.pair_set().contains(#[trigger] self@[j]),
            decreases self.pairs.len() - i,
        {
            let p = &self.pairs[i];
            if !other.contains_pair(&p.0, &p.1) {
                assert(self.pair_set().contains(self@[i as int]));
                assert(!other.pair_set().contains(self@[i as int]));
                return false;
            }
            assert(self@[i as int] == (p.0@, p.1@));
            i += 1;
        }
        let mut k: usize = 0;
        while k < other.pairs.len()
            invariant
                k <= other.pairs.len(),
                forall|j: int| 0 <= j < self@.len() ==> other.pair_set().contains(
                    #[trigger] self@[j],
                ),
                forall|j: int| 0 <= j < k ==> self.pair_set().contains(#[trigger] other@[j]),
            decreases other.pairs.len() - k,
        {
            let p = &other.pairs[k];
            if !self.contains_pair(&p.0, &p.1) {
                assert(other.pair_set().contains(other@[k as int]));
                assert(!self.pair_set().contains(other@[k as int]));
                return false;
            }
            assert(other@[k as int] == (p.0@, p.1@));
            k += 1;
        }
        proof {
            assert forall|p: (Seq<char>, ValueView)| self.pair_set().contains(p)
                <==> other.pair_set().contains(p) by {
                if self.pair_set().contains(p) {
                    let j = choose|j: int| 0 <= j < self@.len() && self@[j] == p;
                    assert(other.pair_set().contains(self@[j]));
                }
                if other.pair_set().contains(p) {
                    let j = choose|j: int| 0 <= j < other@.len() && other@[j] == p;
                    assert(self.pair_set().contains(other@[j]));
                }
            }
            assert(self.pair_set() =~= other.pair_set());
        }
        true
    }
}

/// Whether some entry of `names` is `name`.
pub open spec fn names_contain(names: Seq<Seq<char>>, name: Seq<char>) -> bool {
    exists|j: int| 0 <= j < names.len() && names[j] == name
}

/// The first index of `name` in `names`; meaningful only when present.
pub open spec fn name_index(names: Seq<Seq<char>>, name: Seq<char>) -> int
    decreases names.len(),
{
    if names.len() == 0 {
        0
    } else if names[0] == name {
        0
    } else {
        1 + name_index(names.skip(1), name)
    }
}

pub proof fn lemma_name_index(names: Seq<Seq<char>>, name: Seq<char>)
    requires
        names_contain(names, name),
    ensures
        0 <= name_index(names, name) < names.len(),
        names[name_index(names, name)] == name,
        forall|j: int| 0 <= j < name_index(names, name) ==> names[j] != name,
    decreases names.len(),
{
    if names.len() > 0 && names[0] != name {
        let j = choose|j: int| 0 <= j < names.len() && names[j] == name;
        assert(names.skip(1)[j - 1] == name);
        lemma_name_index(names.skip(1), name);
        assert forall|k: int| 0 <= k < name_index(names, name) implies names[k] != name by {
            if k > 0 {
                assert(names.skip(1)[k - 1] != name);
            }
        }
    }
}

pub proof fn lemma_name_index_of_first(names: Seq<Seq<char>>, name: Seq<char>, i: int)
    requires
        0 <= i < names.len(),
        names[i] == name,
        forall|j: int| 0 <= j < i ==> names[j] != name,
    ensures
        names_contain(names, name),
        name_index(names, name) == i,
    decreases i,
{
    if i > 0 {
        assert forall|j: int| 0 <= j < i - 1 implies names.skip(1)[j] != name by {
            assert(names.skip(1)[j] == names[j + 1]);
        }
        assert(names.skip(1)[i - 1] == name);
        lemma_name_index_of_first(names.skip(1), name, i - 1);
    }
}

/// Finds the first position of `field` in a record's field-name list.
pub fn find_name_index(field_names: &Vec<String>, field: &String) -> (r: Option<usize>)
    ensures
        match r {
            Some(i) => names_contain(crate::prisma_value::string_views(field_names@), field@) && i
                == name_index(crate::prisma_value::string_views(field_names@), field@),
            None => !names_contain(crate::prisma_value::string_views(field_names@), field@),
        },
{
    let ghost names = crate::prisma_value::string_views(field_names@);
    let mut i: usize = 0;
    while i < field_names.len()
        invariant
            i <= field_names.len(),
            names == crate::prisma_value::string_views(field_names@),
            forall|j: int| 0 <= j < i ==> names[j] != field@,
        decreases field_names.len() - i,
    {
        if field_names[i] == *field {
            proof {
                lemma_name_index_of_first(names, field@, i as int);
            }
            return Some(i);
        }
        i += 1;
    }
    None
}

/// Whether every name of `db_names` occurs in `names`.
pub open spec fn all_names_present(db_names: Seq<Seq<char>>, names: Seq<Seq<char>>) -> bool {
    forall|k: int| 0 <= k < db_names.len() ==> names_contain(names, db_names[k])
}

/// The first position in `db_names` whose name is absent from `names`;
/// meaningful only when one is absent.
pub open spec fn first_missing(db_names: Seq<Seq<char>>, names: Seq<Seq<char>>) -> int
    decreases db_names.len(),
{
    if db_names.len() == 0 {
        0
    } else if !names_contain(names, db_names[0]) {
        0
    } else {
        1 + first_missing(db_names.skip(1), names)
    }
}

pub proof fn lemma_first_missing_of(db_names: Seq<Seq<char>>, names: Seq<Seq<char>>, p: int)
    requires
        0 <= p < db_names.len(),
        !names_contain(names, db_names[p]),
        forall|k: int| 0 <= k < p ==> names_contain(names, db_names[k]),
    ensures
        !all_names_present(db_names, names),
        first_missing(db_names, names) == p,
    decreases p,
{
    if p > 0 {
        assert forall|k: int| 0 <= k < p - 1 implies names_contain(names, db_names.skip(1)[k]) by {
            assert(db_names.skip(1)[k] == db_names[k + 1]);
        }
        assert(db_names.skip(1)[p - 1] == db_names[p]);
        lemma_first_missing_of(db_names.skip(1), names, p - 1);
    }
}

/// The pairs extracted for `db_names` from a record whose field-name list is
/// `names` and whose value row is `values`: each column name is paired with
/// the value at its first occurrence in the field-name list.
pub open spec fn extracted_pairs(
    db_names: Seq<Seq<char>>,
    names: Seq<Seq<char>>,
    values: Seq<ValueView>,
) -> Seq<(Seq<char>, ValueView)> {
    db_names.map_values(|n: Seq<char>| (n, values[name_index(names, n)]))
}

/// Projection equality is pair-set based: two identity values built from the
/// same pairs in different orders are equal.
pub proof fn lemma_projection_equality_order_independent(a: RecordProjection, b: RecordProjection)
    requires
        a@.to_multiset() == b@.to_multiset(),
    ensures
        a.pair_set() == b.pair_set(),
{
    broadcast use vstd::seq_lib::group_to_multiset_ensures;

    assert forall|p: (Seq<char>, ValueView)| a@.contains(p) <==> b@.contains(p) by {
        assert(a@.contains(p) <==> a@.to_multiset().count(p) > 0);
        assert(b@.contains(p) <==> b@.to_multiset().count(p) > 0);
    }
    assert(a.pair_set() =~= b.pair_set());
}

} // verus!

//! Scalar values carried by records, projections and filters.
use vstd::prelude::*;

verus! {

/// A scalar database value. Identity values (keys, link values) and filter
/// operands are drawn from this type.
#[derive(Debug)]
pub enum PrismaValue {
    String(String),
    Boolean(bool),
    Int(i64),
    Enum(String),
    Null,
}

/// Mathematical model of a `PrismaValue`: strings become character sequences,
/// machine integers become unbounded integers.
pub enum ValueView {
    String(Seq<char>),
    Boolean(bool),
    Int(int),
    Enum(Seq<char>),
    Null,
}

impl View for PrismaValue {
    type V = ValueView;

    open spec fn view(&self) -> ValueView {
        match self {
            PrismaValue::String(s) => ValueView::String(s@),
            PrismaValue::Boolean(b) => ValueView::Boolean(*b),
            PrismaValue::Int(i) => ValueView::Int(*i as int),
            PrismaValue::Enum(s) => ValueView::Enum(s@),
            PrismaValue::Null => ValueView::Null,
        }
    }
}

impl Clone for PrismaValue {
    fn clone(&self) -> (r: Self)
        ensures
            r == *self,
    {
        match self {
            PrismaValue::String(s) => PrismaValue::String(s.clone()),
            PrismaValue::Boolean(b) => PrismaValue::Boolean(*b),
            PrismaValue::Int(i) => PrismaValue::Int(*i),
            PrismaValue::Enum(s) => PrismaValue::Enum(s.clone()),
            PrismaValue::Null => PrismaValue::Null,
        }
    }
}

impl PrismaValue {
    /// Value equality, decided on the mathematical views.
    pub fn value_eq(&self, other: &PrismaValue) -> (r: bool)
        ensures
            r == (self@ == other@),
    {
        match (self, other) {
            (PrismaValue::String(a), PrismaValue::String(b)) => *a == *b,
            (PrismaValue::Boolean(a), PrismaValue::Boolean(b)) => *a == *b,
            (PrismaValue::Int(a), PrismaValue::Int(b)) => *a == *b,
            (PrismaValue::Enum(a), PrismaValue::Enum(b)) => *a == *b,
            (PrismaValue::Null, PrismaValue::Null) => true,
            _ => false,
        }
    }
}

/// The views of a vector of values, in order.
pub open spec fn value_views(values: Seq<PrismaValue>) -> Seq<ValueView> {
    values.map_values(|v: PrismaValue| v@)
}

/// The views of a vector of names, in order.
pub open spec fn string_views(names: Seq<String>) -> Seq<Seq<char>> {
    names.map_values(|n: String| n@)
}

/// Clones a value vector; the clone denotes the same value row.
pub fn clone_value_vec(v: &Vec<PrismaValue>) -> (r: Vec<PrismaValue>)
    ensures
        r@ == v@,
{
    let mut out: Vec<PrismaValue> = Vec::new();
    let mut i: usize = 0;
    while i < v.len()
        invariant
            i <= v.len(),
            out@ == v@.take(i as int),
        decreases v.len() - i,
    {
        out.push(v[i].clone());
        proof {
            assert(out@ =~= v@.take(i + 1));
        }
        i += 1;
    }
    proof {
        assert(v@.take(v@.len() as int) =~= v@);
    }
    out
}

/// Equality of value rows (tuples of scalar values), on the views.
pub open spec fn rows_eq(a: Seq<ValueView>, b: Seq<ValueView>) -> bool {
    a == b
}

/// Row equality for executable value vectors.
pub fn row_eq(a: &Vec<PrismaValue>, b: &Vec<PrismaValue>) -> (r: bool)
    ensures
        r == (a@.map_values(|v: PrismaValue| v@) == b@.map_values(|v: PrismaValue| v@)),
{
    if a.len() != b.len() {
        assert(a@.map_values(|v: PrismaValue| v@).len() == a@.len());
        assert(b@.map_values(|v: PrismaValue| v@).len() == b@.len());
        return false;
    }
    let mut i: usize = 0;
    while i < a.len()
        invariant
            i <= a.len(),
            a.len() == b.len(),
            forall|j: int| 0 <= j < i ==> a@[j]@ == b@[j]@,
        decreases a.len() - i,
    {
        if !a[i].value_eq(&b[i]) {
            assert(a@.map_values(|v: PrismaValue| v@)[i as int] != b@.map_values(
                |v: PrismaValue| v@,
            )[i as int]);
            return false;
        }
        i += 1;
    }
    assert(a@.map_values(|v: PrismaValue| v@) =~= b@.map_values(|v: PrismaValue| v@));
    true
}

} // verus!

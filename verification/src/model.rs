//! Read-only model metadata the core consumes: a model's name, its fields and
//! its primary identity specification.
use vstd::prelude::*;

use crate::projection::{
    lemma_name_index_of_first, name_index, names_contain, ModelProjection, ProjectionField,
    ProjectionFieldView,
};

verus! {

/// The logical names of a field list, in order.
pub open spec fn spec_field_names(fields: Seq<ProjectionFieldView>) -> Seq<Seq<char>> {
    fields.map_values(|f: ProjectionFieldView| f.name)
}

/// The names of a compound-unique list, in order.
pub open spec fn spec_compound_names(cs: Seq<CompoundIndex>) -> Seq<Seq<char>> {
    cs.map_values(|c: CompoundIndex| c.name@)
}

/// One compound (multi-field) unique of a model, addressable by name.
#[derive(Debug)]
pub struct CompoundIndex {
    pub name: String,
    pub fields: Vec<ProjectionField>,
}

/// Mathematical model of a `CompoundIndex`.
pub struct CompoundIndexView {
    pub name: Seq<char>,
    pub fields: Seq<ProjectionFieldView>,
}

impl View for CompoundIndex {
    type V = CompoundIndexView;

    open spec fn view(&self) -> CompoundIndexView {
        CompoundIndexView {
            name: self.name@,
            fields: self.fields@.map_values(|f: ProjectionField| f@),
        }
    }
}

/// A model: its table name, its fields, its primary identity, and its
/// compound uniques. Derived once from the schema; read-only thereafter.
#[derive(Debug)]
pub struct Model {
    pub name: String,
    pub fields: Vec<ProjectionField>,
    pub primary_identifier: ModelProjection,
    pub compound_indexes: Vec<CompoundIndex>,
}

impl Model {
    /// The identity specification records of this model are identified by.
    pub fn primary_identifier(&self) -> (r: ModelProjection)
        ensures
            r@ == self.primary_identifier@,
    {
        self.primary_identifier.clone()
    }

    /// The first field with the given logical name, if any.
    pub fn find_field(&self, name: &String) -> (r: Option<&ProjectionField>)
        ensures
            match r {
                Some(f) => names_contain(
                    spec_field_names(crate::projection::field_views(self.fields@)),
                    name@,
                ) && f == &self.fields@[name_index(
                    spec_field_names(crate::projection::field_views(self.fields@)),
                    name@,
                )],
                None => !names_contain(
                    spec_field_names(crate::projection::field_views(self.fields@)),
                    name@,
                ),
            },
    {
        let ghost names = spec_field_names(crate::projection::field_views(self.fields@));
        let mut i: usize = 0;
        while i < self.fields.len()
            invariant
                i <= self.fields.len(),
                names == spec_field_names(crate::projection::field_views(self.fields@)),
                forall|j: int| 0 <= j < i ==> names[j] != name@,
            decreases self.fields.len() - i,
        {
            proof {
                assert(names[i as int] == self.fields@[i as int]@.name);
            }
            if self.fields[i].name == *name {
                proof {
                    lemma_name_index_of_first(names, name@, i as int);
                }
                return Some(&self.fields[i]);
            }
            i += 1;
        }
        proof {
            assert(forall|j: int| 0 <= j < names.len() ==> names[j] != name@);
        }
        None
    }

    /// The first compound unique with the given name, if any.
    pub fn find_compound(&self, name: &String) -> (r: Option<&CompoundIndex>)
        ensures
            match r {
                Some(c) => names_contain(spec_compound_names(self.compound_indexes@), name@) && c
                    == &self.compound_indexes@[name_index(
                    spec_compound_names(self.compound_indexes@),
                    name@,
                )],
                None => !names_contain(spec_compound_names(self.compound_indexes@), name@),
            },
    {
        let ghost names = spec_compound_names(self.compound_indexes@);
        let mut i: usize = 0;
        while i < self.compound_indexes.len()
            invariant
                i <= self.compound_indexes.len(),
                names == spec_compound_names(self.compound_indexes@),
                forall|j: int| 0 <= j < i ==> names[j] != name@,
            decreases self.compound_indexes.len() - i,
        {
            proof {
                assert(names[i as int] == self.compound_indexes@[i as int].name@);
            }
            if self.compound_indexes[i].name == *name {
                proof {
                    lemma_name_index_of_first(names, name@, i as int);
                }
                return Some(&self.compound_indexes[i]);
            }
            i += 1;
        }
        None
    }
}

} // verus!

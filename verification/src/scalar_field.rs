//! Scalar field metadata: identity, timestamp and uniqueness classification.
//! A field refers to its owning model by a stable index into the data model's
//! model arena; resolution is a checked lookup, never an assumed-valid
//! back-pointer.
use vstd::prelude::*;

use crate::model::Model;

verus! {

/// Special field behaviour declared in the schema.
#[derive(Debug, Clone, PartialEq, Eq, Structural)]
pub enum FieldBehaviour {
    CreatedAt,
    UpdatedAt,
    ScalarList { strategy: ScalarListStrategy },
}

/// How a scalar list is stored.
#[derive(Debug, Clone, Copy, Eq, PartialEq, Structural)]
pub enum ScalarListStrategy {
    Embedded,
    Relation,
}

/// The schema-level description a scalar field is built from.
#[derive(Debug)]
pub struct ScalarFieldTemplate {
    pub name: String,
    pub is_required: bool,
    pub is_list: bool,
    pub is_unique: bool,
    pub is_id: bool,
    pub is_auto_generated_int_id: bool,
    pub behaviour: Option<FieldBehaviour>,
    pub db_name: String,
}

/// A model's scalar field.
#[derive(Debug)]
pub struct ScalarField {
    pub name: String,
    pub is_required: bool,
    pub is_list: bool,
    pub is_id: bool,
    pub is_auto_generated_int_id: bool,
    pub behaviour: Option<FieldBehaviour>,
    pub is_unique: bool,
    pub db_name: String,
    /// Index of the owning model in the data model's arena.
    pub model_index: usize,
}

/// The model arena fields resolve their owner through, plus whether the data
/// model uses the legacy naming conventions for identity and timestamps.
#[derive(Debug)]
pub struct InternalDataModel {
    pub models: Vec<Model>,
    pub is_legacy: bool,
}

impl ScalarFieldTemplate {
    /// Builds the field, wired to its owning model's arena slot.
    pub fn build(self, model_index: usize) -> (r: ScalarField)
        ensures
            r.name == self.name,
            r.is_required == self.is_required,
            r.is_list == self.is_list,
            r.is_id == self.is_id,
            r.is_auto_generated_int_id == self.is_auto_generated_int_id,
            r.behaviour == self.behaviour,
            r.is_unique == self.is_unique,
            r.db_name == self.db_name,
            r.model_index == model_index,
    {
        ScalarField {
            name: self.name,
            is_required: self.is_required,
            is_list: self.is_list,
            is_id: self.is_id,
            is_auto_generated_int_id: self.is_auto_generated_int_id,
            behaviour: self.behaviour,
            is_unique: self.is_unique,
            db_name: self.db_name,
            model_index,
        }
    }
}

impl ScalarField {
    /// The owning model: a checked arena lookup, with an explicit failure
    /// where a raw back-pointer would have been assumed valid.
    pub fn model<'a>(&self, data_model: &'a InternalDataModel) -> (r: Option<&'a Model>)
        ensures
            self.model_index < data_model.models@.len() <==> r is Some,
            r matches Some(m) ==> m == &data_model.models@[self.model_index as int],
    {
        if self.model_index < data_model.models.len() {
            Some(&data_model.models[self.model_index])
        } else {
            None
        }
    }

    /// A field is an identity field if the schema marks it so; under the
    /// legacy conventions, if its name is the identity name.
    pub fn is_id(&self, data_model: &InternalDataModel) -> (r: bool)
        ensures
            data_model.is_legacy ==> r == (self.name@ == "id"@ || self.name@ == "_id"@),
            !data_model.is_legacy ==> r == self.is_id,
    {
        if data_model.is_legacy {
            self.name == "id".to_owned() || self.name == "_id".to_owned()
        } else {
            self.is_id
        }
    }

    /// Whether the field carries the creation timestamp.
    pub fn is_created_at(&self, data_model: &InternalDataModel) -> (r: bool)
        ensures
            data_model.is_legacy ==> r == (self.name@ == "createdAt"@),
            !data_model.is_legacy ==> r == (self.behaviour == Some(FieldBehaviour::CreatedAt)),
    {
        if data_model.is_legacy {
            self.name == "createdAt".to_owned()
        } else {
            match self.behaviour {
                Some(FieldBehaviour::CreatedAt) => true,
                _ => false,
            }
        }
    }

    /// Whether the field carries the update timestamp.
    pub fn is_updated_at(&self, data_model: &InternalDataModel) -> (r: bool)
        ensures
            data_model.is_legacy ==> r == (self.name@ == "updatedAt"@),
            !data_model.is_legacy ==> r == (self.behaviour == Some(FieldBehaviour::UpdatedAt)),
    {
        if data_model.is_legacy {
            self.name == "updatedAt".to_owned()
        } else {
            match self.behaviour {
                Some(FieldBehaviour::UpdatedAt) => true,
                _ => false,
            }
        }
    }

    /// A field is unique if marked unique or if it is an identity field.
    pub fn unique(&self, data_model: &InternalDataModel) -> (r: bool)
        ensures
            data_model.is_legacy ==> r == (self.is_unique || self.name@ == "id"@ || self.name@
                == "_id"@),
            !data_model.is_legacy ==> r == (self.is_unique || self.is_id),
    {
        self.is_unique || self.is_id(data_model)
    }

    /// The physical column name.
    pub fn db_name(&self) -> (r: &String)
        ensures
            r == &self.db_name,
    {
        &self.db_name
    }
}

} // verus!

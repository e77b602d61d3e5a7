//! Fetched records and the projection extraction that turns them into
//! identity values.
use vstd::prelude::*;

use crate::error::DomainError;
use crate::prisma_value::{clone_value_vec, string_views, value_views, PrismaValue, ValueView};
use crate::projection::{
    all_names_present, extracted_pairs, find_name_index, first_missing, flat_db_names,
    lemma_first_missing_of, lemma_flat_db_names_take_succ, lemma_name_index, name_index,
    names_contain, ModelProjection, RecordProjection,
};

verus! {

broadcast use Seq::lemma_map_take_succ, Seq::lemma_push_map_commute;

/// One fetched row: a value per selected column, plus the identity of the
/// parent it was re-attached to during nested-relation resolution. The
/// selected column names live on the owning collection.
#[derive(Debug)]
pub struct Record {
    pub values: Vec<PrismaValue>,
    pub parent_id: Option<RecordProjection>,
}

/// Mathematical model of a `Record`.
pub struct RecordModel {
    pub values: Seq<ValueView>,
    pub parent_id: Option<Seq<(Seq<char>, ValueView)>>,
}

impl View for Record {
    type V = RecordModel;

    open spec fn view(&self) -> RecordModel {
        RecordModel {
            values: value_views(self.values@),
            parent_id: match self.parent_id {
                Some(p) => Some(p@),
                None => None,
            },
        }
    }
}

impl Clone for Record {
    fn clone(&self) -> (r: Self)
        ensures
            r@ == self@,
    {
        let parent_id = match &self.parent_id {
            Some(p) => Some(p.clone()),
            None => None,
        };
        let r = Record { values: clone_value_vec(&self.values), parent_id };
        proof {
            assert(r@.values =~= self@.values);
        }
        r
    }
}

/// The decomposition `flat_db_names(fields) ==
/// flat_db_names(prefix) + fields[i].db_names + flat_db_names(rest)`.
pub proof fn lemma_flat_db_names_split(
    fields: Seq<crate::projection::ProjectionFieldView>,
    i: int,
)
    requires
        0 <= i < fields.len(),
    ensures
        flat_db_names(fields) == flat_db_names(fields.take(i)) + fields[i].db_names
            + flat_db_names(fields.skip(i + 1)),
    decreases fields.len(),
{
    if i + 1 == fields.len() {
        assert(fields.skip(i + 1) =~= Seq::<crate::projection::ProjectionFieldView>::empty());
        lemma_flat_db_names_take_succ(fields, i);
        assert(fields.take(i + 1) =~= fields);
        assert(flat_db_names(fields) =~= flat_db_names(fields.take(i)) + fields[i].db_names
            + flat_db_names(fields.skip(i + 1)));
    } else {
        let d = fields.drop_last();
        lemma_flat_db_names_split(d, i);
        assert(d.take(i) =~= fields.take(i));
        assert(d[i] == fields[i]);
        assert(d.skip(i + 1) =~= fields.skip(i + 1).drop_last());
        assert(fields.skip(i + 1).last() == fields.last());
        assert(flat_db_names(fields.skip(i + 1)) == flat_db_names(fields.skip(i + 1).drop_last())
            + fields.skip(i + 1).last().db_names);
        assert(flat_db_names(fields) =~= flat_db_names(fields.take(i)) + fields[i].db_names
            + flat_db_names(fields.skip(i + 1)));
    }
}

impl Record {
    /// A fresh record with no parent assigned yet.
    pub fn new(values: Vec<PrismaValue>) -> (r: Record)
        ensures
            r.values == values,
            r.parent_id is None,
    {
        Record { values, parent_id: None }
    }

    /// Extracts the identity value described by `model_projection`: for every
    /// logical field, each physical column is looked up by name in
    /// `field_names` and paired with this record's value at that position.
    ///
    /// Fails with a field-not-found error exactly when some referenced
    /// physical column is absent from `field_names` — a selection mismatch in
    /// upstream logic, not a user error.
    pub fn projection(
        &self,
        field_names: &Vec<String>,
        model_projection: &ModelProjection,
    ) -> (r: Result<RecordProjection, DomainError>)
        requires
            field_names@.len() == self.values@.len(),
        ensures
            r is Ok <==> all_names_present(
                flat_db_names(model_projection@),
                string_views(field_names@),
            ),
            r matches Ok(p) ==> p@ == extracted_pairs(
                flat_db_names(model_projection@),
                string_views(field_names@),
                value_views(self.values@),
            ),
            r matches Err(e) ==> (e matches DomainError::FieldNotFound { name, model } && name@
                == flat_db_names(model_projection@)[first_missing(
                flat_db_names(model_projection@),
                string_views(field_names@),
            )]),
    {
        let ghost flat = flat_db_names(model_projection@);
        let ghost names = string_views(field_names@);
        let ghost vals = value_views(self.values@);
        let mut pairs: Vec<(String, PrismaValue)> = Vec::new();
        let mut i: usize = 0;
        proof {
            assert(model_projection@.take(0) =~= Seq::<
                crate::projection::ProjectionFieldView,
            >::empty());
            assert(pairs@.map_values(|p: (String, PrismaValue)| (p.0@, p.1@)) =~= extracted_pairs(
                flat_db_names(model_projection@.take(0)),
                names,
                vals,
            ));
        }
        while i < model_projection.fields.len()
            invariant
                i <= model_projection.fields.len(),
                field_names@.len() == self.values@.len(),
                flat == flat_db_names(model_projection@),
                names == string_views(field_names@),
                vals == value_views(self.values@),
                model_projection@.len() == model_projection.fields@.len(),
                pairs@.map_values(|p: (String, PrismaValue)| (p.0@, p.1@)) == extracted_pairs(
                    flat_db_names(model_projection@.take(i as int)),
                    names,
                    vals,
                ),
                all_names_present(flat_db_names(model_projection@.take(i as int)), names),
            decreases model_projection.fields.len() - i,
        {
            let field = &model_projection.fields[i];
            let ghost base = flat_db_names(model_projection@.take(i as int));
            let mut j: usize = 0;
            proof {
                assert(field@.db_names.take(0) =~= Seq::<Seq<char>>::empty());
                assert(base + field@.db_names.take(0) =~= base);
            }
            while j < field.db_names.len()
                invariant
                    j <= field.db_names.len(),
                    field == &model_projection.fields@[i as int],
                    0 <= i < model_projection.fields@.len(),
                    field_names@.len() == self.values@.len(),
                    flat == flat_db_names(model_projection@),
                    names == string_views(field_names@),
                    vals == value_views(self.values@),
                    model_projection@.len() == model_projection.fields@.len(),
                    base == flat_db_names(model_projection@.take(i as int)),
                    field@ == model_projection@[i as int],
                    pairs@.map_values(|p: (String, PrismaValue)| (p.0@, p.1@)) == extracted_pairs(
                        base + field@.db_names.take(j as int),
                        names,
                        vals,
                    ),
                    all_names_present(base + field@.db_names.take(j as int), names),
                decreases field.db_names.len() - j,
            {
                let db_name = &field.db_names[j];
                match find_name_index(field_names, db_name) {
                    Some(idx) => {
                        proof {
                            lemma_name_index(names, db_name@);
                        }
                        pairs.push((db_name.clone(), self.values[idx].clone()));
                        proof {
                            let pre = base + field@.db_names.take(j as int);
                            assert(field@.db_names[j as int] == db_name@);
                            assert(base + field@.db_names.take(j + 1) =~= pre.push(db_name@));
                            assert(vals[name_index(names, db_name@)] == self.values@[
                                idx as int
                            ]@);
                            assert(pairs@.map_values(|p: (String, PrismaValue)| (p.0@, p.1@))
                                =~= extracted_pairs(base + field@.db_names.take(j + 1), names, vals));
                            assert forall|k: int|
                                0 <= k < (base + field@.db_names.take(j + 1)).len() implies names_contain(
                                names,
                                #[trigger] (base + field@.db_names.take(j + 1))[k],
                            ) by {
                                if k < pre.len() {
                                    assert((base + field@.db_names.take(j + 1))[k] == pre[k]);
                                }
                            }
                        }
                        j += 1;
                    },
                    None => {
                        proof {
                            let pre = base + field@.db_names.take(j as int);
                            let p = pre.len() as int;
                            lemma_flat_db_names_split(model_projection@, i as int);
                            assert(flat == base + model_projection@[i as int].db_names
                                + flat_db_names(model_projection@.skip(i + 1)));
                            assert(flat[p] == field@.db_names[j as int]);
                            assert forall|k: int| 0 <= k < p implies names_contain(
                                names,
                                flat[k],
                            ) by {
                                assert(flat[k] == pre[k]);
                            }
                            lemma_first_missing_of(flat, names, p);
                        }
                        return Err(
                            DomainError::FieldNotFound { name: db_name.clone(), model: String::new() },
                        );
                    },
                }
            }
            proof {
                assert(field@.db_names.take(field.db_names@.len() as int) =~= field@.db_names);
                lemma_flat_db_names_take_succ(model_projection@, i as int);
            }
            i += 1;
        }
        proof {
            assert(model_projection@.take(model_projection.fields@.len() as int)
                =~= model_projection@);
        }
        Ok(RecordProjection { pairs })
    }

    /// The identity values alone, in extraction order.
    pub fn identifying_values(
        &self,
        field_names: &Vec<String>,
        model_projection: &ModelProjection,
    ) -> (r: Result<Vec<PrismaValue>, DomainError>)
        requires
            field_names@.len() == self.values@.len(),
        ensures
            r is Ok <==> all_names_present(
                flat_db_names(model_projection@),
                string_views(field_names@),
            ),
            r matches Ok(vs) ==> value_views(vs@) == extracted_pairs(
                flat_db_names(model_projection@),
                string_views(field_names@),
                value_views(self.values@),
            ).map_values(|p: (Seq<char>, ValueView)| p.1),
            r matches Err(e) ==> (e matches DomainError::FieldNotFound { name, model } && name@
                == flat_db_names(model_projection@)[first_missing(
                flat_db_names(model_projection@),
                string_views(field_names@),
            )]),
    {
        match self.projection(field_names, model_projection) {
            Ok(p) => Ok(p.values()),
            Err(e) => Err(e),
        }
    }

    /// The value at the first occurrence of `field` in `field_names`.
    pub fn get_field_value(&self, field_names: &Vec<String>, field: &String) -> (r: Result<
        &PrismaValue,
        DomainError,
    >)
        requires
            field_names@.len() == self.values@.len(),
        ensures
            r is Ok <==> names_contain(string_views(field_names@), field@),
            r matches Ok(v) ==> v@ == value_views(self.values@)[name_index(
                string_views(field_names@),
                field@,
            )],
            r matches Err(e) ==> (e matches DomainError::FieldNotFound { name, model } && name@
                == field@),
    {
        match find_name_index(field_names, field) {
            Some(idx) => {
                proof {
                    lemma_name_index(string_views(field_names@), field@);
                }
                Ok(&self.values[idx])
            },
            None => Err(DomainError::FieldNotFound { name: field.clone(), model: String::new() }),
        }
    }

    /// Assigns the owning parent's identity; resolution does this exactly
    /// once per record (clones fan further parents out).
    pub fn set_parent_id(&mut self, parent_id: RecordProjection)
        ensures
            final(self).values == old(self).values,
            final(self).parent_id == Some(parent_id),
    {
        self.parent_id = Some(parent_id);
    }
}

/// One fetched record together with its selected column names.
#[derive(Debug)]
pub struct SingleRecord {
    pub record: Record,
    pub field_names: Vec<String>,
}

impl SingleRecord {
    /// Pairs a record with its column names.
    pub fn new(record: Record, field_names: Vec<String>) -> (r: Self)
        ensures
            r.record == record,
            r.field_names == field_names,
    {
        SingleRecord { record, field_names }
    }

    /// Extracts the identity value described by `projection`.
    pub fn projection(&self, projection: &ModelProjection) -> (r: Result<
        RecordProjection,
        DomainError,
    >)
        requires
            self.field_names@.len() == self.record.values@.len(),
        ensures
            r is Ok <==> all_names_present(
                flat_db_names(projection@),
                string_views(self.field_names@),
            ),
            r matches Ok(p) ==> p@ == extracted_pairs(
                flat_db_names(projection@),
                string_views(self.field_names@),
                value_views(self.record.values@),
            ),
    {
        self.record.projection(&self.field_names, projection)
    }

    /// The value of the named column.
    pub fn get_field_value(&self, field: &String) -> (r: Result<&PrismaValue, DomainError>)
        requires
            self.field_names@.len() == self.record.values@.len(),
        ensures
            r is Ok <==> names_contain(string_views(self.field_names@), field@),
            r matches Ok(v) ==> v@ == value_views(self.record.values@)[name_index(
                string_views(self.field_names@),
                field@,
            )],
    {
        self.record.get_field_value(&self.field_names, field)
    }
}

/// A fetched record collection: rows plus the selected column names shared by
/// every row. Invariant: each row holds one value per column name.
#[derive(Debug)]
pub struct ManyRecords {
    pub records: Vec<Record>,
    pub field_names: Vec<String>,
}

/// Every record holds exactly one value per selected column name.
pub open spec fn records_well_formed(records: Seq<Record>, field_names: Seq<String>) -> bool {
    forall|i: int| 0 <= i < records.len() ==> #[trigger] records[i].values@.len()
        == field_names.len()
}

impl ManyRecords {
    /// An empty collection with no selected columns.
    pub fn new() -> (r: Self)
        ensures
            r.records@ == Seq::<Record>::empty(),
            r.field_names@ == Seq::<String>::empty(),
    {
        ManyRecords { records: Vec::new(), field_names: Vec::new() }
    }

    /// Extracts one identity value per record. All records share this
    /// collection's column names, so extraction succeeds for all records or
    /// fails for the first one alike.
    pub fn projections(&self, model_projection: &ModelProjection) -> (r: Result<
        Vec<RecordProjection>,
        DomainError,
    >)
        requires
            records_well_formed(self.records@, self.field_names@),
        ensures
            r is Ok <==> (self.records@.len() == 0 || all_names_present(
                flat_db_names(model_projection@),
                string_views(self.field_names@),
            )),
            r matches Ok(ps) ==> ps@.len() == self.records@.len() && forall|i: int|
                0 <= i < ps@.len() ==> #[trigger] ps@[i]@ == extracted_pairs(
                    flat_db_names(model_projection@),
                    string_views(self.field_names@),
                    value_views(self.records@[i].values@),
                ),
            r matches Err(e) ==> (e matches DomainError::FieldNotFound { name, model } && name@
                == flat_db_names(model_projection@)[first_missing(
                flat_db_names(model_projection@),
                string_views(self.field_names@),
            )]),
    {
        let mut out: Vec<RecordProjection> = Vec::new();
        let mut i: usize = 0;
        while i < self.records.len()
            invariant
                i <= self.records.len(),
                records_well_formed(self.records@, self.field_names@),
                out@.len() == i,
                i > 0 ==> all_names_present(
                    flat_db_names(model_projection@),
                    string_views(self.field_names@),
                ),
                forall|k: int| 0 <= k < i ==> #[trigger] out@[k]@ == extracted_pairs(
                    flat_db_names(model_projection@),
                    string_views(self.field_names@),
                    value_views(self.records@[k].values@),
                ),
            decreases self.records.len() - i,
        {
            match self.records[i].projection(&self.field_names, model_projection) {
                Ok(p) => out.push(p),
                Err(e) => {
                    return Err(e);
                },
            }
            i += 1;
        }
        Ok(out)
    }

    /// Each record as (column name, value) pairs, in column order.
    pub fn as_pairs(&self) -> (r: Vec<Vec<(String, PrismaValue)>>)
        requires
            records_well_formed(self.records@, self.field_names@),
        ensures
            r@.len() == self.records@.len(),
            forall|i: int| 0 <= i < r@.len() ==> #[trigger] r@[i]@.len()
                == self.field_names@.len(),
            forall|i: int, j: int|
                0 <= i < r@.len() && 0 <= j < self.field_names@.len() ==> #[trigger] r@[i]@[j]
                    == (self.field_names@[j], self.records@[i].values@[j]),
    {
        let mut out: Vec<Vec<(String, PrismaValue)>> = Vec::new();
        let mut i: usize = 0;
        while i < self.records.len()
            invariant
                i <= self.records.len(),
                records_well_formed(self.records@, self.field_names@),
                out@.len() == i,
                forall|k: int| 0 <= k < i ==> #[trigger] out@[k]@.len()
                    == self.field_names@.len(),
                forall|k: int, j: int|
                    0 <= k < i && 0 <= j < self.field_names@.len() ==> #[trigger] out@[k]@[j]
                        == (self.field_names@[j], self.records@[k].values@[j]),
            decreases self.records.len() - i,
        {
            let record = &self.records[i];
            let mut row: Vec<(String, PrismaValue)> = Vec::new();
            let mut j: usize = 0;
            while j < self.field_names.len()
                invariant
                    j <= self.field_names.len(),
                    0 <= i < self.records@.len(),
                    record == &self.records@[i as int],
                    records_well_formed(self.records@, self.field_names@),
                    row@.len() == j,
                    forall|l: int| 0 <= l < j ==> #[trigger] row@[l] == (
                        self.field_names@[l],
                        self.records@[i as int].values@[l],
                    ),
                decreases self.field_names.len() - j,
            {
                row.push((self.field_names[j].clone(), record.values[j].clone()));
                j += 1;
            }
            out.push(row);
            i += 1;
        }
        out
    }

    /// Reverses the record order in place.
    pub fn reverse(&mut self)
        ensures
            final(self).records@ == old(self).records@.reverse(),
            final(self).field_names == old(self).field_names,
    {
        let ghost orig = self.records@;
        let n = self.records.len();
        let mut rev: Vec<Record> = Vec::new();
        while self.records.len() > 0
            invariant
                self.field_names == old(self).field_names,
                self.records@.len() + rev@.len() == orig.len(),
                self.records@ == orig.take(self.records@.len() as int),
                forall|j: int| 0 <= j < rev@.len() ==> #[trigger] rev@[j] == orig[orig.len() - 1
                    - j],
            decreases self.records.len(),
        {
            let r = self.records.pop().unwrap();
            proof {
                assert(orig.take(self.records@.len() as int + 1).last() == orig[self.records@.len() as int]);
                assert(orig.take(self.records@.len() as int + 1).drop_last() =~= orig.take(
                    self.records@.len() as int,
                ));
            }
            rev.push(r);
        }
        self.records = rev;
        proof {
            assert(final(self).records@ =~= orig.reverse());
        }
    }
}

impl RecordProjection {
    /// Partitions this projection's pairs into sub-projections matching the
    /// given shapes: for each shape, each of its physical columns is looked
    /// up by name among this projection's pairs. Used to separate a primary
    /// identity from a link identity carried in one extraction pass.
    pub fn split_into(&self, shapes: &Vec<ModelProjection>) -> (r: Result<
        Vec<RecordProjection>,
        DomainError,
    >)
        ensures
            r is Ok <==> (forall|k: int| 0 <= k < shapes@.len() ==> all_names_present(
                flat_db_names(#[trigger] shapes@[k]@),
                self.spec_names(),
            )),
            r matches Ok(subs) ==> subs@.len() == shapes@.len() && forall|k: int|
                0 <= k < shapes@.len() ==> #[trigger] subs@[k]@ == extracted_pairs(
                    flat_db_names(shapes@[k]@),
                    self.spec_names(),
                    self.spec_values(),
                ),
            r matches Err(e) ==> e matches DomainError::FieldNotFound { .. },
    {
        let names = self.fields();
        let rec = Record::new(self.values());
        proof {
            assert(string_views(names@).len() == names@.len());
            assert(value_views(rec.values@).len() == rec.values@.len());
            assert(self.spec_names().len() == self@.len());
            assert(self.spec_values().len() == self@.len());
        }
        let mut out: Vec<RecordProjection> = Vec::new();
        let mut k: usize = 0;
        while k < shapes.len()
            invariant
                k <= shapes.len(),
                string_views(names@) == self.spec_names(),
                value_views(rec.values@) == self.spec_values(),
                names@.len() == rec.values@.len(),
                out@.len() == k,
                forall|l: int| 0 <= l < k ==> all_names_present(
                    flat_db_names(#[trigger] shapes@[l]@),
                    self.spec_names(),
                ),
                forall|l: int| 0 <= l < k ==> #[trigger] out@[l]@ == extracted_pairs(
                    flat_db_names(shapes@[l]@),
                    self.spec_names(),
                    self.spec_values(),
                ),
            decreases shapes.len() - k,
        {
            match rec.projection(&names, &shapes[k]) {
                Ok(p) => out.push(p),
                Err(e) => {
                    return Err(e);
                },
            }
            k += 1;
        }
        Ok(out)
    }
}

/// Round-trip extraction: projection extraction is a pure function of the
/// record, its field-name list and the identity specification, so extracting
/// twice yields projections with equal pairs and an equal pair set.
pub proof fn lemma_extraction_deterministic(
    p1: RecordProjection,
    p2: RecordProjection,
    db_names: Seq<Seq<char>>,
    names: Seq<Seq<char>>,
    values: Seq<ValueView>,
)
    requires
        p1@ == extracted_pairs(db_names, names, values),
        p2@ == extracted_pairs(db_names, names, values),
    ensures
        p1@ == p2@,
        p1.pair_set() == p2.pair_set(),
{
    assert(p1.pair_set() =~= p2.pair_set());
}

impl SingleRecord {
    /// This record as a one-element collection.
    pub fn into_many(self) -> (r: ManyRecords)
        ensures
            r.records@ == seq![self.record],
            r.field_names == self.field_names,
    {
        let mut records: Vec<Record> = Vec::new();
        records.push(self.record);
        proof {
            assert(records@ =~= seq![self.record]);
        }
        ManyRecords { records, field_names: self.field_names }
    }
}

} // verus!

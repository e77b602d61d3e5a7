//! Error types of the core.
use vstd::prelude::*;

verus! {

/// Consistency faults discovered while reading records and projections.
#[derive(Debug)]
pub enum DomainError {
    /// A physical field name was not found in a record's field-name list:
    /// a selection / projection mismatch in upstream logic.
    FieldNotFound { name: String, model: String },
    /// An implicit ordering over a multi-column identifier was requested.
    /// Multi-column implicit ordering is a caller contract violation.
    MultiFieldOrdering,
}

/// Errors raised while a query graph is being built.
#[derive(Debug)]
pub enum QueryGraphBuilderError {
    /// The discovered set of connected child records disagrees with the
    /// caller's declared parent-child linkage.
    RecordsNotConnected { relation_name: String, parent_name: String, child_name: String },
    /// A structural guarantee of the query schema was broken.
    AssertionError(String),
    /// A parsed input value had a different shape than the schema promises.
    InputError(String),
    /// A record-reading fault, passed through.
    Domain(DomainError),
}

/// Errors raised while an already-built graph is interpreted.
#[derive(Debug)]
pub enum InterpreterError {
    /// A record-reading fault, passed through.
    Domain(DomainError),
    /// Nested-relation resolution needed parent results, and the graph
    /// carried neither explicit projections nor a parent result set.
    MissingParentResults,
    /// The join rows and the fetched record set disagree: a fetched child's
    /// identity is absent from the parent index.
    InconsistentResultData,
    /// Neither side of the relation is inlined: an unrecoverable modeling
    /// inconsistency that schema validation should have prevented.
    RelationNotInlined,
}

} // verus!

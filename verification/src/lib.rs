//! Relational query-execution core: record/model projections, keyset cursor
//! conditions, nested-relation resolution and a query graph with data-flow
//! edges, with machine-checked contracts.
pub mod cursor_condition;
pub mod delete_nested;
pub mod error;
pub mod extractors;
pub mod filter;
pub mod interpreter;
pub mod migration;
pub mod model;
pub mod nested_read;
pub mod parsed_input;
pub mod prisma_value;
pub mod projection;
pub mod query_arguments;
pub mod query_graph;
pub mod record;
pub mod scalar_field;

pub use error::DomainError;
pub use error::InterpreterError;
pub use error::QueryGraphBuilderError;
pub use filter::Filter;
pub use prisma_value::PrismaValue;
pub use projection::ModelProjection;
pub use projection::RecordProjection;
pub use record::ManyRecords;
pub use record::Record;
pub use record::SingleRecord;

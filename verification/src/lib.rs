//! A typed data-mapping layer over a relational database.
//!
//! Given a structural description of a record type — its field names,
//! host scalar types and annotations — the library synthesizes a
//! [`descriptor::TypeDescriptor`] (table name, column list, primary key,
//! per-column wire types) and, from that descriptor, the SQL text for
//! single-row and batched INSERT/UPDATE/DELETE statements with positional
//! bound-parameter placeholders.  All identifiers are rendered
//! double-quoted and all values travel as bound parameters, never as
//! interpolated text.
//!
//! The network client that executes the generated statements is an
//! external collaborator; this crate only produces and checks the data
//! that crosses that boundary.

pub mod descriptor;
pub mod placeholders;
pub mod rows;
pub mod statements;
pub mod text;
pub mod wire;

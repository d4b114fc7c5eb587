//! A query-expression compiler and evaluator for a snippet-manager database.
//!
//! Query text is parsed into a boolean expression tree ([`Expr`]) and
//! evaluated against records with named fields; a driver filters keyed
//! collections of folders, tags and snippets.

pub mod engine;
pub mod eval;
pub mod expr;
pub mod laws;
pub mod model;
pub mod num;
pub mod parse;
pub mod record;
pub mod roundtrip;
pub mod text;

pub use engine::{QueryEngine, QueryOutput, execute_query, execute_query_ids, query_folders,
    query_snippets, query_tags};
pub use eval::evaluate;
pub use expr::{Expr, Operator, SpecExpr, to_query_string};
pub use model::{Content, FolderModel, SnippetModel, StorageData, TagModel};
pub use parse::{SyntaxError, parse_query};
pub use record::{FieldValue, Record};
pub use roundtrip::canonical_query;

//! Syntax-tree based parsing of justfiles: errors, node kinds, query
//! results and the analyses built on them.
pub mod errors;
pub mod queries;
pub mod cache;
pub mod nodes;
pub mod parser;
pub mod recipe_text;
pub mod syntax;

pub use errors::{ASTError, DiagnosticInfo, DiagnosticSeverity};
pub use nodes::NodeType;
pub use parser::{ParserStats, ValidationError, ValidationSeverity};

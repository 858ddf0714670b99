//! Error values of the syntax-tree parser, with their diagnostics.
use vstd::prelude::*;
use crate::text::{owned, push_str, usize_to_string, decimal};

verus! {

/// Error raised while parsing a justfile into a syntax tree.
#[derive(Debug)]
pub enum ASTError {
    /// The parser could not be initialised.
    ParserInitialization { message: String },
    /// The justfile grammar could not be loaded.
    LanguageLoad { details: String },
    /// The source has a syntax error.
    SyntaxError { line: usize, column: usize, message: String },
    /// A node traversal operation failed.
    NodeTraversal { operation: String, reason: String },
    /// A node had another kind than expected.
    UnexpectedNodeType { expected: String, actual: String, position: String },
    /// Text could not be read from a node.
    TextExtraction { details: String },
    /// A recipe could not be extracted.
    RecipeExtraction { recipe_name: String, reason: String },
    /// The parameters of a recipe could not be parsed.
    ParameterParsing { recipe_name: String, details: String },
    /// The tree has an invalid structure.
    InvalidStructure { description: String },
    /// Internal failure of the parser.
    Internal { context: String },
    /// Input/output failure while parsing.
    Io { message: String },
}

/// Severity of a diagnostic.
#[derive(Debug, Clone, Copy, PartialEq, Eq)]
pub enum DiagnosticSeverity {
    /// Prevents all parsing.
    Fatal,
    /// Prevents this parser from succeeding, other parsers may still work.
    Error,
    /// Possibly problematic construct.
    Warning,
    /// Informational message.
    Info,
}

/// Diagnostic record derived from an error.
#[derive(Debug)]
pub struct DiagnosticInfo {
    /// Line of the error, when known.
    pub line: Option<usize>,
    /// Column of the error, when known.
    pub column: Option<usize>,
    /// Severity.
    pub severity: DiagnosticSeverity,
    /// Category used to group diagnostics.
    pub category: String,
}

/// Whether another parser may succeed after this error.
pub open spec fn spec_recoverable(e: ASTError) -> bool {
    match e {
        ASTError::ParserInitialization { .. } => false,
        ASTError::LanguageLoad { .. } => false,
        ASTError::Io { .. } => false,
        ASTError::Internal { .. } => false,
        _ => true,
    }
}

/// Severity the diagnostic of `e` carries.
pub open spec fn spec_severity(e: ASTError) -> DiagnosticSeverity {
    match e {
        ASTError::SyntaxError { .. } => DiagnosticSeverity::Error,
        ASTError::ParserInitialization { .. } | ASTError::LanguageLoad { .. } => DiagnosticSeverity::Fatal,
        ASTError::RecipeExtraction { .. } | ASTError::ParameterParsing { .. } | ASTError::InvalidStructure { .. } => DiagnosticSeverity::Error,
        ASTError::NodeTraversal { .. } | ASTError::UnexpectedNodeType { .. } | ASTError::TextExtraction { .. } => DiagnosticSeverity::Warning,
        ASTError::Internal { .. } => DiagnosticSeverity::Fatal,
        ASTError::Io { .. } => DiagnosticSeverity::Error,
    }
}

/// Category the diagnostic of `e` carries.
pub open spec fn spec_category(e: ASTError) -> Seq<char> {
    match e {
        ASTError::SyntaxError { .. } => "Syntax"@,
        ASTError::ParserInitialization { .. } | ASTError::LanguageLoad { .. } => "Initialization"@,
        ASTError::RecipeExtraction { .. } | ASTError::ParameterParsing { .. } | ASTError::InvalidStructure { .. } => "Parsing"@,
        ASTError::NodeTraversal { .. } | ASTError::UnexpectedNodeType { .. } | ASTError::TextExtraction { .. } => "Traversal"@,
        ASTError::Internal { .. } => "Internal"@,
        ASTError::Io { .. } => "IO"@,
    }
}

/// Text of the error message.
pub open spec fn spec_error_text(e: ASTError) -> Seq<char> {
    match e {
        ASTError::ParserInitialization { message } => "Failed to initialize Tree-sitter parser: "@ + message@,
        ASTError::LanguageLoad { details } => "Failed to load Tree-sitter language for justfiles: "@ + details@,
        ASTError::SyntaxError { line, column, message } => "Syntax error in justfile at line "@
            + decimal(line as nat) + ", column "@ + decimal(column as nat) + ": "@ + message@,
        ASTError::NodeTraversal { operation, reason } => "Node traversal error: "@ + operation@
            + " failed - "@ + reason@,
        ASTError::UnexpectedNodeType { expected, actual, position } => "Expected node type '"@
            + expected@ + "' but found '"@ + actual@ + "' at position "@ + position@,
        ASTError::TextExtraction { details } => "Failed to extract text from node: "@ + details@,
        ASTError::RecipeExtraction { recipe_name, reason } => "Failed to extract recipe '"@
            + recipe_name@ + "': "@ + reason@,
        ASTError::ParameterParsing { recipe_name, details } => "Failed to parse parameters for recipe '"@
            + recipe_name@ + "': "@ + details@,
        ASTError::InvalidStructure { description } => "Invalid AST structure detected: "@ + description@,
        ASTError::Internal { context } => "Internal parser error: "@ + context@,
        ASTError::Io { message } => "IO error during parsing: "@ + message@,
    }
}

/// Display text of a severity.
pub open spec fn spec_severity_text(s: DiagnosticSeverity) -> Seq<char> {
    match s {
        DiagnosticSeverity::Fatal => "FATAL"@,
        DiagnosticSeverity::Error => "ERROR"@,
        DiagnosticSeverity::Warning => "WARNING"@,
        DiagnosticSeverity::Info => "INFO"@,
    }
}

impl ASTError {
    /// Parser initialisation error.
    pub fn parser_init(message: &str) -> (e: Self)
        ensures
            e matches ASTError::ParserInitialization { message: m } && m@ == message@,
    {
        ASTError::ParserInitialization { message: owned(message) }
    }

    /// Grammar loading error.
    pub fn language_load(details: &str) -> (e: Self)
        ensures
            e matches ASTError::LanguageLoad { details: d } && d@ == details@,
    {
        ASTError::LanguageLoad { details: owned(details) }
    }

    /// Syntax error at a position.
    pub fn syntax_error(line: usize, column: usize, message: &str) -> (e: Self)
        ensures
            e matches ASTError::SyntaxError { line: l, column: c, message: m } && l == line && c
                == column && m@ == message@,
    {
        ASTError::SyntaxError { line, column, message: owned(message) }
    }

    /// Node traversal error.
    pub fn node_traversal(operation: &str, reason: &str) -> (e: Self)
        ensures
            e matches ASTError::NodeTraversal { operation: o, reason: r } && o@ == operation@
                && r@ == reason@,
    {
        ASTError::NodeTraversal { operation: owned(operation), reason: owned(reason) }
    }

    /// Unexpected node kind error.
    pub fn unexpected_node(expected: &str, actual: &str, position: &str) -> (e: Self)
        ensures
            e matches ASTError::UnexpectedNodeType { expected: x, actual: a, position: p }
                && x@ == expected@ && a@ == actual@ && p@ == position@,
    {
        ASTError::UnexpectedNodeType {
            expected: owned(expected),
            actual: owned(actual),
            position: owned(position),
        }
    }

    /// Text extraction error.
    pub fn text_extraction(details: &str) -> (e: Self)
        ensures
            e matches ASTError::TextExtraction { details: d } && d@ == details@,
    {
        ASTError::TextExtraction { details: owned(details) }
    }

    /// Recipe extraction error.
    pub fn recipe_extraction(recipe_name: &str, reason: &str) -> (e: Self)
        ensures
            e matches ASTError::RecipeExtraction { recipe_name: n, reason: r } && n@
                == recipe_name@ && r@ == reason@,
    {
        ASTError::RecipeExtraction { recipe_name: owned(recipe_name), reason: owned(reason) }
    }

    /// Parameter parsing error.
    pub fn parameter_parsing(recipe_name: &str, details: &str) -> (e: Self)
        ensures
            e matches ASTError::ParameterParsing { recipe_name: n, details: d } && n@
                == recipe_name@ && d@ == details@,
    {
        ASTError::ParameterParsing { recipe_name: owned(recipe_name), details: owned(details) }
    }

    /// Invalid structure error.
    pub fn invalid_structure(description: &str) -> (e: Self)
        ensures
            e matches ASTError::InvalidStructure { description: d } && d@ == description@,
    {
        ASTError::InvalidStructure { description: owned(description) }
    }

    /// Internal error.
    pub fn internal(context: &str) -> (e: Self)
        ensures
            e matches ASTError::Internal { context: c } && c@ == context@,
    {
        ASTError::Internal { context: owned(context) }
    }

    /// Input/output error.
    pub fn io(message: &str) -> (e: Self)
        ensures
            e matches ASTError::Io { message: m } && m@ == message@,
    {
        ASTError::Io { message: owned(message) }
    }

    /// Whether a fallback parser may still succeed after this error.
    pub fn is_recoverable(&self) -> (b: bool)
        ensures
            b == spec_recoverable(*self),
    {
        match self {
            ASTError::ParserInitialization { .. } => false,
            ASTError::LanguageLoad { .. } => false,
            ASTError::Io { .. } => false,
            ASTError::Internal { .. } => false,
            ASTError::SyntaxError { .. } => true,
            ASTError::NodeTraversal { .. } => true,
            ASTError::UnexpectedNodeType { .. } => true,
            ASTError::TextExtraction { .. } => true,
            ASTError::RecipeExtraction { .. } => true,
            ASTError::ParameterParsing { .. } => true,
            ASTError::InvalidStructure { .. } => true,
        }
    }

    /// Diagnostic record of this error.
    pub fn diagnostic_info(&self) -> (d: DiagnosticInfo)
        ensures
            d.severity == spec_severity(*self),
            d.category@ == spec_category(*self),
            d.line == (match *self {
                ASTError::SyntaxError { line, .. } => Some(line),
                _ => None,
            }),
            d.column == (match *self {
                ASTError::SyntaxError { column, .. } => Some(column),
                _ => None,
            }),
    {
        match self {
            ASTError::SyntaxError { line, column, .. } => DiagnosticInfo {
                line: Some(*line),
                column: Some(*column),
                severity: DiagnosticSeverity::Error,
                category: owned("Syntax"),
            },
            ASTError::ParserInitialization { .. } | ASTError::LanguageLoad { .. } => DiagnosticInfo {
                line: None,
                column: None,
                severity: DiagnosticSeverity::Fatal,
                category: owned("Initialization"),
            },
            ASTError::RecipeExtraction { .. } | ASTError::ParameterParsing { .. }
            | ASTError::InvalidStructure { .. } => DiagnosticInfo {
                line: None,
                column: None,
                severity: DiagnosticSeverity::Error,
                category: owned("Parsing"),
            },
            ASTError::NodeTraversal { .. } | ASTError::UnexpectedNodeType { .. }
            | ASTError::TextExtraction { .. } => DiagnosticInfo {
                line: None,
                column: None,
                severity: DiagnosticSeverity::Warning,
                category: owned("Traversal"),
            },
            ASTError::Internal { .. } => DiagnosticInfo {
                line: None,
                column: None,
                severity: DiagnosticSeverity::Fatal,
                category: owned("Internal"),
            },
            ASTError::Io { .. } => DiagnosticInfo {
                line: None,
                column: None,
                severity: DiagnosticSeverity::Error,
                category: owned("IO"),
            },
        }
    }

    /// The error message.
    pub fn to_string(&self) -> (s: String)
        ensures
            s@ == spec_error_text(*self),
    {
        match self {
            ASTError::ParserInitialization { message } => {
                let mut s = owned("Failed to initialize Tree-sitter parser: ");
                push_str(&mut s, message.as_str());
                s
            },
            ASTError::LanguageLoad { details } => {
                let mut s = owned("Failed to load Tree-sitter language for justfiles: ");
                push_str(&mut s, details.as_str());
                s
            },
            ASTError::SyntaxError { line, column, message } => {
                let mut s = owned("Syntax error in justfile at line ");
                let l = usize_to_string(*line);
                push_str(&mut s, l.as_str());
                push_str(&mut s, ", column ");
                let c = usize_to_string(*column);
                push_str(&mut s, c.as_str());
                push_str(&mut s, ": ");
                push_str(&mut s, message.as_str());
                s
            },
            ASTError::NodeTraversal { operation, reason } => {
                let mut s = owned("Node traversal error: ");
                push_str(&mut s, operation.as_str());
                push_str(&mut s, " failed - ");
                push_str(&mut s, reason.as_str());
                s
            },
            ASTError::UnexpectedNodeType { expected, actual, position } => {
                let mut s = owned("Expected node type '");
                push_str(&mut s, expected.as_str());
                push_str(&mut s, "' but found '");
                push_str(&mut s, actual.as_str());
                push_str(&mut s, "' at position ");
                push_str(&mut s, position.as_str());
                s
            },
            ASTError::TextExtraction { details } => {
                let mut s = owned("Failed to extract text from node: ");
                push_str(&mut s, details.as_str());
                s
            },
            ASTError::RecipeExtraction { recipe_name, reason } => {
                let mut s = owned("Failed to extract recipe '");
                push_str(&mut s, recipe_name.as_str());
                push_str(&mut s, "': ");
                push_str(&mut s, reason.as_str());
                s
            },
            ASTError::ParameterParsing { recipe_name, details } => {
                let mut s = owned("Failed to parse parameters for recipe '");
                push_str(&mut s, recipe_name.as_str());
                push_str(&mut s, "': ");
                push_str(&mut s, details.as_str());
                s
            },
            ASTError::InvalidStructure { description } => {
                let mut s = owned("Invalid AST structure detected: ");
                push_str(&mut s, description.as_str());
                s
            },
            ASTError::Internal { context } => {
                let mut s = owned("Internal parser error: ");
                push_str(&mut s, context.as_str());
                s
            },
            ASTError::Io { message } => {
                let mut s = owned("IO error during parsing: ");
                push_str(&mut s, message.as_str());
                s
            },
        }
    }
}

impl DiagnosticSeverity {
    /// Display text of the severity.
    pub fn to_string(&self) -> (s: String)
        ensures
            s@ == spec_severity_text(*self),
    {
        match self {
            DiagnosticSeverity::Fatal => owned("FATAL"),
            DiagnosticSeverity::Error => owned("ERROR"),
            DiagnosticSeverity::Warning => owned("WARNING"),
            DiagnosticSeverity::Info => owned("INFO"),
        }
    }
}

} // verus!

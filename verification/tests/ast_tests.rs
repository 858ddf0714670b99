use just_mcp::parser::ast::cache::CacheStats;
use just_mcp::parser::ast::{ASTError, DiagnosticSeverity, NodeType};

#[test]
fn test_error_creation() {
    let error = ASTError::syntax_error(10, 5, "Unexpected token");
    match error {
        ASTError::SyntaxError { line, column, message } => {
            assert_eq!(line, 10);
            assert_eq!(column, 5);
            assert_eq!(message, "Unexpected token");
        }
        _ => panic!("Wrong error type created"),
    }
}

#[test]
fn test_error_recoverability() {
    let recoverable = ASTError::syntax_error(1, 1, "test");
    let non_recoverable = ASTError::parser_init("test");

    assert!(recoverable.is_recoverable());
    assert!(!non_recoverable.is_recoverable());
}

#[test]
fn test_diagnostic_info() {
    let error = ASTError::syntax_error(5, 10, "test");
    let diag = error.diagnostic_info();

    assert_eq!(diag.line, Some(5));
    assert_eq!(diag.column, Some(10));
    assert_eq!(diag.severity, DiagnosticSeverity::Error);
    assert_eq!(diag.category, "Syntax");
}

#[test]
fn test_error_display() {
    let error = ASTError::recipe_extraction("build", "missing dependencies");
    let error_str = error.to_string();
    assert!(error_str.contains("build"));
    assert!(error_str.contains("missing dependencies"));
}

#[test]
fn test_diagnostic_severity_display() {
    assert_eq!(DiagnosticSeverity::Fatal.to_string(), "FATAL");
    assert_eq!(DiagnosticSeverity::Error.to_string(), "ERROR");
    assert_eq!(DiagnosticSeverity::Warning.to_string(), "WARNING");
    assert_eq!(DiagnosticSeverity::Info.to_string(), "INFO");
}

#[test]
fn test_feature_gating() {
    assert!(true, "AST parser module properly compiled with feature flag");
}

#[test]
fn test_cache_display() {
    let stats = CacheStats { hits: 10, misses: 2, compilation_errors: 1, evictions: 0, compilation_time_us: 500 };

    let display = stats.to_string();
    assert!(display.contains("10 hits"));
    assert!(display.contains("2 misses"));
    assert!(display.contains("83.3% hit rate"));
}

#[test]
fn test_node_type_display() {
    assert_eq!(NodeType::Recipe.to_string(), "recipe");
    assert_eq!(NodeType::Comment.to_string(), "comment");
    assert_eq!(NodeType::Unknown("custom".to_string()).to_string(), "unknown(custom)");
}

#[test]
fn test_cache_stats() {
    let mut stats = CacheStats::default();
    assert!(stats.to_string().contains(" 0.0% hit rate"));
    assert_eq!(stats.total_operations(), 0);
    assert!(stats.to_string().contains(" 0.0μs avg compilation"));

    stats.hits = 8;
    stats.misses = 2;
    stats.compilation_time_us = 1000;

    assert!(stats.to_string().contains("80.0% hit rate"));
    assert_eq!(stats.total_operations(), 10);
    assert!(stats.to_string().contains("500.0μs avg compilation"));
}

#[test]
fn cache_summary_rounds_ties_to_even() {
    let stats = CacheStats { hits: 1, misses: 15, compilation_errors: 0, evictions: 0, compilation_time_us: 5 };
    let display = stats.to_string();
    assert!(display.contains(" 6.2% hit rate"));
    assert!(display.contains(" 0.3μs avg compilation"));
    let up = CacheStats { hits: 3, misses: 13, compilation_errors: 0, evictions: 0, compilation_time_us: 7 };
    let shown = up.to_string();
    assert!(shown.contains(" 18.8% hit rate"));
    assert!(shown.contains(" 0.5μs avg compilation"));
}

use just_mcp::parser::ast::cache::{QueryCache, QueryCompiler};
use just_mcp::parser::ast::parser::ASTJustParser;
use just_mcp::parser::ast::queries::executor::QueryExecutor;
use just_mcp::parser::ast::queries::patterns::QueryConfig;
use just_mcp::parser::ast::queries::QueryResultType;
use just_mcp::parser::ast::syntax::CompiledQuery;
use just_mcp::parser::ast::ASTError;

fn get_test_pattern() -> &'static str {
    r#"(recipe_header name: (identifier) @recipe.name) @recipe.header"#
}

#[test]
fn parser_test_parser_creation() {
    let parser = ASTJustParser::new();
    assert!(parser.is_ok());
}

#[test]
fn test_parse_simple_content() {
    let mut parser = ASTJustParser::new().unwrap();
    let content = r#"
# Test recipe
hello:
    echo "world"
"#;
    let tree = parser.parse_content(content);
    assert!(tree.is_ok());
    let tree = tree.unwrap();
    assert!(!tree.has_errors());
}

#[test]
fn test_error_handling() {
    let mut parser = ASTJustParser::new().unwrap();
    let content = "this is not a valid justfile {{{";
    let result = parser.parse_content(content);
    match result {
        Ok(tree) => {
            if tree.has_errors() {
                println!("Tree has errors as expected");
            }
        }
        Err(e) => {
            println!("Parse failed as expected: {}", e.to_string());
            assert!(e.is_recoverable());
        }
    }
}

#[test]
fn test_parser_reuse() {
    let mut parser = ASTJustParser::new().unwrap();
    assert!(parser.can_reuse());
    let content1 = "recipe1:\n    echo '1'";
    let content2 = "recipe2:\n    echo '2'";
    let tree1 = parser.parse_content(content1);
    let tree2 = parser.parse_content(content2);
    assert!(tree1.is_ok());
    assert!(tree2.is_ok());
}

#[test]
fn test_parser_stats() {
    let parser = ASTJustParser::new().unwrap();
    let stats = parser.stats();
    assert!(stats.language_version > 0);
    assert!(stats.node_kind_count > 0);
    println!("Parser stats: {:?}", stats);
}

#[test]
fn test_parse_tree_utilities() {
    let mut parser = ASTJustParser::new().unwrap();
    let content = "hello:\n    echo 'world'";
    let tree = parser.parse_content(content).unwrap();
    assert_eq!(tree.source(), content);
    let root = tree.root();
    assert!(root.kind() == "justfile" || root.kind() == "source_file");
    let errors = tree.error_nodes();
    println!("Found {} error nodes", errors.len());
}

#[test]
fn syntax_error_names_line_and_text() {
    let mut parser = ASTJustParser::new().unwrap();
    let result = parser.parse_content("hello:\n    echo hi\n)(\n");
    match result {
        Err(ASTError::SyntaxError { line, message, .. }) => {
            assert!(line >= 1);
            assert!(message.starts_with("Parse error near '"));
            assert!(message.ends_with("'"));
        }
        Ok(tree) => assert!(!tree.has_errors() || tree.error_nodes().is_empty()),
        Err(other) => panic!("unexpected error {}", other.to_string()),
    }
}

#[test]
fn root_children_and_descendants_come_from_the_parse() {
    let mut parser = ASTJustParser::new().unwrap();
    let tree = parser.parse_content("hello:\n    echo 'world'\n").unwrap();
    let root = tree.root();
    assert_eq!(root.text().unwrap(), "hello:\n    echo 'world'\n");
    let below = root.descendants();
    assert!(below.iter().any(|n| n.kind() == "recipe"));
    let recipe = below.iter().find(|n| n.kind() == "recipe").unwrap();
    assert_eq!(recipe.start_position(), (0, 0));
    assert!(recipe.text().unwrap().starts_with("hello:"));
}

#[test]
fn test_query_compiler_creation() {
    let compiler = QueryCompiler::new();
    assert!(compiler.validate_patterns);
    let compiler_no_val = QueryCompiler::without_validation();
    assert!(!compiler_no_val.validate_patterns);
}

#[test]
fn test_query_compilation() {
    let compiler = QueryCompiler::new();
    let result = compiler.compile(get_test_pattern(), "test_query".to_string());
    assert!(result.is_ok(), "Query compilation should succeed: {:?}", result.err());
    let compiled = result.unwrap();
    assert_eq!(compiled.name(), "test_query");
    assert!(compiled.pattern_count() > 0);
}

#[test]
fn test_invalid_query_compilation() {
    let compiler = QueryCompiler::new();
    let result = compiler.compile("(invalid_node_type) @capture", "invalid_test".to_string());
    assert!(result.is_err(), "Invalid query should fail to compile");
}

#[test]
fn invalid_query_error_carries_the_refusal() {
    let compiler = QueryCompiler::without_validation();
    match compiler.compile("(invalid_node_type) @capture", "x".to_string()) {
        Err(ASTError::Internal { context }) => {
            assert!(context.starts_with(
                "Query compilation failed: Query compilation failed at offset 0: Query compilation error: "
            ));
        }
        _ => panic!("expected an internal error"),
    }
}

#[test]
fn test_pattern_validation() {
    let compiler = QueryCompiler::new();
    assert!(compiler.validate_pattern("(recipe) @rec").is_ok());
    assert!(compiler.validate_pattern("(recipe (identifier) @name)").is_ok());
    assert!(compiler.validate_pattern("(recipe @rec").is_err());
    assert!(compiler.validate_pattern("recipe) @rec").is_err());
    assert!(compiler.validate_pattern("").is_err());
    assert!(compiler.validate_pattern("   ").is_err());
}

#[test]
fn pattern_validation_messages() {
    let compiler = QueryCompiler::new();
    let msg = |p: &str| match compiler.validate_pattern(p) {
        Err(ASTError::Internal { context }) => context,
        _ => String::new(),
    };
    assert_eq!(msg("(a"), "Unbalanced parentheses in query pattern");
    assert_eq!(msg(")("), "Unbalanced parentheses in query pattern");
    assert_eq!(msg("  "), "Query pattern cannot be empty");
    assert_eq!(msg("(a) @1x"), "Invalid capture name starting with '1'");
    assert_eq!(msg("(a) @_x"), "");
    assert_eq!(msg("(a) @"), "");
}

#[test]
fn test_query_bundle_compilation() {
    let compiler = QueryCompiler::new();
    match compiler.compile_standard_queries() {
        Ok(bundle) => {
            assert!(!bundle.recipes.name().is_empty());
            assert!(!bundle.parameters.name().is_empty());
            assert!(!bundle.dependencies.name().is_empty());
        }
        Err(_) => {
            println!("Some standard queries failed to compile (expected with current grammar)");
        }
    }
}

#[test]
fn capture_index_finds_names() {
    let q = CompiledQuery::compile(get_test_pattern(), "t".to_string()).unwrap();
    let names = q.capture_names();
    assert_eq!(names.len(), 2);
    assert_eq!(q.capture_index("recipe.name").map(|i| names[i as usize].as_str()), Some("recipe.name"));
    assert_eq!(q.capture_index("nope"), None);
}

#[test]
fn executor_reads_captured_text() {
    let mut parser = ASTJustParser::new().unwrap();
    let content = "hello:\n    echo hi\n\nbuild target:\n    cargo build\n";
    let tree = parser.parse_content(content).unwrap();
    let query = CompiledQuery::compile(get_test_pattern(), "t".to_string()).unwrap();
    let mut executor = QueryExecutor::new(content);
    let results = executor.execute(&query, &tree).unwrap();
    assert_eq!(results.len(), 2);
    assert_eq!(results[0].get_text("recipe.name"), Some("hello"));
    assert_eq!(results[1].get_text("recipe.name"), Some("build"));
    let cap = results[1].get_capture("recipe.name").unwrap();
    assert_eq!(cap.start_position, (3, 0));
}

#[test]
fn executor_limit_and_first() {
    let mut parser = ASTJustParser::new().unwrap();
    let content = "a:\n    echo a\nb:\n    echo b\nc:\n    echo c\n";
    let tree = parser.parse_content(content).unwrap();
    let query = CompiledQuery::compile(get_test_pattern(), "t".to_string()).unwrap();
    let mut config = QueryConfig::default();
    config.max_matches = 2;
    let mut executor = QueryExecutor::with_config(content, config);
    assert_eq!(executor.execute(&query, &tree).unwrap().len(), 2);
    executor.set_max_matches(0);
    assert_eq!(executor.execute(&query, &tree).unwrap().len(), 3);
    let first = executor.execute_first(&query, &tree).unwrap().unwrap();
    assert_eq!(first.get_text("recipe.name"), Some("a"));
    assert_eq!(executor.execute(&query, &tree).unwrap().len(), 3);
}

#[test]
fn executor_reports_unreadable_text() {
    let mut parser = ASTJustParser::new().unwrap();
    let content = "hello:\n    echo hi\n";
    let tree = parser.parse_content(content).unwrap();
    let query = CompiledQuery::compile(get_test_pattern(), "t".to_string()).unwrap();
    let mut executor = QueryExecutor::new("h");
    match executor.execute(&query, &tree) {
        Err(ASTError::TextExtraction { details }) => assert!(details.starts_with("UTF-8 error: ")),
        _ => panic!("expected a text extraction error"),
    }
}

#[test]
fn test_extract_simple_recipe() {
    let mut parser = ASTJustParser::new().unwrap();
    let content = r#"
# Test recipe
hello:
    echo "world"
"#;
    let tree = parser.parse_content(content).unwrap();
    let recipes = parser.extract_recipes(&tree).unwrap();
    assert!(!recipes.is_empty(), "Should extract at least one recipe");
    let hello_recipe = recipes.iter().find(|r| r.name == "hello");
    if let Some(recipe) = hello_recipe {
        assert_eq!(recipe.name, "hello");
        assert!(recipe.body.contains("echo"));
        assert!(recipe.parameters.is_empty());
        assert!(recipe.dependencies.is_empty());
    } else {
        println!(
            "Hello recipe not found. Available recipes: {:?}",
            recipes.iter().map(|r| &r.name).collect::<Vec<_>>()
        );
    }
}

#[test]
fn parser_test_parse_recipe_with_parameters() {
    let mut parser = ASTJustParser::new().unwrap();
    let content = r#"
# Build with target
build target="debug":
    cargo build --target={{target}}
"#;
    let tree = parser.parse_content(content).unwrap();
    let recipes = parser.extract_recipes(&tree).unwrap();
    assert!(!recipes.is_empty(), "Should extract at least one recipe");
    let build_recipe = recipes.iter().find(|r| r.name == "build");
    if let Some(recipe) = build_recipe {
        assert_eq!(recipe.name, "build");
        println!("Build recipe parameters: {}", recipe.parameters.len());
    }
}

#[test]
fn parser_test_parse_recipe_with_dependencies() {
    let mut parser = ASTJustParser::new().unwrap();
    let content = r#"
# Deploy requires build and test
deploy: build test
    echo "Deploying..."
"#;
    let tree = parser.parse_content(content).unwrap();
    let recipes = parser.extract_recipes(&tree).unwrap();
    assert!(!recipes.is_empty(), "Should extract at least one recipe");
    let deploy_recipe = recipes.iter().find(|r| r.name == "deploy");
    if let Some(recipe) = deploy_recipe {
        assert_eq!(recipe.name, "deploy");
        println!("Deploy recipe dependencies: {:?}", recipe.dependencies);
    }
}

#[test]
fn extracted_recipes_carry_lines_and_dependencies() {
    let mut parser = ASTJustParser::new().unwrap();
    let content = "build:\n    cargo build\n\ndeploy: build\n    echo go\n\n_hidden:\n    echo x\n";
    let tree = parser.parse_content(content).unwrap();
    let recipes = parser.extract_recipes(&tree).unwrap();
    let names: Vec<&str> = recipes.iter().map(|r| r.name.as_str()).collect();
    assert_eq!(names, vec!["build", "deploy", "_hidden"]);
    assert_eq!(recipes[0].line_number, 1);
    assert_eq!(recipes[1].line_number, 4);
    assert_eq!(recipes[1].dependencies, vec!["build".to_string()]);
    assert!(recipes[2].is_private);
    assert!(!recipes[0].is_private);
}

#[test]
fn recipe_kinds_and_structure_checks() {
    let mut parser = ASTJustParser::new().unwrap();
    assert!(parser.looks_like_recipe_conservative("rule"));
    assert!(parser.looks_like_recipe_conservative("recipe"));
    assert!(!parser.looks_like_recipe_conservative("recipe_body"));
    let tree = parser.parse_content("a:\n    echo a\n").unwrap();
    let root = tree.root();
    assert!(parser.validate_recipe_structure_basic(&root));
    let nodes = parser.find_recipe_nodes(&root).unwrap();
    assert_eq!(nodes.len(), 1);
    assert_eq!(nodes[0].kind(), "recipe");
    let task = parser.extract_recipe_fallback(&nodes[0]).unwrap();
    assert_eq!(task.name, "a");
    assert_eq!(task.body, "echo a");
}

#[test]
fn test_query_cache_creation() {
    let cache = QueryCache::new();
    assert!(cache.is_empty());
    assert_eq!(cache.len(), 0);
}

#[test]
fn test_query_cache_with_capacity() {
    let cache = QueryCache::with_capacity(32);
    assert_eq!(cache.max_size(), 32);
    assert!(cache.is_empty());
}

#[test]
fn test_cache_operations() {
    let mut cache = QueryCache::new();
    let compiler = QueryCompiler::new();
    let pattern = get_test_pattern();
    let result1 = cache.get_or_compile("test_key", pattern, &compiler);
    assert!(result1.is_ok());
    let result2 = cache.get_or_compile("test_key", pattern, &compiler);
    assert!(result2.is_ok());
    let query1 = result1.unwrap();
    let query2 = result2.unwrap();
    assert_eq!(query1.name(), query2.name());
    let stats = cache.stats().unwrap();
    assert_eq!(stats.hits, 1);
    assert_eq!(stats.misses, 1);
    let rate = stats.hits as f64 / (stats.hits + stats.misses) as f64 * 100.0;
    assert!(rate > 0.0);
}

#[test]
fn test_cache_clear_and_remove() {
    let mut cache = QueryCache::new();
    let compiler = QueryCompiler::new();
    let pattern = get_test_pattern();
    let _result = cache.get_or_compile("test_key", pattern, &compiler);
    assert!(!cache.is_empty());
    let removed = cache.remove("test_key");
    assert!(removed.is_some());
    assert!(cache.is_empty());
    let _result = cache.get_or_compile("test_key", pattern, &compiler);
    assert!(!cache.is_empty());
    cache.clear().unwrap();
    assert!(cache.is_empty());
}

#[test]
fn full_cache_drops_its_oldest_query() {
    let mut cache = QueryCache::with_capacity(2);
    let compiler = QueryCompiler::new();
    let pattern = get_test_pattern();
    cache.get_or_compile("a", pattern, &compiler).unwrap();
    cache.get_or_compile("b", pattern, &compiler).unwrap();
    cache.get_or_compile("c", pattern, &compiler).unwrap();
    assert_eq!(cache.len(), 2);
    assert!(cache.get("a").is_none());
    assert_eq!(cache.get("c").unwrap().name(), "c");
    let stats = cache.stats().unwrap();
    assert_eq!(stats.evictions, 1);
    assert_eq!(stats.misses, 3);
    assert_eq!(stats.hits, 1);
}

#[test]
fn failed_compilation_is_not_cached() {
    let mut cache = QueryCache::new();
    let compiler = QueryCompiler::new();
    assert!(cache.get_or_compile("bad", "(recipe", &compiler).is_err());
    assert!(cache.is_empty());
    assert_eq!(cache.stats().unwrap().misses, 0);
}

#[test]
fn test_cache_integration() {
    let parser = ASTJustParser::new().unwrap();
    let stats = parser.cache_stats();
    println!("Cache stats: {:?}", stats.is_ok());
    let cache = parser.query_cache();
    assert_eq!(cache.len(), 0);
}

#[test]
fn executor_multiple_filtered_and_reset() {
    let mut parser = ASTJustParser::new().unwrap();
    let content = "a:\n    echo a\nb:\n    echo b\n";
    let tree = parser.parse_content(content).unwrap();
    let q1 = CompiledQuery::compile(get_test_pattern(), "headers".to_string()).unwrap();
    let q2 = CompiledQuery::compile("(recipe_body) @body", "bodies".to_string()).unwrap();
    let mut executor = QueryExecutor::new(content);
    let all = executor.execute_multiple(&[&q1, &q2], &tree).unwrap();
    assert_eq!(all.len(), 2);
    assert_eq!(all.get("headers").unwrap().len(), 2);
    assert_eq!(all.get("bodies").unwrap().len(), 2);
    let kinds = executor.execute(&q1, &tree).unwrap();
    let first_kind = kinds[0].result_type;
    let kept = executor.execute_filtered(&q1, &tree, &[first_kind]).unwrap();
    assert_eq!(kept.len(), 2);
    let none = executor.execute_filtered(&q1, &tree, &[QueryResultType::StringLiteral]).unwrap();
    assert!(none.iter().all(|r| r.result_type == QueryResultType::StringLiteral));
    executor.reset();
    assert_eq!(executor.execute(&q1, &tree).unwrap().len(), 2);
}

#[test]
fn grammar_facts_are_those_of_the_just_grammar() {
    let parser = ASTJustParser::new().unwrap();
    let stats = parser.stats();
    assert_eq!(stats.language_version, 15);
    assert_eq!(stats.node_kind_count, 120);
    assert_eq!(stats.field_count, 16);
}

#[test]
fn patterns_compile_or_report_the_regex_error() {
    use_pattern();
}

fn use_pattern() {
    let ok = just_mcp::pattern::Pattern::new(r"^(\w+):");
    assert!(ok.is_ok());
    let bad = just_mcp::pattern::Pattern::new("(unclosed");
    match bad {
        Err(m) => assert!(!m.is_empty()),
        Ok(_) => panic!("an unclosed group should not compile"),
    }
}

#[test]
fn test_query_executor_creation() {
    let source = "hello:\n    echo world";
    let executor = QueryExecutor::new(source);
    assert_eq!(executor.source(), source);
    assert_eq!(executor.max_matches(), 1000);
}

#[test]
fn test_query_executor_config() {
    let source = "test content";
    let config = QueryConfig {
        max_matches: 50,
        include_empty_captures: true,
        sort_by_position: false,
        max_recursion_depth: 5,
    };
    let executor = QueryExecutor::with_config(source, config.clone());
    assert_eq!(executor.max_matches(), 50);
}

#[test]
fn executor_byte_range_limits_the_matches() {
    let mut parser = ASTJustParser::new().unwrap();
    let content = "hello:\n    echo hi\n\nbuild target:\n    cargo build\n";
    let tree = parser.parse_content(content).unwrap();
    let query = CompiledQuery::compile(get_test_pattern(), "t".to_string()).unwrap();
    let mut executor = QueryExecutor::new(content);
    executor.set_byte_range(0, 5);
    let results = executor.execute(&query, &tree).unwrap();
    assert_eq!(results.len(), 1);
    assert_eq!(results[0].get_text("recipe.name"), Some("hello"));
    executor.reset();
    assert_eq!(executor.execute(&query, &tree).unwrap().len(), 2);
}

#[test]
fn parser_query_cache_compiles_and_counts() {
    let mut parser = ASTJustParser::new().unwrap();
    let compiler = just_mcp::parser::ast::cache::QueryCompiler::new();
    let first = parser.query_cache_mut().get_or_compile("names", get_test_pattern(), &compiler);
    assert!(first.is_ok());
    let again = parser.query_cache_mut().get_or_compile("names", get_test_pattern(), &compiler);
    assert!(again.is_ok());
    assert_eq!(parser.query_cache().len(), 1);
    let stats = parser.cache_stats().unwrap();
    assert_eq!(stats.misses, 1);
    assert_eq!(stats.hits, 1);
}

#[test]
fn executor_first_keeps_a_limit_of_one_after_a_failure() {
    let mut parser = ASTJustParser::new().unwrap();
    let content = "hello:\n    echo hi\n";
    let tree = parser.parse_content(content).unwrap();
    let query = CompiledQuery::compile(get_test_pattern(), "t".to_string()).unwrap();
    let mut failing = QueryExecutor::new("h");
    assert!(failing.execute_first(&query, &tree).is_err());
    assert_eq!(failing.max_matches(), 1);
    let mut reading = QueryExecutor::new(content);
    assert!(reading.execute_first(&query, &tree).unwrap().is_some());
    assert_eq!(reading.max_matches(), 1000);
}

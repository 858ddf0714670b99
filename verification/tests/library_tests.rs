use just_mcp::admin::{
    format_diagnostic_report, non_admin_tools, recipe_name_problem, recipe_text, CreateRecipeParams,
    ParserDiagnosticResult, RecipeParameter,
};
use just_mcp::cli::parse_key_val;
use just_mcp::escapes::process_escapes;
use just_mcp::parser::ast::nodes::NodeType;
use just_mcp::parser::ast::queries::{
    parse_attribute_arguments, AttributeInfo, CommentAssociator, DependencyErrorType, DependencyInfo,
    DependencyType, DependencyValidator, ExpressionEvaluator, NestedInterpolationProcessor, RecipeInfo,
};
use just_mcp::parser::ast::recipe_text::parse_parameters;
use just_mcp::strmap::StrMap;
use just_mcp::tools::{memory_profiler, perf_analysis};

#[test]
fn created_recipe_text_matches_the_layout() {
    let params = CreateRecipeParams {
        watch_name: None,
        recipe_name: "new_recipe".to_string(),
        description: Some("A new test recipe".to_string()),
        recipe: "echo \"hello world\"\necho \"second line\"".to_string(),
        parameters: Some(vec![RecipeParameter { name: "name".to_string(), default: Some("world".to_string()) }]),
        dependencies: Some(vec!["existing".to_string()]),
    };
    let existing = "\n# Existing task\nexisting:\n    echo \"existing\"\n";
    assert_eq!(
        recipe_text(existing, &params),
        "\n# A new test recipe\nnew_recipe name=\"world\": existing\n    echo \"hello world\"\n    echo \"second line\"\n"
    );
    let bare = CreateRecipeParams {
        watch_name: None,
        recipe_name: "b".to_string(),
        description: None,
        recipe: "x".to_string(),
        parameters: None,
        dependencies: None,
    };
    assert_eq!(recipe_text("a:", &bare), "\n\nb:\n    x\n");
    assert_eq!(recipe_text("", &bare), "b:\n    x\n");
}

#[test]
fn recipe_names_taken_or_reserved() {
    let tools = vec!["build".to_string(), "test@frontend".to_string()];
    assert_eq!(
        recipe_name_problem("build", &tools, "/p/justfile"),
        Some("Recipe 'build' already exists in /p/justfile".to_string())
    );
    assert_eq!(
        recipe_name_problem("test", &tools, "/p/justfile"),
        Some("Recipe 'test' already exists in /p/justfile".to_string())
    );
    assert_eq!(
        recipe_name_problem("_admin_x", &tools, "j"),
        Some("Recipe names starting with '_admin_' are reserved".to_string())
    );
    assert_eq!(recipe_name_problem("deploy", &tools, "j"), None);
    let all = vec!["_admin_sync".to_string(), "build".to_string(), "_admin_create_recipe".to_string()];
    assert_eq!(non_admin_tools(&all), vec!["build"]);
}

#[test]
fn diagnostic_report_counts_and_lists() {
    let expected = vec!["a".to_string(), "b".to_string()];
    let ast = ParserDiagnosticResult {
        found_recipes: vec!["a".to_string()],
        missing_recipes: Vec::new(),
        parsing_errors: Vec::new(),
        parser_name: "AST".to_string(),
    };
    let cli = ParserDiagnosticResult {
        found_recipes: vec!["a".to_string(), "b".to_string()],
        missing_recipes: Vec::new(),
        parsing_errors: vec!["oops".to_string()],
        parser_name: "CLI".to_string(),
    };
    let report = format_diagnostic_report(&expected, &ast, &cli, true);
    assert_eq!(
        report,
        "# Parser Diagnostic Report\n\n## Summary\n- Expected: 2\n- AST parser: 1 (50%) | Missing: 1\n- CLI parser: 2 (100%) | Missing: 0\n\n## AST Parser Issues\n### Missing Recipes (1):\n- `b`\n\n## CLI Parser Issues\n### Parsing Errors (1):\n- oops\n"
    );
    let short = format_diagnostic_report(&expected, &ast, &cli, false);
    assert!(short.ends_with("- CLI parser: 2 (100%) | Missing: 0\n"));
}

#[test]
fn key_value_pairs() {
    assert_eq!(parse_key_val("a=b=c"), Ok(("a".to_string(), "b=c".to_string())));
    assert_eq!(parse_key_val("=x"), Ok((String::new(), "x".to_string())));
    assert_eq!(parse_key_val("novalue"), Err("invalid KEY=value: no `=` found in `novalue`".to_string()));
}

#[test]
fn generated_justfiles() {
    assert_eq!(
        memory_profiler::generate_justfile(2),
        "# Simple task 0\ntask-0:\n    echo \"Running task 0\"\n\n# Parameterized task 1\ntask-1 param=\"value1\":\n    echo \"{{param}}\"\n    echo \"Task 1 complete\"\n\n"
    );
    let perf = perf_analysis::generate_justfile(0);
    assert!(perf.starts_with("# Generated justfile for performance testing\n\n"));
    assert_eq!(perf_analysis::average_nanos(&[10, 20, 31]), 20);
}

#[test]
fn node_kinds() {
    assert_eq!(NodeType::from_kind("source_file"), NodeType::Justfile);
    assert_eq!(NodeType::from_kind("recipe_body"), NodeType::Body);
    assert_eq!(NodeType::from_kind("NAME"), NodeType::Identifier);
    assert_eq!(NodeType::from_kind("weird"), NodeType::Unknown("weird".to_string()));
}

#[test]
fn string_map_reads_back_what_was_written() {
    let mut m: StrMap<u32> = StrMap::new();
    assert_eq!(m.insert("a".to_string(), 1), None);
    assert_eq!(m.insert("b".to_string(), 2), None);
    assert_eq!(m.insert("a".to_string(), 3), Some(1));
    assert_eq!(m.get("a"), Some(&3));
    assert_eq!(m.get("b"), Some(&2));
    assert_eq!(m.get("c"), None);
    assert_eq!(m.len(), 2);
}

fn recipe(name: &str, line: usize) -> RecipeInfo {
    RecipeInfo { name: name.to_string(), line_number: line, has_parameters: false, has_dependencies: true, has_body: true }
}

fn dep_at(name: &str, line: usize) -> DependencyInfo {
    let mut d = DependencyInfo::simple(name.to_string());
    d.position = Some((line, 4));
    d
}

#[test]
fn dependency_cycles_and_missing_targets() {
    let recipes = vec![recipe("a", 1), recipe("b", 10)];
    let deps = vec![dep_at("b", 1), dep_at("a", 10), dep_at("ghost", 2)];
    let result = DependencyValidator::validate_all_dependencies(&recipes, &deps);
    assert_eq!(result.circular_dependencies.len(), 1);
    let cycle = &result.circular_dependencies[0];
    assert_eq!(cycle.first(), cycle.last());
    assert!(cycle.contains(&"a".to_string()) && cycle.contains(&"b".to_string()));
    assert_eq!(result.missing_dependencies, vec!["ghost"]);
    assert!(result.invalid_dependencies.is_empty());
    assert!(result.has_errors());

    let acyclic = DependencyValidator::validate_all_dependencies(&recipes, &[dep_at("b", 1)]);
    assert!(acyclic.circular_dependencies.is_empty());
    assert!(!acyclic.has_errors());
}

#[test]
fn a_two_recipe_cycle_is_reported_once_and_simply() {
    let recipes = vec![recipe("a", 1), recipe("b", 10)];
    let deps = vec![dep_at("b", 1), dep_at("a", 10)];
    let result = DependencyValidator::validate_all_dependencies(&recipes, &deps);
    assert_eq!(result.circular_dependencies.len(), 1);
    let cycle: Vec<&str> = result.circular_dependencies[0].iter().map(|s| s.as_str()).collect();
    assert!(cycle == vec!["a", "b", "a"] || cycle == vec!["b", "a", "b"]);
    assert!(result.missing_dependencies.is_empty());
    assert!(result.invalid_dependencies.is_empty());
    assert!(result.has_errors());
    assert_eq!(result.error_count(), 1);
}

#[test]
fn malformed_dependencies_are_reported() {
    let broken = DependencyInfo {
        name: "build".to_string(),
        arguments: Vec::new(),
        is_conditional: true,
        condition: None,
        position: None,
        dependency_type: DependencyType::Conditional,
    };
    let result = DependencyValidator::validate_all_dependencies(&[recipe("build", 1)], &[broken]);
    assert_eq!(result.invalid_dependencies.len(), 1);
    assert_eq!(result.invalid_dependencies[0].error_type, DependencyErrorType::InvalidStructure);
    assert_eq!(result.invalid_dependencies[0].message, "Dependency has invalid structure");
    assert_eq!(result.error_count(), 1);
}

#[test]
fn nested_interpolation_checks() {
    assert!(NestedInterpolationProcessor::validate_nested_syntax("{{a}} and {{b}}").is_ok());
    assert_eq!(
        NestedInterpolationProcessor::validate_nested_syntax("x}}"),
        Err("Unmatched '}' at position 1".to_string())
    );
    assert_eq!(
        NestedInterpolationProcessor::validate_nested_syntax("a {{b"),
        Err("Unclosed '{{' at position 2".to_string())
    );
    assert_eq!(NestedInterpolationProcessor::check_nesting_depth("{{ {{x}} }}", 3), Ok(2));
    assert_eq!(
        NestedInterpolationProcessor::check_nesting_depth("{{ {{x}} }}", 1),
        Err("Nesting depth 2 exceeds maximum allowed depth 1".to_string())
    );
}

#[test]
fn escapes_are_resolved() {
    assert_eq!(process_escapes("a\\nb\\t\\\\"), "a\nb\t\\");
    assert_eq!(process_escapes("\\x41\\u{1F600}\\q"), "A\u{1F600}\\q");
    assert_eq!(ExpressionEvaluator::process_string_escapes("\\'x\\'"), "'x'");
}

#[test]
fn law_text_without_backslash_is_unchanged() {
    for s in ["", "plain text", "quotes \" and ' stay", "uni\u{e9}code"] {
        assert_eq!(process_escapes(s), s);
    }
}

#[test]
fn law_displayed_attribute_value_reads_back() {
    for v in ["test", "Are you sure?", "a, b", "deploy \"prod\""] {
        let attr = AttributeInfo::with_value("group".to_string(), v.to_string(), 1);
        let shown = attr.format_display();
        let args = &shown["[group".len()..shown.len() - 1];
        assert_eq!(parse_attribute_arguments(args), vec![v.to_string()]);
    }
}

#[test]
fn law_constructed_attributes_valid_iff_no_errors() {
    let attrs = vec![
        AttributeInfo::new("private".to_string(), 1),
        AttributeInfo::new("group".to_string(), 1),
        AttributeInfo::with_value("doc".to_string(), "d".to_string(), 1),
        AttributeInfo::with_arguments("confirm".to_string(), vec!["a".to_string(), "b".to_string()], 1),
        AttributeInfo::with_value("private".to_string(), "x".to_string(), 1),
        AttributeInfo::new(String::new(), 1),
    ];
    for a in attrs {
        assert_eq!(a.is_valid(), a.validation_errors().is_empty(), "{:?}", a);
    }
}

#[test]
fn law_doc_comment_round_trip() {
    for (name, desc) in [("target", "build target mode"), ("x_1", "a: b (c)"), ("n", "d")] {
        let comment = format!("{{{{{}}}}}: {}", name, desc);
        assert_eq!(
            CommentAssociator::parse_parameter_doc_comment(&comment),
            Some((name.to_string(), desc.to_string()))
        );
    }
}

#[test]
fn law_parameter_round_trip() {
    for (name, default) in [("target", "debug"), ("p", ""), ("mode", "a \"quoted\" b")] {
        let written = format!("{}=\"{}\"", name, default);
        let params = parse_parameters(&written);
        assert_eq!(params.len(), 1);
        assert_eq!(params[0].name, name);
        assert_eq!(params[0].default.as_deref(), Some(default));
    }
}

#[test]
fn numeric_literals_need_a_digit() {
    for s in ["42", "-7", "3.14", ".5", "5."] {
        assert!(ExpressionEvaluator::is_numeric_literal(s), "{s}");
    }
    for s in ["", ".", "1e5", "abc", "1.2.3", "-", "-."] {
        assert!(!ExpressionEvaluator::is_numeric_literal(s), "{s}");
    }
}

#[test]
fn known_attribute_names_read_back() {
    use_known_kinds();
}

fn use_known_kinds() {
    let kinds = just_mcp::parser::ast::queries::AttributeType::all_known_types();
    assert_eq!(kinds.len(), 10);
    for t in kinds {
        let back = just_mcp::parser::ast::queries::AttributeType::from_name(&t.to_string());
        assert_eq!(back, t);
    }
}

#[test]
fn conditionals_read_back_from_their_text() {
    type C = just_mcp::parser::ast::queries::ConditionalExpressionInfo;
    let forms = vec![
        C::if_then("debug".to_string(), "verbose".to_string()),
        C::if_then_else("flag".to_string(), "yes_1".to_string(), "no_2".to_string()),
        C::ternary("x".to_string(), "a".to_string(), "b".to_string()),
    ];
    for x in forms {
        assert_eq!(x.format_display(), x.full_expression);
        let back = ExpressionEvaluator::parse_conditional_expression(&x.format_display()).unwrap();
        assert_eq!(back.condition, x.condition);
        assert_eq!(back.true_branch, x.true_branch);
        assert_eq!(back.false_branch, x.false_branch);
        assert_eq!(back.conditional_type, x.conditional_type);
    }
    assert_eq!(
        ExpressionEvaluator::parse_conditional_expression("plain text").unwrap_err(),
        "Cannot parse conditional expression: plain text"
    );
}

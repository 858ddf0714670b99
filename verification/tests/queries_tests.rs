use just_mcp::parser::ast::queries::{
    parse_attribute_arguments, AttributeInfo, AttributeType, CommentAssociator, CommentInfo,
    DependencyInfo, DependencyType, ExpressionEvaluator, ParameterInfo, ParameterType,
    QueryCapture, QueryCompilationError, QueryConfig, QueryPatterns, QueryResult,
    QueryResultProcessor, QueryResultType, RecipeInfo,
};
use just_mcp::strmap::StrMap;

fn capture(text: &str, start: (usize, usize), end: (usize, usize), bytes: (usize, usize), kind: &str) -> QueryCapture {
    QueryCapture::new(text.to_string(), start, end, bytes, kind.to_string())
}

#[test]
fn test_query_patterns_creation() {
    let patterns = QueryPatterns::new();

    assert!(!patterns.recipes.is_empty());
    assert!(!patterns.parameters.is_empty());
    assert!(!patterns.dependencies.is_empty());
    assert!(!patterns.comments.is_empty());
    assert!(!patterns.attributes.is_empty());
    assert!(!patterns.identifiers.is_empty());
    assert!(!patterns.bodies.is_empty());
    assert!(!patterns.assignments.is_empty());
}

#[test]
fn test_query_patterns_content() {
    let patterns = QueryPatterns::new();

    assert!(patterns.recipes.contains("@recipe.name"));
    assert!(patterns.parameters.contains("@parameter.name"));
    assert!(patterns.dependencies.contains("@dependency.name"));
    assert!(patterns.comments.contains("@comment"));
    assert!(patterns.attributes.contains("@attribute"));
}

#[test]
fn test_query_result_creation() {
    let mut captures = StrMap::new();
    captures.insert("recipe.name".to_string(), capture("test", (0, 0), (0, 4), (0, 4), "identifier"));

    let result = QueryResult::new(QueryResultType::Recipe, captures.clone(), 0);

    assert_eq!(result.result_type, QueryResultType::Recipe);
    assert_eq!(result.pattern_index, 0);
    assert!(result.has_capture("recipe.name"));
    assert_eq!(result.get_text("recipe.name"), Some("test"));
}

#[test]
fn test_query_result_type_inference() {
    let mut captures = StrMap::new();
    captures.insert("recipe.name".to_string(), capture("test", (0, 0), (0, 4), (0, 4), "identifier"));

    let result_type = QueryResult::infer_type(&captures, 0);
    assert_eq!(result_type, QueryResultType::Recipe);

    let mut param_captures = StrMap::new();
    param_captures.insert("parameter.name".to_string(), capture("param", (1, 0), (1, 5), (10, 15), "identifier"));

    let param_type = QueryResult::infer_type(&param_captures, 0);
    assert_eq!(param_type, QueryResultType::Parameter);
}

#[test]
fn test_query_capture_utilities() {
    let capture = capture("test_recipe", (5, 10), (5, 21), (100, 111), "identifier");

    assert_eq!(capture.line_number(), 6);
    assert_eq!(capture.column_number(), 10);
    assert!(!capture.is_empty());

    let empty_capture = QueryCapture::new("   ".to_string(), (0, 0), (0, 3), (0, 3), "whitespace".to_string());
    assert!(empty_capture.is_empty());
}

#[test]
fn test_query_compilation_error() {
    let error = QueryCompilationError::new("Invalid node type".to_string(), 42, "invalid_query".to_string());

    assert_eq!(error.offset, 42);
    assert!(error.message.contains("Invalid node type"));

    let error_str = error.to_string();
    assert!(error_str.contains("offset 42"));
}

#[test]
fn test_display_implementations() {
    assert_eq!(QueryResultType::Recipe.to_string(), "recipe");
    assert_eq!(QueryResultType::Parameter.to_string(), "parameter");
    assert_eq!(QueryResultType::Unknown.to_string(), "unknown");
}

#[test]
fn test_query_config_default() {
    let config = QueryConfig::default();
    assert_eq!(config.max_matches, 1000);
    assert!(!config.include_empty_captures);
    assert!(config.sort_by_position);
    assert_eq!(config.max_recursion_depth, 10);
}

#[test]
fn test_recipe_info_creation() {
    let recipe = RecipeInfo {
        name: "test_recipe".to_string(),
        line_number: 5,
        has_parameters: true,
        has_dependencies: false,
        has_body: true,
    };

    assert_eq!(recipe.name, "test_recipe");
    assert_eq!(recipe.line_number, 5);
    assert!(recipe.has_parameters);
    assert!(!recipe.has_dependencies);
    assert!(recipe.has_body);
}

#[test]
fn test_parameter_info_creation() {
    let param = ParameterInfo {
        name: "target".to_string(),
        default_value: Some("debug".to_string()),
        is_variadic: false,
        is_required: false,
        description: Some("Build target".to_string()),
        parameter_type: ParameterType::String,
        raw_default: Some("\"debug\"".to_string()),
        position: Some((10, 5)),
    };

    assert_eq!(param.name, "target");
    assert_eq!(param.default_value, Some("debug".to_string()));
    assert!(!param.is_variadic);
    assert!(!param.is_required);
    assert_eq!(param.description, Some("Build target".to_string()));
    assert_eq!(param.parameter_type, ParameterType::String);

    let variadic_param = ParameterInfo {
        name: "args".to_string(),
        default_value: None,
        is_variadic: true,
        is_required: false,
        description: None,
        parameter_type: ParameterType::Array,
        raw_default: None,
        position: None,
    };

    assert!(variadic_param.is_variadic);
    assert!(variadic_param.default_value.is_none());
    assert_eq!(variadic_param.parameter_type, ParameterType::Array);
}

#[test]
fn test_dependency_info_creation() {
    let dep = DependencyInfo::simple("build".to_string());
    assert_eq!(dep.name, "build");
    assert_eq!(dep.dependency_type, DependencyType::Simple);
    assert!(!dep.has_arguments());
    assert!(!dep.has_condition());
    assert!(dep.is_valid());
}

#[test]
fn test_comment_info_creation() {
    let comment = CommentInfo { text: "This is a test comment".to_string(), line_number: 3 };

    assert_eq!(comment.text, "This is a test comment");
    assert_eq!(comment.line_number, 3);
}

#[test]
fn test_query_result_processor_grouping() {
    let mut captures1 = StrMap::new();
    captures1.insert("recipe.name".to_string(), capture("recipe1", (0, 0), (0, 7), (0, 7), "identifier"));

    let mut captures2 = StrMap::new();
    captures2.insert("recipe.name".to_string(), capture("recipe2", (1, 0), (1, 7), (10, 17), "identifier"));

    let results = vec![
        QueryResult::new(QueryResultType::Recipe, captures1, 0),
        QueryResult::new(QueryResultType::Recipe, captures2, 0),
    ];

    let grouped = QueryResultProcessor::group_by_recipe(&results);
    assert_eq!(grouped.len(), 2);
    assert!(grouped.contains_key("recipe1"));
    assert!(grouped.contains_key("recipe2"));
}

#[test]
fn test_query_result_extraction() {
    let mut recipe_captures = StrMap::new();
    recipe_captures.insert("recipe.name".to_string(), capture("test_recipe", (0, 0), (0, 11), (0, 11), "identifier"));
    recipe_captures.insert("recipe.parameters".to_string(), capture("(param)", (0, 11), (0, 18), (11, 18), "parameters"));

    let recipe_result = QueryResult::new(QueryResultType::Recipe, recipe_captures, 0);
    let results = vec![recipe_result];

    let recipes = QueryResultProcessor::extract_recipes(&results);
    assert_eq!(recipes.len(), 1);
    assert_eq!(recipes[0].name, "test_recipe");
    assert!(recipes[0].has_parameters);
}

#[test]
fn test_query_compilation_error_display() {
    let error = QueryCompilationError::new("Invalid syntax".to_string(), 25, "test pattern".to_string());

    let display_str = error.to_string();
    assert!(display_str.contains("offset 25"));
    assert!(display_str.contains("Invalid syntax"));
}

#[test]
fn test_parameter_type_inference() {
    assert_eq!(ParameterType::infer_from_default("true"), ParameterType::Boolean);
    assert_eq!(ParameterType::infer_from_default("false"), ParameterType::Boolean);
    assert_eq!(ParameterType::infer_from_default("42"), ParameterType::Number);
    assert_eq!(ParameterType::infer_from_default("3.14"), ParameterType::Number);
    assert_eq!(ParameterType::infer_from_default("./config.json"), ParameterType::Path);
    assert_eq!(ParameterType::infer_from_default("/usr/bin"), ParameterType::Path);
    assert_eq!(ParameterType::infer_from_default("debug"), ParameterType::String);

    assert_eq!(ParameterType::infer_from_name("input_file"), ParameterType::Path);
    assert_eq!(ParameterType::infer_from_name("output_path"), ParameterType::Path);
    assert_eq!(ParameterType::infer_from_name("count"), ParameterType::Number);
    assert_eq!(ParameterType::infer_from_name("port_number"), ParameterType::Number);
    assert_eq!(ParameterType::infer_from_name("enable_debug"), ParameterType::Boolean);
    assert_eq!(ParameterType::infer_from_name("force_rebuild"), ParameterType::Boolean);
    assert_eq!(ParameterType::infer_from_name("target"), ParameterType::String);
}

#[test]
fn test_expression_evaluator() {
    assert_eq!(ExpressionEvaluator::evaluate_default_expression("\"hello\""), "hello");
    assert_eq!(ExpressionEvaluator::evaluate_default_expression("'world'"), "world");
    assert_eq!(ExpressionEvaluator::evaluate_default_expression("debug"), "debug");
    assert_eq!(ExpressionEvaluator::evaluate_default_expression("  release  "), "release");

    assert!(ExpressionEvaluator::is_complex_expression("{{var}}"));
    assert!(ExpressionEvaluator::is_complex_expression("func()"));
    assert!(ExpressionEvaluator::is_complex_expression("a + b"));
    assert!(!ExpressionEvaluator::is_complex_expression("simple"));
    assert!(!ExpressionEvaluator::is_complex_expression("\"quoted\""));

    let mut vars = ExpressionEvaluator::extract_variable_references("Hello {{name}} from {{location}}!");
    vars.sort();
    assert_eq!(vars, vec!["location", "name"]);

    let empty_vars = ExpressionEvaluator::extract_variable_references("No variables here");
    assert!(empty_vars.is_empty());
}

#[test]
fn test_comment_associator() {
    let mut parameters = vec![
        ParameterInfo {
            name: "target".to_string(),
            default_value: Some("debug".to_string()),
            is_variadic: false,
            is_required: false,
            description: None,
            parameter_type: ParameterType::String,
            raw_default: Some("\"debug\"".to_string()),
            position: Some((10, 5)),
        },
        ParameterInfo {
            name: "count".to_string(),
            default_value: Some("5".to_string()),
            is_variadic: false,
            is_required: false,
            description: None,
            parameter_type: ParameterType::Number,
            raw_default: Some("5".to_string()),
            position: Some((12, 5)),
        },
    ];

    let comments = vec![
        CommentInfo { text: "{{target}}: build target mode".to_string(), line_number: 8 },
        CommentInfo { text: "{{count}}: number of items to process".to_string(), line_number: 11 },
    ];

    CommentAssociator::associate_parameter_descriptions(&mut parameters, &comments);

    assert_eq!(parameters[0].description, Some("build target mode".to_string()));
    assert_eq!(parameters[1].description, Some("number of items to process".to_string()));
}

#[test]
fn test_parameter_type_display() {
    assert_eq!(ParameterType::String.to_string(), "string");
    assert_eq!(ParameterType::Number.to_string(), "number");
    assert_eq!(ParameterType::Boolean.to_string(), "boolean");
    assert_eq!(ParameterType::Path.to_string(), "path");
    assert_eq!(ParameterType::Array.to_string(), "array");
    assert_eq!(ParameterType::Unknown.to_string(), "unknown");
}

#[test]
fn test_comment_doc_parsing() {
    let result = CommentAssociator::parse_parameter_doc_comment("{{name}}: person to greet");
    assert_eq!(result, Some(("name".to_string(), "person to greet".to_string())));

    let result = CommentAssociator::parse_parameter_doc_comment("{{target}}: build target mode (debug, release)");
    assert_eq!(result, Some(("target".to_string(), "build target mode (debug, release)".to_string())));

    let no_result = CommentAssociator::parse_parameter_doc_comment("Just a regular comment");
    assert_eq!(no_result, None);
}

#[test]
fn test_enhanced_parameter_extraction() {
    let mut param_captures = StrMap::new();
    param_captures.insert("parameter.name".to_string(), capture("target", (10, 5), (10, 11), (100, 106), "identifier"));
    param_captures.insert("parameter.default".to_string(), capture("\"debug\"", (10, 12), (10, 19), (107, 114), "string"));

    let param_result = QueryResult::new(QueryResultType::Parameter, param_captures, 0);

    let mut comment_captures = StrMap::new();
    comment_captures.insert(
        "comment.line".to_string(),
        capture("{{target}}: build target mode", (8, 0), (8, 29), (80, 109), "comment"),
    );

    let comment_result = QueryResult::new(QueryResultType::Comment, comment_captures, 0);

    let parameters =
        QueryResultProcessor::extract_parameters_with_descriptions(&[param_result], &[comment_result]);

    assert_eq!(parameters.len(), 1);
    let param = &parameters[0];
    assert_eq!(param.name, "target");
    assert_eq!(param.default_value, Some("debug".to_string()));
    assert_eq!(param.parameter_type, ParameterType::String);
    assert!(!param.is_required);
}

#[test]
fn test_attribute_info_creation() {
    let private_attr = AttributeInfo::new("private".to_string(), 5);
    assert_eq!(private_attr.name, "private");
    assert_eq!(private_attr.attribute_type, AttributeType::Private);
    assert!(private_attr.is_boolean);
    assert!(private_attr.arguments.is_empty());
    assert!(private_attr.is_valid());

    let group_attr = AttributeInfo::with_value("group".to_string(), "test".to_string(), 10);
    assert_eq!(group_attr.name, "group");
    assert_eq!(group_attr.attribute_type, AttributeType::Group);
    assert!(!group_attr.is_boolean);
    assert_eq!(group_attr.arguments, vec!["test"]);
    assert_eq!(group_attr.get_value(), Some("test"));
    assert!(group_attr.is_valid());

    let confirm_attr = AttributeInfo::with_value("confirm".to_string(), "Are you sure?".to_string(), 15);
    assert_eq!(confirm_attr.attribute_type, AttributeType::Confirm);
    assert_eq!(confirm_attr.get_value(), Some("Are you sure?"));
    assert!(confirm_attr.is_valid());

    let doc_attr = AttributeInfo::with_value("doc".to_string(), "Test documentation".to_string(), 20);
    assert_eq!(doc_attr.attribute_type, AttributeType::Doc);
    assert_eq!(doc_attr.get_value(), Some("Test documentation"));
    assert!(doc_attr.is_valid());
}

#[test]
fn test_attribute_validation() {
    let valid_group = AttributeInfo::with_value("group".to_string(), "deployment".to_string(), 1);
    assert!(valid_group.is_valid());
    assert!(valid_group.validation_errors().is_empty());

    let invalid_group = AttributeInfo::new("group".to_string(), 1);
    assert!(!invalid_group.is_valid());
    let errors = invalid_group.validation_errors();
    assert!(!errors.is_empty());
    assert!(errors[0].contains("Group attribute requires exactly one argument"));

    let mut invalid_private = AttributeInfo::new("private".to_string(), 1);
    invalid_private.arguments = vec!["invalid".to_string()];
    invalid_private.is_boolean = false;
    assert!(!invalid_private.is_valid());
    let errors = invalid_private.validation_errors();
    assert!(errors.iter().any(|e| e.contains("does not accept arguments")));
}

#[test]
fn test_attribute_type_detection() {
    assert_eq!(AttributeType::from_name("group"), AttributeType::Group);
    assert_eq!(AttributeType::from_name("private"), AttributeType::Private);
    assert_eq!(AttributeType::from_name("confirm"), AttributeType::Confirm);
    assert_eq!(AttributeType::from_name("doc"), AttributeType::Doc);
    assert_eq!(AttributeType::from_name("no-cd"), AttributeType::NoCD);
    assert_eq!(AttributeType::from_name("windows"), AttributeType::Windows);
    assert_eq!(AttributeType::from_name("unix"), AttributeType::Unix);
    assert_eq!(AttributeType::from_name("linux"), AttributeType::Linux);
    assert_eq!(AttributeType::from_name("macos"), AttributeType::MacOS);

    if let AttributeType::Unknown(name) = AttributeType::from_name("custom") {
        assert_eq!(name, "custom");
    } else {
        panic!("Expected Unknown attribute type");
    }
}

#[test]
fn test_attribute_validation_conflicts() {
    let group1 = AttributeInfo::with_value("group".to_string(), "test1".to_string(), 1);
    let group2 = AttributeInfo::with_value("group".to_string(), "test2".to_string(), 2);
    let private = AttributeInfo::new("private".to_string(), 3);
    let confirm = AttributeInfo::with_value("confirm".to_string(), "Sure?".to_string(), 4);
    let windows = AttributeInfo::new("windows".to_string(), 5);
    let linux = AttributeInfo::new("linux".to_string(), 6);

    let errors = QueryResultProcessor::validate_attributes(&[group1.clone(), group2.clone()]);
    assert!(errors.iter().any(|e| e.contains("multiple group attributes")));

    let errors = QueryResultProcessor::validate_attributes(&[private.clone(), confirm.clone()]);
    assert!(errors.iter().any(|e| e.contains("Private recipe") && e.contains("confirm attribute")));

    let errors = QueryResultProcessor::validate_attributes(&[windows.clone(), linux.clone()]);
    assert!(errors.iter().any(|e| e.contains("conflicting platform attributes")));

    let errors = QueryResultProcessor::validate_attributes(&[group1, confirm]);
    assert!(errors.is_empty());
}

#[test]
fn test_parse_attribute_arguments() {
    assert_eq!(parse_attribute_arguments("'test'"), vec!["test"]);
    assert_eq!(parse_attribute_arguments("\"test\""), vec!["test"]);

    assert_eq!(parse_attribute_arguments("('test')"), vec!["test"]);
    assert_eq!(parse_attribute_arguments("('test', 'value')"), vec!["test", "value"]);

    assert_eq!(parse_attribute_arguments("test"), vec!["test"]);

    assert_eq!(parse_attribute_arguments(""), Vec::<String>::new());
    assert_eq!(parse_attribute_arguments("()"), Vec::<String>::new());
}

#[test]
fn test_attribute_display_formatting() {
    let private = AttributeInfo::new("private".to_string(), 1);
    assert_eq!(private.format_display(), "[private]");

    let group = AttributeInfo::with_value("group".to_string(), "test".to_string(), 1);
    assert_eq!(group.format_display(), "[group('test')]");

    let confirm = AttributeInfo::new("confirm".to_string(), 1);
    assert_eq!(confirm.format_display(), "[confirm]");

    let confirm_msg = AttributeInfo::with_value("confirm".to_string(), "Are you sure?".to_string(), 1);
    assert_eq!(confirm_msg.format_display(), "[confirm('Are you sure?')]");
}

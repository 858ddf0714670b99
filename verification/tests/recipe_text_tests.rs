use just_mcp::parser::ast::errors::ASTError;
use just_mcp::parser::ast::queries::{
    AttributeInfo, CommentInfo, DependencyInfo, ParameterInfo, ParameterType, RecipeInfo,
};
use just_mcp::parser::ast::recipe_text::{
    assemble_tasks, extract_attribute_metadata, extract_recipe_body, extract_recipe_name_from_text,
    parse_parameters, parse_recipe_declaration, parse_recipe_line, parse_recipe_text,
    parse_space_separated_parameters, split_parameters,
};
use just_mcp::parser::legacy::parse_dependencies;
use just_mcp::types::Parameter;

fn pairs(ps: &[Parameter]) -> Vec<(String, Option<String>)> {
    ps.iter().map(|p| (p.name.clone(), p.default.clone())).collect()
}

fn pair(name: &str, default: Option<&str>) -> (String, Option<String>) {
    (name.to_string(), default.map(|d| d.to_string()))
}

#[test]
fn test_parameter_parsing() {
    let test_cases = vec![
        ("param", vec![("param", None)]),
        ("param=\"default\"", vec![("param", Some("default"))]),
        ("p1 p2=\"val\"", vec![("p1 p2", Some("val"))]),
        ("a=\"x\",b='y',c=z", vec![("a", Some("x")), ("b", Some("y")), ("c", Some("z"))]),
    ];

    for (input, expected) in test_cases {
        let params = parse_parameters(input);
        let expected: Vec<(String, Option<String>)> = expected.into_iter().map(|(n, d)| pair(n, d)).collect();
        assert_eq!(pairs(&params), expected, "Failed to parse: {}", input);
    }
}

#[test]
fn split_parameters_respects_quotes() {
    assert_eq!(split_parameters("a='x,y', b"), vec!["a='x,y'", "b"]);
    assert_eq!(split_parameters(" , ,"), Vec::<String>::new());
    assert_eq!(split_parameters("\"a,b\""), vec!["\"a,b\""]);
}

#[test]
fn space_separated_parameters_keep_each_word() {
    let words = vec!["target=\"debug\"".to_string(), "verbose".to_string()];
    let params = parse_space_separated_parameters(&words);
    assert_eq!(pairs(&params), vec![pair("target", Some("debug")), pair("verbose", None)]);
}

#[test]
fn declarations_with_and_without_parentheses() {
    let (name, params) = parse_recipe_declaration("build(target='x', mode)");
    assert_eq!(name, "build");
    assert_eq!(pairs(&params), vec![pair("target", Some("x")), pair("mode", None)]);

    let (name, params) = parse_recipe_declaration("test filter=\"\"");
    assert_eq!(name, "test");
    assert_eq!(pairs(&params), vec![pair("filter", Some(""))]);

    let (name, params) = parse_recipe_declaration("lint");
    assert_eq!(name, "lint");
    assert!(params.is_empty());
}

#[test]
fn recipe_line_splits_dependencies() {
    let (name, params, deps) = parse_recipe_line("deploy env=\"prod\": build test").unwrap();
    assert_eq!(name, "deploy");
    assert_eq!(pairs(&params), vec![pair("env", Some("prod"))]);
    assert_eq!(deps, vec!["build", "test"]);

    match parse_recipe_line("no colon here") {
        Err(ASTError::ParameterParsing { recipe_name, details }) => {
            assert_eq!(recipe_name, "unknown");
            assert_eq!(details, "Recipe line does not contain colon");
        }
        other => panic!("unexpected result: {:?}", other),
    }
}

#[test]
fn body_is_the_indented_run_after_the_header() {
    let lines: Vec<String> = vec!["# doc", "build:", "    cargo build", "", "\techo done", "next:", "    other"]
        .into_iter()
        .map(|s| s.to_string())
        .collect();
    assert_eq!(extract_recipe_body(&lines, "build:"), "cargo build\n\n\techo done");
    assert_eq!(extract_recipe_body(&lines, "missing:"), "");
}

#[test]
fn recipe_text_reads_comments_header_and_body() {
    let text = "# Build the project\nbuild target=\"debug\": fmt lint\n    cargo build --target={{target}}\n    echo built\nnext:\n";
    let task = parse_recipe_text(text, 7).unwrap();
    assert_eq!(task.name, "build");
    assert_eq!(pairs(&task.parameters), vec![pair("target", Some("debug"))]);
    assert_eq!(task.dependencies, vec!["fmt", "lint"]);
    assert_eq!(task.comments, vec!["Build the project"]);
    assert_eq!(task.body, "cargo build --target={{target}}\n    echo built");
    assert_eq!(task.line_number, 7);
    assert!(!task.is_private);
    assert!(task.group.is_none());

    let private = parse_recipe_text("_helper:\n    echo hi", 1).unwrap();
    assert!(private.is_private);
}

#[test]
fn recipe_text_without_header_is_an_error() {
    match parse_recipe_text("# only a comment\nx := 1\n", 1) {
        Err(ASTError::RecipeExtraction { recipe_name, reason }) => {
            assert_eq!(recipe_name, "unknown");
            assert_eq!(reason, "No recipe line found");
        }
        other => panic!("unexpected result: {:?}", other),
    }
}

#[test]
fn recipe_name_from_text_skips_assignments_and_comments() {
    assert_eq!(extract_recipe_name_from_text("# note: x\nversion := \"1\"\nbuild(a): dep"), Some("build".to_string()));
    assert_eq!(extract_recipe_name_from_text("test filter=\"\":\n    cargo test"), Some("test".to_string()));
    assert_eq!(extract_recipe_name_from_text(": no name\nlint:"), Some("lint".to_string()));
    assert_eq!(extract_recipe_name_from_text("just text"), None);
}

#[test]
fn attribute_metadata_takes_the_last_of_each_kind() {
    let attrs = vec![
        AttributeInfo::with_value("group".to_string(), "first".to_string(), 1),
        AttributeInfo::new("private".to_string(), 2),
        AttributeInfo::new("confirm".to_string(), 3),
        AttributeInfo::with_value("doc".to_string(), "Docs".to_string(), 4),
        AttributeInfo::with_value("group".to_string(), "second".to_string(), 5),
    ];
    let (group, private, confirm, doc) = extract_attribute_metadata(&attrs);
    assert_eq!(group, Some("second".to_string()));
    assert!(private);
    assert_eq!(confirm, Some("Are you sure?".to_string()));
    assert_eq!(doc, Some("Docs".to_string()));

    let (group, private, confirm, doc) = extract_attribute_metadata(&[]);
    assert!(group.is_none() && !private && confirm.is_none() && doc.is_none());
}

fn param_info(name: &str, default: Option<&str>, line: usize) -> ParameterInfo {
    ParameterInfo {
        name: name.to_string(),
        default_value: default.map(|d| d.to_string()),
        is_variadic: false,
        is_required: default.is_none(),
        description: None,
        parameter_type: ParameterType::String,
        raw_default: default.map(|d| format!("\"{}\"", d)),
        position: Some((line, 6)),
    }
}

#[test]
fn tasks_are_assembled_from_nearby_information() {
    let recipes = vec![
        RecipeInfo { name: "build".to_string(), line_number: 10, has_parameters: true, has_dependencies: true, has_body: true },
        RecipeInfo { name: "deploy".to_string(), line_number: 30, has_parameters: false, has_dependencies: true, has_body: true },
    ];
    let parameters = vec![param_info("target", Some("debug"), 10), param_info("far", None, 25)];
    let mut dep_build = DependencyInfo::simple("fmt".to_string());
    dep_build.position = Some((10, 8));
    let mut dep_deploy = DependencyInfo::parameterized("build".to_string(), vec!["release".to_string()]);
    dep_deploy.position = Some((30, 8));
    let dependencies = vec![dep_build, dep_deploy];
    let comments = vec![
        CommentInfo { text: "Build it".to_string(), line_number: 9 },
        CommentInfo { text: "Ship it".to_string(), line_number: 29 },
    ];
    let attributes = vec![AttributeInfo::with_value("group".to_string(), "ops".to_string(), 28)];

    let tasks = assemble_tasks(&recipes, &parameters, &dependencies, &comments, &attributes);
    assert_eq!(tasks.len(), 2);

    assert_eq!(tasks[0].name, "build");
    assert_eq!(pairs(&tasks[0].parameters), vec![pair("target", Some("debug"))]);
    assert_eq!(tasks[0].dependencies, vec!["fmt"]);
    assert_eq!(tasks[0].comments, vec!["Build it"]);
    assert!(tasks[0].group.is_none());
    assert!(tasks[0].body.is_empty());

    assert_eq!(tasks[1].name, "deploy");
    assert_eq!(pairs(&tasks[1].parameters), vec![pair("far", None)]);
    assert_eq!(tasks[1].dependencies, vec!["build(release)"]);
    assert_eq!(tasks[1].comments, vec!["Ship it"]);
    assert_eq!(tasks[1].group, Some("ops".to_string()));
    assert_eq!(tasks[1].attributes.len(), 1);
}

#[test]
fn dependencies_keep_parenthesised_arguments() {
    assert_eq!(parse_dependencies("  build test(arg1 arg2)\tlint "), vec!["build", "test(arg1 arg2)", "lint"]);
    assert!(parse_dependencies("   ").is_empty());
}

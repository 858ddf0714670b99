use just_mcp::parser::justfile::JustfileParser;
use just_mcp::types::Parameter;

fn params(ps: &[Parameter]) -> Vec<(String, Option<String>, Option<String>)> {
    ps.iter().map(|p| (p.name.clone(), p.default.clone(), p.description.clone())).collect()
}

fn some(s: &str) -> Option<String> {
    Some(s.to_string())
}

#[test]
fn mod_test_parser_creation() {
    let parser = JustfileParser::new();
    assert!(parser.is_ok());
}

#[test]
fn test_parse_simple_recipe() {
    let parser = JustfileParser::new().unwrap();
    let content = r#"
# Build the project
build:
    cargo build --release
"#;

    let tasks = parser.parse_content(content).unwrap();
    assert_eq!(tasks.len(), 1);
    assert_eq!(tasks[0].name, "build");
    assert_eq!(tasks[0].comments, vec!["Build the project"]);
    assert_eq!(tasks[0].body, "cargo build --release");
}

#[test]
fn mod_test_parse_recipe_with_parameters() {
    let parser = JustfileParser::new().unwrap();
    let content = r#"
# Run tests with optional filter
test filter="":
    cargo test {{filter}}
"#;

    let tasks = parser.parse_content(content).unwrap();
    assert_eq!(tasks.len(), 1);
    assert_eq!(tasks[0].name, "test");
    assert_eq!(tasks[0].parameters.len(), 1);
    assert_eq!(tasks[0].parameters[0].name, "filter");
    assert_eq!(tasks[0].parameters[0].default, Some("".to_string()));
}

#[test]
fn mod_test_parse_recipe_with_dependencies() {
    let parser = JustfileParser::new().unwrap();
    let content = r#"
# Deploy to production
deploy: build test
    echo "Deploying..."
"#;

    let tasks = parser.parse_content(content).unwrap();
    assert_eq!(tasks.len(), 1);
    assert_eq!(tasks[0].dependencies, vec!["build", "test"]);
}

#[test]
fn test_parse_recipe_with_attributes() {
    let parser = JustfileParser::new().unwrap();
    let content = r#"
# Private helper task
[private]
_helper:
    echo "Helper task"

[group('test')]
test-unit:
    cargo test --lib
"#;

    let tasks = parser.parse_content(content).unwrap();
    assert_eq!(tasks.len(), 2);
    assert_eq!(tasks[0].name, "_helper");
    assert_eq!(tasks[1].name, "test-unit");
}

#[test]
fn test_parse_multiline_recipe() {
    let parser = JustfileParser::new().unwrap();
    let content = r#"
# Complex build process
build:
    echo "Building..."
    cargo build --release
    echo "Build complete!"
"#;

    let tasks = parser.parse_content(content).unwrap();
    assert_eq!(tasks.len(), 1);
    assert!(tasks[0].body.contains("Building..."));
    assert!(tasks[0].body.contains("cargo build"));
    assert!(tasks[0].body.contains("Build complete!"));
}

#[test]
fn test_parse_parameter_descriptions() {
    let parser = JustfileParser::new().unwrap();
    let content = r#"
# {{target}}: the target to build (debug, release, etc.)
# {{features}}: comma-separated list of features to enable
# Build the project with different targets
build target="debug" features="":
    cargo build --{{target}} {{features}}
"#;

    let tasks = parser.parse_content(content).unwrap();
    assert_eq!(tasks.len(), 1);
    assert_eq!(tasks[0].name, "build");
    assert_eq!(tasks[0].parameters.len(), 2);

    assert_eq!(tasks[0].parameters[0].name, "target");
    assert_eq!(tasks[0].parameters[0].default, Some("debug".to_string()));
    assert_eq!(
        tasks[0].parameters[0].description,
        Some("the target to build (debug, release, etc.)".to_string())
    );

    assert_eq!(tasks[0].parameters[1].name, "features");
    assert_eq!(tasks[0].parameters[1].default, Some("".to_string()));
    assert_eq!(
        tasks[0].parameters[1].description,
        Some("comma-separated list of features to enable".to_string())
    );

    assert_eq!(tasks[0].comments, vec!["Build the project with different targets"]);
}

#[test]
fn test_parse_doc_attribute() {
    let parser = JustfileParser::new().unwrap();
    let content = r#"
# {{count}}: number of records to seed
[doc("Seed the database with sample data")]
db-seed count="10":
    echo "Seeding {{count}} records"
"#;

    let tasks = parser.parse_content(content).unwrap();
    assert_eq!(tasks.len(), 1);
    assert_eq!(tasks[0].name, "db-seed");
    assert_eq!(tasks[0].parameters.len(), 1);

    assert_eq!(tasks[0].parameters[0].name, "count");
    assert_eq!(tasks[0].parameters[0].default, Some("10".to_string()));
    assert_eq!(tasks[0].parameters[0].description, Some("number of records to seed".to_string()));

    assert_eq!(tasks[0].comments, vec!["Seed the database with sample data"]);
}

#[test]
fn line_reader_fills_every_field() {
    let parser = JustfileParser::new().unwrap();
    let content = "#!/usr/bin/env just\nversion := \"1\"\n\n# greet someone\n# {{name}}: who to greet\ngreet (name, greeting='hi'): setup (lint \"x\")\n\techo {{greeting}}\n\n\techo {{name}}\nnext:\n";
    let tasks = parser.try_parse_content(content).unwrap();
    assert_eq!(tasks.len(), 2);
    let greet = &tasks[0];
    assert_eq!(greet.name, "greet");
    assert_eq!(greet.comments, vec!["greet someone"]);
    assert_eq!(
        params(&greet.parameters),
        vec![
            ("name".to_string(), None, some("who to greet")),
            ("greeting".to_string(), some("hi"), some("(default: hi)")),
        ]
    );
    assert_eq!(greet.dependencies, vec!["setup", "(lint \"x\")"]);
    assert_eq!(greet.body, "echo {{greeting}}\n\n\techo {{name}}");
    assert_eq!(greet.line_number, 9);
    assert!(!greet.is_private);
    assert!(greet.group.is_none() && greet.doc.is_none() && greet.confirm_message.is_none());
    assert!(greet.attributes.is_empty());
    assert_eq!(tasks[1].name, "next");
    assert_eq!(tasks[1].line_number, 10);
    assert!(tasks[1].comments.is_empty());
}

#[test]
fn single_quoted_doc_attribute_loses_its_quotes() {
    let parser = JustfileParser::new().unwrap();
    let content = "# ignored\n[doc('Say hello')]\nhello:\n  echo hi\n";
    let tasks = parser.parse_content(content).unwrap();
    assert_eq!(tasks.len(), 1);
    assert_eq!(tasks[0].comments, vec!["Say hello"]);
}

#[test]
fn a_line_that_starts_no_recipe_hides_the_next() {
    let parser = JustfileParser::new().unwrap();
    let content = "foo bar\nbuild:\n  x\n";
    let tasks = parser.parse_content(content).unwrap();
    assert!(tasks.is_empty());
    let later = "foo bar\n\nbuild:\n  x\n";
    let tasks = parser.parse_content(later).unwrap();
    assert_eq!(tasks.len(), 1);
    assert_eq!(tasks[0].name, "build");
}

#[test]
fn comma_cut_inside_a_character_is_refused() {
    let parser = JustfileParser::new().unwrap();
    let content = "build (a=\"\u{e9}\u{e9}\", b):\n  echo\n";
    assert!(parser.try_parse_content(content).is_none());
    let ascii = "build (a=\"ee\", b):\n  echo\n";
    let tasks = parser.try_parse_content(ascii).unwrap();
    assert_eq!(
        params(&tasks[0].parameters),
        vec![("a".to_string(), some("ee"), some("(default: ee)")), ("b".to_string(), None, None)]
    );
}

#[test]
fn private_names_start_with_underscore() {
    let parser = JustfileParser::new().unwrap();
    let tasks = parser.parse_content("_hidden:\n  true\nshown:\n  true\n").unwrap();
    assert_eq!(tasks.len(), 2);
    assert!(tasks[0].is_private);
    assert!(!tasks[1].is_private);
    assert_eq!(tasks[0].body, "true");
}

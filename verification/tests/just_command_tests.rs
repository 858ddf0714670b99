use just_mcp::error::Error;
use just_mcp::parser::just_command::{recipe_names_from_summary, source_lines_of, unanalyzed_task, JustCommandParser, RecipeParameter};

fn view(ps: &[RecipeParameter]) -> Vec<(String, Option<String>, Option<String>)> {
    ps.iter().map(|p| (p.name.clone(), p.default_value.clone(), p.description.clone())).collect()
}

#[test]
fn just_command_parser_test_parser_creation() {
    let parser = JustCommandParser::new();
    assert!(parser.is_ok());
}

#[test]
fn test_parameter_extraction() {
    let parser = JustCommandParser::new().unwrap();
    let header = "build target=\"debug\" features=\"\"";

    let params = parser.extract_parameters_from_header(header);
    assert_eq!(params.len(), 2);
    assert_eq!(params[0].name, "target");
    assert_eq!(params[0].default_value, Some("debug".to_string()));
    assert_eq!(params[1].name, "features");
    assert_eq!(params[1].default_value, Some("".to_string()));
}

#[test]
fn test_dependency_extraction() {
    let parser = JustCommandParser::new().unwrap();
    let after_colon = " build test lint";

    let deps = parser.extract_dependencies(after_colon);
    assert_eq!(deps, vec!["build", "test", "lint"]);
}

#[test]
fn parenthesised_and_bare_parameters() {
    let parser = JustCommandParser::new().unwrap();
    let params = parser.extract_parameters_from_header("deploy (env='prod', count=3, verbose)");
    assert_eq!(
        view(&params),
        vec![
            ("env".to_string(), Some("prod".to_string()), None),
            ("count".to_string(), Some("3".to_string()), None),
            ("verbose".to_string(), None, None),
        ]
    );
    assert!(parser.extract_parameters_from_header("lint").is_empty());
}

#[test]
fn definition_lines_split_at_the_first_colon() {
    let parser = JustCommandParser::new().unwrap();
    let (params, deps) = parser.parse_recipe_definition_line("test filter=\"\": build");
    assert_eq!(view(&params), vec![("filter".to_string(), Some(String::new()), None)]);
    assert_eq!(deps, vec!["build"]);
    let (params, deps) = parser.parse_recipe_definition_line("no colon");
    assert!(params.is_empty() && deps.is_empty());
}

fn lines(text: &str) -> Vec<String> {
    source_lines_of(text)
}

#[test]
fn recipe_source_is_read_for_details() {
    let parser = JustCommandParser::new().unwrap();
    let source = lines(
        "# Build the project\n# {{target}}: the target to build\n[group('dev')]\nbuild target=\"debug\" jobs=\"4\" extra: fmt\n    cargo build --target {{target}}\n    echo done\n",
    );
    let meta = parser.recipe_details("build", source.clone()).unwrap();
    assert_eq!(meta.name, "build");
    assert_eq!(meta.description, Some("Build the project".to_string()));
    assert_eq!(meta.group, Some("dev".to_string()));
    assert!(!meta.is_private);
    assert_eq!(meta.dependencies, vec!["fmt"]);
    assert_eq!(
        view(&meta.parameters),
        vec![
            ("target".to_string(), Some("debug".to_string()), Some("the target to build".to_string())),
            ("jobs".to_string(), Some("4".to_string()), Some("(default: 4)".to_string())),
            ("extra".to_string(), None, None),
        ]
    );
    assert_eq!(parser.extract_recipe_body(&source), "cargo build --target {{target}}\n    echo done");

    let private = parser.recipe_details("_helper", lines("_helper:\n    echo hi")).unwrap();
    assert!(private.is_private);
    assert!(private.description.is_none());
}

#[test]
fn source_without_definition_is_an_error() {
    let parser = JustCommandParser::new().unwrap();
    match parser.parse_recipe_header(&lines("# just a comment")) {
        Err(Error::Parse { message, line, column }) => {
            assert_eq!(message, "Could not find recipe definition line");
            assert_eq!((line, column), (0, 0));
        }
        other => panic!("unexpected result: {:?}", other.map(|(p, d)| (p.len(), d))),
    }
    assert!(parser.recipe_details("x", lines("nothing here")).is_err());
    assert_eq!(parser.extract_recipe_body(&lines("no definition")), "");
}

#[test]
fn summary_names() {
    assert_eq!(recipe_names_from_summary("build test\n_lint deploy\n"), vec!["build", "test", "_lint", "deploy"]);
}

#[test]
fn reported_recipes_become_tasks() {
    let parser = JustCommandParser::new().unwrap();
    let source: Vec<String> = vec!["# Build it".to_string(), "build target=\"debug\": fmt".to_string(), "    cargo build".to_string()];
    let metadata = parser.recipe_details("build", source).unwrap();
    let task = parser.metadata_to_task(metadata).unwrap();
    assert_eq!(task.name, "build");
    assert_eq!(task.body, "cargo build");
    assert_eq!(task.dependencies, vec!["fmt"]);
    assert_eq!(task.comments, vec!["Build it"]);
    assert_eq!(task.parameters.len(), 1);
    assert_eq!(task.parameters[0].name, "target");
    assert_eq!(task.parameters[0].default, Some("debug".to_string()));
    assert_eq!(task.parameters[0].description, Some("(default: debug)".to_string()));
    assert_eq!(task.line_number, 0);
    assert!(!task.is_private);

    let bare = parser.recipe_details("_clean", vec!["_clean:".to_string(), "  rm -rf target".to_string()]).unwrap();
    let task = parser.metadata_to_task(bare).unwrap();
    assert_eq!(task.comments, vec!["Execute '_clean' task"]);
    assert!(task.is_private);
    assert_eq!(task.body, "rm -rf target");
}

#[test]
fn unanalyzed_recipes_run_by_name() {
    let task = unanalyzed_task("deploy");
    assert_eq!(task.name, "deploy");
    assert_eq!(task.body, "just deploy");
    assert_eq!(task.comments, vec!["Execute 'deploy' task"]);
    assert!(task.parameters.is_empty() && task.dependencies.is_empty());
    assert_eq!(task.line_number, 0);
}

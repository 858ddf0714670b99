use just_mcp::admin::unknown_watch_message;
use just_mcp::cli::parse_watch_dir;
use just_mcp::executor::{just_arguments, parameter_values};
use just_mcp::strmap::StrMap;
use just_mcp::types::{JustTask, Parameter};

fn param(name: &str, default: Option<&str>) -> Parameter {
    Parameter { name: name.to_string(), default: default.map(|d| d.to_string()), description: None }
}

fn task(name: &str, parameters: Vec<Parameter>) -> JustTask {
    JustTask {
        name: name.to_string(),
        body: String::new(),
        parameters,
        dependencies: Vec::new(),
        comments: Vec::new(),
        line_number: 0,
        group: None,
        is_private: false,
        confirm_message: None,
        doc: None,
        attributes: Vec::new(),
    }
}

#[test]
fn watch_dir_splits_at_the_first_colon() {
    assert_eq!(parse_watch_dir("src:main"), ("src".to_string(), Some("main".to_string())));
    assert_eq!(parse_watch_dir("a:b:c"), ("a".to_string(), Some("b:c".to_string())));
    assert_eq!(parse_watch_dir("plain/dir"), ("plain/dir".to_string(), None));
    assert_eq!(parse_watch_dir("dir:"), ("dir".to_string(), Some(String::new())));
}

#[test]
fn supplied_values_come_in_parameter_order() {
    let ps = vec![param("target", Some("debug")), param("features", None), param("jobs", Some("4"))];
    let mut provided = StrMap::new();
    provided.insert("jobs".to_string(), "8".to_string());
    assert_eq!(parameter_values(&ps, &provided), vec!["debug", "8"]);
    provided.insert("features".to_string(), "full".to_string());
    assert_eq!(parameter_values(&ps, &provided), vec!["debug", "full", "8"]);
}

#[test]
fn just_is_told_the_justfile_recipe_and_values() {
    let tasks = vec![
        task("build", vec![param("target", Some("debug"))]),
        task("build", vec![param("other", Some("x"))]),
        task("test", Vec::new()),
    ];
    let mut provided = StrMap::new();
    provided.insert("target".to_string(), "release".to_string());
    assert_eq!(just_arguments("build", true, &tasks, &provided), vec!["--justfile", "justfile", "build", "release"]);
    assert_eq!(just_arguments("build", false, &tasks, &StrMap::new()), vec!["build", "debug"]);
    assert_eq!(just_arguments("missing", false, &tasks, &provided), vec!["missing"]);
}

#[test]
fn unknown_watch_names_list_the_known_ones() {
    let names = vec![Some("a".to_string()), None, Some("b".to_string())];
    assert_eq!(unknown_watch_message("x", &names), "Watch directory 'x' not found. Available: 'a', 'b'");
    assert_eq!(unknown_watch_message("x", &Vec::new()), "Watch directory 'x' not found. Available: ");
}

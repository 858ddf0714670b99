use std::sync::Arc;

use just_mcp::config_resource::{CombinedResourceProvider, ConfigResourceProvider, ResourceRoute};
use just_mcp::embedded_content::resources::{CompletionArgument, CompletionRequest, ResourceProvider};
use just_mcp::embedded_content::{EmbeddedContentRegistry, EmbeddedResourceProvider};
use just_mcp::error::Error;
use just_mcp::executor::parse_tool_name;
use just_mcp::parser::tiers::{create_minimal_task_for_content, create_minimal_task_for_file, tier_order};
use just_mcp::parser::{ParsingMethod, ParsingMetrics};
use just_mcp::search::{
    batch_count, filter_listing, provider_order, stats_listing, task_content, task_document, text_listing,
    Document, EmbeddingChoice,
};
use just_mcp::strmap::StrMap;
use just_mcp::types::{JustTask, Parameter};

#[test]
fn test_parse_tool_name() {
    let result = parse_tool_name("just_build_/home/user/project/justfile");
    assert!(result.is_ok());
    let (task, path) = result.unwrap();
    assert_eq!(task, "build");
    assert_eq!(path, "/home/user/project/justfile");

    let result = parse_tool_name("just_test_/home/user_name/test_project/justfile");
    assert!(result.is_ok());
    let (task, path) = result.unwrap();
    assert_eq!(task, "test");
    assert_eq!(path, "/home/user_name/test_project/justfile");

    let result = parse_tool_name("build_/home/user/project/justfile");
    assert!(result.is_err());

    let result = parse_tool_name("just_build");
    assert!(result.is_err());
}

#[test]
fn tool_name_errors_carry_the_name() {
    match parse_tool_name("build_/x") {
        Err(e) => assert_eq!(e.to_string(), "Invalid parameter: Invalid tool name: build_/x"),
        Ok(_) => panic!("expected an error"),
    }
    match parse_tool_name("just_build") {
        Err(e) => assert_eq!(e.to_string(), "Invalid parameter: Invalid tool name format: just_build"),
        Ok(_) => panic!("expected an error"),
    }
}

#[test]
fn tool_name_round_trip_example() {
    let task = "deploy-prod";
    let path = "/srv/app/justfile";
    let name = format!("just_{}_{}", task, path);
    let (t, p) = parse_tool_name(&name).unwrap();
    assert_eq!(t, task);
    assert_eq!(p, path);
}

#[test]
fn error_messages() {
    let e = Error::Parse { message: "bad".to_string(), line: 3, column: 7 };
    assert_eq!(e.to_string(), "Parse error at line 3, column 7: bad");
    let e = Error::Execution { command: "just".to_string(), exit_code: Some(-2), stderr: "boom".to_string() };
    assert_eq!(e.to_string(), "Execution error: command 'just' failed with exit code Some(-2): boom");
    let e = Error::Execution { command: "just".to_string(), exit_code: None, stderr: String::new() };
    assert_eq!(e.to_string(), "Execution error: command 'just' failed with exit code None: ");
    assert_eq!(Error::TaskNotFound("x".to_string()).to_string(), "Task not found: x");
}

#[test]
fn test_validate_config_uri() {
    assert!(ConfigResourceProvider::validate_config_uri("file:///config.json").is_ok());

    assert!(ConfigResourceProvider::validate_config_uri("file:///other.json").is_err());
    assert!(ConfigResourceProvider::validate_config_uri("http://example.com/config.json").is_err());
    assert!(ConfigResourceProvider::validate_config_uri("file:///config.txt").is_err());
    assert!(ConfigResourceProvider::validate_config_uri("file:///docs/config.json").is_err());
}

#[test]
fn config_resource_description_and_content() {
    let resources = ConfigResourceProvider::list_resources();
    assert_eq!(resources.len(), 1);
    assert_eq!(resources[0].uri, "file:///config.json");
    assert_eq!(resources[0].name, "config.json");
    assert_eq!(resources[0].mime_type, Some("application/json".to_string()));
    assert!(resources[0].size.is_none());

    let content = ConfigResourceProvider::config_content("file:///config.json", "{}".to_string()).unwrap();
    assert_eq!(content.text, Some("{}".to_string()));
    assert_eq!(content.mime_type, Some("application/json".to_string()));
    let err = ConfigResourceProvider::config_content("file:///other.json", "{}".to_string()).unwrap_err();
    assert_eq!(err, "Invalid config resource URI: file:///other.json");
    assert_eq!(
        ConfigResourceProvider::validate_config_uri("x").unwrap_err(),
        "Invalid config resource URI: x. Expected: file:///config.json"
    );
    assert!(ConfigResourceProvider::list_resource_templates().is_empty());
}

fn combined() -> CombinedResourceProvider {
    let registry = Arc::new(EmbeddedContentRegistry::new());
    CombinedResourceProvider::new(Arc::new(EmbeddedResourceProvider::new(registry)))
}

#[test]
fn test_uri_routing() {
    let combined_provider = combined();

    let provider = combined_provider.route_uri("file:///config.json");
    assert!(provider.is_some());

    let provider = combined_provider.route_uri("file:///docs/guides/test.md");
    assert!(provider.is_some());

    let provider = combined_provider.route_uri("file:///unknown.txt");
    assert!(provider.is_none());
}

#[test]
fn listed_resources_route_to_their_provider() {
    let provider = combined();
    let resources = provider.list_resources().unwrap();
    assert!(resources.iter().any(|r| r.uri == "file:///config.json"));
    assert!(resources.iter().any(|r| r.uri.starts_with("file:///docs/guides/")));
    for r in &resources {
        let route = provider.route_uri(&r.uri);
        if r.uri == "file:///config.json" {
            assert_eq!(route, Some(ResourceRoute::Config));
        } else {
            assert_eq!(route, Some(ResourceRoute::Guides));
        }
    }
    assert_eq!(CombinedResourceProvider::not_found("file:///x"), "Resource not found: file:///x");
}

#[test]
fn combined_templates_and_completion() {
    let provider = combined();
    let templates = provider.list_resource_templates().unwrap();
    assert!(templates.iter().any(|t| t.name == "best-practice-guides"));

    let request = CompletionRequest {
        ref_: "resources/templates/best-practice-guides".to_string(),
        argument: CompletionArgument { name: "guide".to_string(), value: "JUST".to_string() },
    };
    let result = provider.complete_resource(&request).unwrap();
    assert_eq!(result.completion.values.len(), 1);
    assert_eq!(result.completion.values[0].value, "justfile-best-practices");

    let request = CompletionRequest {
        ref_: "resources/templates/other".to_string(),
        argument: CompletionArgument { name: "guide".to_string(), value: "just".to_string() },
    };
    assert!(provider.complete_resource(&request).unwrap().completion.values.is_empty());
    let request = CompletionRequest {
        ref_: "bad".to_string(),
        argument: CompletionArgument { name: "guide".to_string(), value: "just".to_string() },
    };
    assert!(provider.complete_resource(&request).is_err());
}

#[test]
fn listed_guides_read_back() {
    let registry = Arc::new(EmbeddedContentRegistry::new());
    let provider = EmbeddedResourceProvider::new(registry.clone());
    let resources = provider.list_resources().unwrap();
    for (resource, doc) in resources.iter().zip(registry.get_all_documents()) {
        let content = provider.read_resource(&resource.uri).unwrap();
        assert_eq!(content.text.as_deref(), Some(doc.content));
    }
}

#[test]
fn tier_order_follows_preferences() {
    assert_eq!(tier_order(true, true, true), vec![ParsingMethod::AST, ParsingMethod::Command, ParsingMethod::Regex]);
    assert_eq!(tier_order(true, false, true), vec![ParsingMethod::Command, ParsingMethod::Regex]);
    assert_eq!(tier_order(false, true, false), vec![ParsingMethod::Regex]);
}

#[test]
fn metrics_count_attempts() {
    let mut m = ParsingMetrics::default();
    m.record_attempt(ParsingMethod::AST, false, 5, 0);
    m.record_attempt(ParsingMethod::Command, true, 7, 12);
    m.record_attempt(ParsingMethod::Regex, true, 2, 20);
    m.record_minimal(30);
    assert_eq!((m.ast_attempts, m.ast_successes, m.ast_parse_time_ms), (1, 0, 5));
    assert_eq!((m.command_attempts, m.command_successes, m.command_parse_time_ms), (1, 1, 7));
    assert_eq!((m.regex_attempts, m.regex_successes, m.regex_parse_time_ms), (1, 1, 2));
    assert_eq!(m.minimal_task_creations, 1);
    assert_eq!(m.total_parse_time_ms, 62);
    assert!(m.ast_successes <= m.ast_attempts && m.command_successes <= m.command_attempts);
    assert_eq!(m.preferred_method(), ParsingMethod::Command);
}

#[test]
fn minimal_tasks_explain_the_failure() {
    let t = create_minimal_task_for_file(Some("my.justfile"), "/tmp/my.justfile", Some("bad syntax"));
    assert_eq!(t.name, "parse-error-my-justfile");
    assert_eq!(
        t.body,
        "echo 'ERROR: Failed to parse justfile at /tmp/my.justfile (bad syntax)'\necho 'This is a minimal task created as fallback.'"
    );
    assert_eq!(t.comments[1], "Original justfile: /tmp/my.justfile");
    assert_eq!(t.comments[2], "All parsing methods failed (bad syntax)");
    assert!(t.is_private);
    assert_eq!(t.line_number, 1);

    let t = create_minimal_task_for_file(None, "/", None);
    assert_eq!(t.name, "parse-error-unknown");

    let long_line = "x".repeat(60);
    let t = create_minimal_task_for_content(&long_line, None);
    assert_eq!(t.name, "parse-error-content");
    assert_eq!(t.comments[1], format!("Content preview: {}...", "x".repeat(47)));
    let t = create_minimal_task_for_content("", Some("e"));
    assert_eq!(t.comments[1], "Content preview: <empty>");
    assert_eq!(t.comments[2], "All parsing methods failed (e)");
}

fn task(name: &str) -> JustTask {
    JustTask {
        name: name.to_string(),
        body: String::new(),
        parameters: vec![
            Parameter { name: "a".to_string(), default: None, description: None },
            Parameter { name: "b".to_string(), default: Some("1".to_string()), description: None },
        ],
        dependencies: vec!["fmt".to_string(), "lint".to_string()],
        comments: vec!["Build it".to_string()],
        line_number: 4,
        group: None,
        is_private: false,
        confirm_message: None,
        doc: None,
        attributes: Vec::new(),
    }
}

#[test]
fn task_documents_describe_recipes() {
    let t = task("build");
    assert_eq!(task_content(&t), "build - Build it - Parameters: a, b - Dependencies: fmt, lint");
    let d = task_document(&t, "id-1".to_string(), Some("justfile"), "/p/justfile");
    assert_eq!(d.id, "id-1");
    assert_eq!(d.task_name, Some("build".to_string()));
    assert_eq!(d.metadata.get("type"), Some(&"justfile_task".to_string()));
    assert_eq!(d.metadata.get("line_number"), Some(&"4".to_string()));
    assert_eq!(d.metadata.get("justfile_name"), Some(&"justfile".to_string()));
    let bare = JustTask { parameters: Vec::new(), dependencies: Vec::new(), comments: Vec::new(), ..task("x") };
    assert_eq!(task_content(&bare), "x");
}

#[test]
fn batches_and_providers() {
    assert_eq!(batch_count(10, 3), 4);
    assert_eq!(batch_count(9, 3), 3);
    assert_eq!(batch_count(1, 100), 1);
    assert_eq!(provider_order(false, true, true, true), vec![EmbeddingChoice::Mock]);
    assert_eq!(provider_order(true, false, true, true), vec![EmbeddingChoice::OpenAI]);
    assert_eq!(provider_order(true, false, false, true), vec![EmbeddingChoice::Local]);
    assert_eq!(provider_order(false, false, false, true), vec![EmbeddingChoice::Local, EmbeddingChoice::Mock]);
    assert_eq!(provider_order(true, false, false, false), vec![EmbeddingChoice::Mock]);
}

fn doc(id: &str, content: &str) -> Document {
    Document {
        id: id.to_string(),
        content: content.to_string(),
        metadata: StrMap::new(),
        source_path: None,
        justfile_name: Some("justfile".to_string()),
        task_name: Some("build".to_string()),
    }
}

#[test]
fn listings_as_printed() {
    assert_eq!(filter_listing(&[]), "No documents found matching filters\n");
    let long = "y".repeat(120);
    let out = filter_listing(&[doc("1", &long)]);
    assert_eq!(
        out,
        format!(
            "Found 1 documents matching filters:\n\n1. ID: 1\n   Task: build\n   Justfile: justfile\n   Content: {}\n   ...\n\n",
            "y".repeat(100)
        )
    );
    let out = text_listing("cargo", &[doc("2", "run cargo build")]);
    assert_eq!(
        out,
        "Found 1 documents containing text 'cargo':\n\n1. ID: 2\n   Task: build\n   Justfile: justfile\n   Content: run **cargo** build\n\n"
    );
    assert_eq!(text_listing("z", &[]), "No documents found containing text: 'z'\n");
    assert_eq!(
        stats_listing("db.sqlite", 3, false),
        "Vector Database Statistics\n==========================\nDatabase path: db.sqlite\nTotal documents: 3\nHealth status: Unhealthy\n"
    );
}

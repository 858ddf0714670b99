use std::sync::Arc;

use just_mcp::embedded_content::documents::{
    create_embedded_documents, get_embedded_document, get_embedded_document_ids,
    get_embedded_documents_by_category, EmbeddedDocument, JUSTFILE_BEST_PRACTICES,
};
use just_mcp::embedded_content::resources::{
    CompletionArgument, CompletionRequest, EmbeddedResourceProvider, ResourceProvider,
};
use just_mcp::embedded_content::EmbeddedContentRegistry;
use just_mcp::strmap::StrMap;

#[test]
fn test_justfile_best_practices_content_loaded() {
    assert!(!JUSTFILE_BEST_PRACTICES.is_empty());
    assert!(JUSTFILE_BEST_PRACTICES.contains("Best Practices for Modular Justfiles"));
    assert!(JUSTFILE_BEST_PRACTICES.len() > 1000);
}

#[test]
fn test_create_embedded_documents() {
    let docs = create_embedded_documents();
    assert!(!docs.is_empty());
    assert_eq!(docs.len(), 1);

    let best_practices = &docs[0];
    assert_eq!(best_practices.id, "justfile-best-practices");
    assert_eq!(best_practices.content_type, "text/markdown");
    assert!(best_practices.is_embedded());
    assert_eq!(best_practices.version(), "1.0");
    assert_eq!(best_practices.author(), Some("just-mcp team"));
}

#[test]
fn test_embedded_document_methods() {
    let doc = get_embedded_document("justfile-best-practices").unwrap();

    assert!(doc.size() > 0);
    assert!(doc.has_tag("justfile"));
    assert!(doc.has_tag("best-practices"));
    assert!(doc.has_tag("guide"));
    assert!(!doc.has_tag("nonexistent-tag"));

    assert_eq!(doc.get_metadata("category"), Some(&"guide".to_string()));
    assert_eq!(doc.get_metadata("language"), Some(&"en".to_string()));
    assert!(doc.get_metadata("nonexistent").is_none());
}

#[test]
fn test_get_embedded_document() {
    let doc = get_embedded_document("justfile-best-practices");
    assert!(doc.is_some());

    let doc = get_embedded_document("nonexistent-document");
    assert!(doc.is_none());
}

#[test]
fn test_get_embedded_document_ids() {
    let ids = get_embedded_document_ids();
    assert!(!ids.is_empty());
    assert!(ids.contains(&"justfile-best-practices".to_string()));
}

#[test]
fn test_get_embedded_documents_by_category() {
    let guides = get_embedded_documents_by_category("guide");
    assert!(!guides.is_empty());
    assert!(guides.iter().any(|doc| doc.id == "justfile-best-practices"));

    let nonexistent = get_embedded_documents_by_category("nonexistent-category");
    assert!(nonexistent.is_empty());
}

#[test]
fn test_embedded_document_construction() {
    let mut metadata = StrMap::new();
    metadata.insert("test".to_string(), "value".to_string());

    let doc = EmbeddedDocument::new(
        "test-id".to_string(),
        "Test Title".to_string(),
        "Test Description".to_string(),
        "test content",
        "text/plain".to_string(),
        vec!["test".to_string()],
        metadata,
    );

    assert_eq!(doc.id, "test-id");
    assert_eq!(doc.title, "Test Title");
    assert_eq!(doc.description, "Test Description");
    assert_eq!(doc.content, "test content");
    assert_eq!(doc.content_type, "text/plain");
    assert_eq!(doc.size(), 12);
    assert!(doc.has_tag("test"));
    assert_eq!(doc.get_metadata("test"), Some(&"value".to_string()));
}

#[test]
fn test_registry_creation() {
    let registry = EmbeddedContentRegistry::new();
    assert!(!registry.is_empty());
    assert!(registry.len() > 0);
}

#[test]
fn test_document_retrieval_by_id() {
    let registry = EmbeddedContentRegistry::new();

    let doc = registry.get_document_by_id("justfile-best-practices");
    assert!(doc.is_some());

    let doc = doc.unwrap();
    assert_eq!(doc.id, "justfile-best-practices");
    assert!(!doc.content.is_empty());
}

#[test]
fn test_document_retrieval_by_nonexistent_id() {
    let registry = EmbeddedContentRegistry::new();
    let doc = registry.get_document_by_id("nonexistent-document");
    assert!(doc.is_none());
}

#[test]
fn test_documents_by_tag() {
    let registry = EmbeddedContentRegistry::new();

    let guide_docs = registry.get_documents_by_tag("guide");
    assert!(!guide_docs.is_empty());

    let best_practices_docs = registry.get_documents_by_tag("best-practices");
    assert!(!best_practices_docs.is_empty());

    let justfile_docs = registry.get_documents_by_tag("justfile");
    assert!(justfile_docs.iter().any(|doc| doc.id == "justfile-best-practices"));
}

#[test]
fn test_documents_by_multiple_tags() {
    let registry = EmbeddedContentRegistry::new();

    let docs = registry.get_documents_by_tags(&["justfile", "best-practices"]);
    assert!(!docs.is_empty());
    assert!(docs.iter().any(|doc| doc.id == "justfile-best-practices"));

    let docs = registry.get_documents_by_tags(&["justfile", "nonexistent-tag"]);
    assert!(docs.is_empty());
}

#[test]
fn test_validate_and_extract_doc_id() {
    assert_eq!(
        EmbeddedResourceProvider::validate_and_extract_doc_id("file:///docs/guides/justfile-best-practices.md")
            .unwrap(),
        "justfile-best-practices"
    );

    assert_eq!(
        EmbeddedResourceProvider::validate_and_extract_doc_id("file:///docs/guides/test_doc.md").unwrap(),
        "test_doc"
    );

    assert!(EmbeddedResourceProvider::validate_and_extract_doc_id("file:///docs/guides/../../../etc/passwd").is_err());

    assert!(EmbeddedResourceProvider::validate_and_extract_doc_id("file:///docs/guides/test/nested.md").is_err());

    assert!(EmbeddedResourceProvider::validate_and_extract_doc_id("http://example.com/doc.md").is_err());

    assert!(EmbeddedResourceProvider::validate_and_extract_doc_id("file:///docs/guides/test.txt").is_err());
}

#[test]
fn test_extract_template_name() {
    assert_eq!(
        EmbeddedResourceProvider::extract_template_name("resources/templates/best-practice-guides").unwrap(),
        "best-practice-guides"
    );

    assert!(EmbeddedResourceProvider::extract_template_name("invalid/format").is_err());
    assert!(EmbeddedResourceProvider::extract_template_name("resources/invalid").is_err());
    assert!(EmbeddedResourceProvider::extract_template_name("templates/test").is_err());
}

fn provider() -> EmbeddedResourceProvider {
    let registry = Arc::new(EmbeddedContentRegistry::new());
    EmbeddedResourceProvider::new(registry)
}

#[test]
fn resources_test_resource_provider_list_resources() {
    let provider = provider();

    let resources = provider.list_resources().unwrap();
    assert!(!resources.is_empty());

    let resource = &resources[0];
    assert_eq!(resource.uri, "file:///docs/guides/justfile-best-practices.md");
    assert_eq!(resource.name, "justfile-best-practices.md");
    assert!(resource.title.is_some());
    assert!(resource.description.is_some());
    assert_eq!(resource.mime_type, Some("text/markdown".to_string()));
    assert!(resource.size.unwrap() > 0);
}

#[test]
fn resources_test_resource_provider_read_resource() {
    let provider = provider();

    let content = provider.read_resource("file:///docs/guides/justfile-best-practices.md").unwrap();

    assert_eq!(content.uri, "file:///docs/guides/justfile-best-practices.md");
    assert!(content.text.is_some());
    assert!(content.blob.is_none());
    assert_eq!(content.mime_type, Some("text/markdown".to_string()));

    let text = content.text.unwrap();
    assert!(!text.is_empty());
    assert!(text.contains("Best Practices"));

    let result = provider.read_resource("file:///docs/guides/nonexistent-document.md");
    assert!(result.is_err());

    let result = provider.read_resource("http://example.com/doc.md");
    assert!(result.is_err());
}

#[test]
fn test_resource_provider_list_templates() {
    let provider = provider();

    let templates = provider.list_resource_templates().unwrap();
    assert!(!templates.is_empty());

    let template = &templates[0];
    assert_eq!(template.uri_template, "file:///docs/guides/{guide}.md");
    assert_eq!(template.name, "best-practice-guides");
    assert!(template.title.is_some());
    assert!(template.description.is_some());
    assert_eq!(template.mime_type, Some("text/markdown".to_string()));
}

#[test]
fn test_resource_provider_complete_resource() {
    let provider = provider();

    let request = CompletionRequest {
        ref_: "resources/templates/best-practice-guides".to_string(),
        argument: CompletionArgument { name: "guide".to_string(), value: "just".to_string() },
    };

    let result = provider.complete_resource(&request).unwrap();
    assert!(!result.completion.values.is_empty());

    let completion_value = &result.completion.values[0];
    assert_eq!(completion_value.value, "justfile-best-practices");
    assert!(completion_value.label.is_some());
    assert!(completion_value.description.is_some());

    let request = CompletionRequest {
        ref_: "resources/templates/invalid-template".to_string(),
        argument: CompletionArgument { name: "guide".to_string(), value: "test".to_string() },
    };

    let result = provider.complete_resource(&request).unwrap();
    assert!(result.completion.values.is_empty());

    let request = CompletionRequest {
        ref_: "resources/templates/best-practice-guides".to_string(),
        argument: CompletionArgument { name: "invalid".to_string(), value: "test".to_string() },
    };

    let result = provider.complete_resource(&request).unwrap();
    assert!(result.completion.values.is_empty());
}

#[test]
fn safe_ids_are_accepted_and_others_refused() {
    assert_eq!(
        EmbeddedResourceProvider::validate_and_extract_doc_id("file:///docs/guides/a_b-9.md").unwrap(),
        "a_b-9"
    );
    assert!(EmbeddedResourceProvider::validate_and_extract_doc_id("file:///docs/guides/a.b.md").is_err());
    assert!(EmbeddedResourceProvider::validate_and_extract_doc_id("file:///docs/guides/a/b.md").is_err());
    assert_eq!(EmbeddedResourceProvider::validate_and_extract_doc_id("file:///docs/guides/.md").unwrap(), "");
}

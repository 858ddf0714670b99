//! The configuration resource `file:///config.json` and the provider that
//! serves it beside the built-in guides: URI checks, listings and routing.
use vstd::prelude::*;
use std::sync::Arc;
use crate::text::{owned, concat, str_eq, str_starts_with, str_contains, starts_with};
use crate::embedded_content::resources::{
    Completion, CompletionRequest, CompletionResult, EmbeddedResourceProvider, Resource, ResourceContent,
    ResourceProvider, ResourceTemplate, opt_text, is_resource_of, spec_template_name, is_empty_completion,
    is_guide_completion,
};

verus! {

/// URI of the configuration resource.
pub open spec fn config_uri() -> Seq<char> {
    "file:///config.json"@
}

/// Serves the runtime configuration as `file:///config.json`; the content
/// itself is gathered by the server.
pub struct ConfigResourceProvider;

/// The description of the configuration resource.
pub open spec fn is_config_resource(r: Resource) -> bool {
    &&& r.uri@ == config_uri()
    &&& r.name@ == "config.json"@
    &&& opt_text(r.title) == Some("just-mcp Configuration"@)
    &&& opt_text(r.description) == Some(
        "Current runtime configuration and system state of the just-mcp server"@,
    )
    &&& opt_text(r.mime_type) == Some("application/json"@)
    &&& r.size is None
}

impl ConfigResourceProvider {
    /// Accepts only `file:///config.json`.
    pub fn validate_config_uri(uri: &str) -> (r: Result<(), String>)
        ensures
            uri@ == config_uri() ==> r is Ok,
            uri@ != config_uri() ==> (r matches Err(e) && e@ == "Invalid config resource URI: "@ + uri@
                + ". Expected: file:///config.json"@),
    {
        if !str_eq(uri, "file:///config.json") {
            let mut e = concat("Invalid config resource URI: ", uri);
            crate::text::push_str(&mut e, ". Expected: file:///config.json");
            return Err(e);
        }
        Ok(())
    }

    /// The description of the configuration resource; its size is only
    /// known once the content is generated.
    pub fn create_config_resource() -> (r: Resource)
        ensures
            is_config_resource(r),
    {
        Resource {
            uri: owned("file:///config.json"),
            name: owned("config.json"),
            title: Some(owned("just-mcp Configuration")),
            description: Some(owned("Current runtime configuration and system state of the just-mcp server")),
            mime_type: Some(owned("application/json")),
            size: None,
        }
    }

    /// The one resource served.
    pub fn list_resources() -> (r: Vec<Resource>)
        ensures
            r@.len() == 1,
            is_config_resource(r@[0]),
    {
        let mut v: Vec<Resource> = Vec::new();
        v.push(Self::create_config_resource());
        v
    }

    /// The content read at `uri`, once generated as JSON text: refused for
    /// any URI but the configuration's.
    pub fn config_content(uri: &str, content: String) -> (r: Result<ResourceContent, String>)
        ensures
            uri@ == config_uri() ==> (r matches Ok(c) && c.uri@ == uri@ && opt_text(c.text) == Some(content@)
                && c.blob is None && opt_text(c.mime_type) == Some("application/json"@)),
            uri@ != config_uri() ==> (r matches Err(e) && e@ == "Invalid config resource URI: "@ + uri@),
    {
        match Self::validate_config_uri(uri) {
            Ok(()) => Ok(
                ResourceContent {
                    uri: owned(uri),
                    text: Some(content),
                    blob: None,
                    mime_type: Some(owned("application/json")),
                },
            ),
            Err(_) => Err(concat("Invalid config resource URI: ", uri)),
        }
    }

    /// No templates: the configuration is a single resource.
    pub fn list_resource_templates() -> (r: Vec<ResourceTemplate>)
        ensures
            r@.len() == 0,
    {
        Vec::new()
    }

    /// No completions: the configuration is a single resource.
    pub fn complete_resource(_request: &CompletionRequest) -> (r: CompletionResult)
        ensures
            is_empty_completion(r),
    {
        CompletionResult { completion: Completion { values: Vec::new(), total: Some(0), has_more: Some(false) } }
    }
}

/// Which provider serves a URI.
#[derive(Debug, Clone, Copy, PartialEq, Eq)]
pub enum ResourceRoute {
    /// The configuration resource.
    Config,
    /// The built-in guides.
    Guides,
}

/// The provider that serves `uri`, if any.
pub open spec fn spec_route(uri: Seq<char>) -> Option<ResourceRoute> {
    if uri == config_uri() {
        Some(ResourceRoute::Config)
    } else if starts_with(uri, "file:///docs/guides/"@) {
        Some(ResourceRoute::Guides)
    } else {
        None
    }
}

/// Serves the built-in guides and the configuration resource together.
pub struct CombinedResourceProvider {
    embedded_provider: Arc<EmbeddedResourceProvider>,
}

impl CombinedResourceProvider {
    /// A provider serving the guides of `embedded_provider` and the configuration.
    pub fn new(embedded_provider: Arc<EmbeddedResourceProvider>) -> (p: Self)
        ensures
            p.guides() == embedded_provider.documents(),
    {
        CombinedResourceProvider { embedded_provider }
    }

    /// The guides served.
    pub closed spec fn guides(&self) -> Seq<crate::embedded_content::EmbeddedDocument> {
        self.embedded_provider.documents()
    }

    /// The provider that serves `uri`: the configuration for
    /// `file:///config.json`, the guides under `file:///docs/guides/`.
    pub fn route_uri(&self, uri: &str) -> (r: Option<ResourceRoute>)
        ensures
            r == spec_route(uri@),
    {
        if str_eq(uri, "file:///config.json") {
            Some(ResourceRoute::Config)
        } else if str_starts_with(uri, "file:///docs/guides/") {
            Some(ResourceRoute::Guides)
        } else {
            None
        }
    }

    /// The message for a URI that no provider serves.
    pub fn not_found(uri: &str) -> (e: String)
        ensures
            e@ == "Resource not found: "@ + uri@,
    {
        concat("Resource not found: ", uri)
    }

    /// The guides, then the configuration resource.
    pub fn list_resources(&self) -> (r: Result<Vec<Resource>, String>)
        ensures
            r matches Ok(v) && v@.len() == self.guides().len() + 1 && (forall|k: int|
                0 <= k < self.guides().len() ==> is_resource_of(#[trigger] v@[k], self.guides()[k]))
                && is_config_resource(v@[self.guides().len() as int]),
    {
        let mut resources = self.embedded_provider.list_resources()?;
        let ghost before = resources@;
        resources.push(ConfigResourceProvider::create_config_resource());
        assert(forall|k: int| 0 <= k < before.len() ==> resources@[k] == before[k]);
        Ok(resources)
    }

    /// The guide template; the configuration has none.
    pub fn list_resource_templates(&self) -> (r: Result<Vec<ResourceTemplate>, String>)
        ensures
            r matches Ok(t) && t@.len() == 1 && t@[0].uri_template@ == "file:///docs/guides/{guide}.md"@
                && t@[0].name@ == "best-practice-guides"@,
    {
        let templates = self.embedded_provider.list_resource_templates()?;
        let config = ConfigResourceProvider::list_resource_templates();
        assert(config@.len() == 0);
        Ok(templates)
    }

    /// Completions for a template: the guides answer for the guide template;
    /// for any other the configuration is asked first and, as it never
    /// completes anything, the guides answer.
    pub fn complete_resource(&self, request: &CompletionRequest) -> (r: Result<CompletionResult, String>)
        ensures
            match spec_template_name(request.ref_@) {
                Err(e) => r matches Err(x) && x@ == e,
                Ok(n) => r matches Ok(c) && (if n == "best-practice-guides"@ {
                    (request.argument.name@ != "guide"@ ==> is_empty_completion(c)) && (request.argument.name@
                        == "guide"@ ==> is_guide_completion(c, self.guides(), request.argument.value@))
                } else {
                    is_empty_completion(c)
                }),
            },
    {
        if str_contains(request.ref_.as_str(), "best-practice-guides") {
            self.embedded_provider.complete_resource(request)
        } else {
            let config_result = ConfigResourceProvider::complete_resource(request);
            if config_result.completion.values.len() > 0 {
                Ok(config_result)
            } else {
                self.embedded_provider.complete_resource(request)
            }
        }
    }
}

/// Every resource the combined provider lists is routed back to the
/// provider that listed it: the configuration resource to the
/// configuration, each guide to the guides.
pub proof fn lemma_listed_resources_route_home(r: Resource, d: crate::embedded_content::EmbeddedDocument)
    ensures
        is_config_resource(r) ==> spec_route(r.uri@) == Some(ResourceRoute::Config),
        is_resource_of(r, d) ==> spec_route(r.uri@) == Some(ResourceRoute::Guides),
{
    reveal_strlit("file:///docs/guides/");
    reveal_strlit("file:///config.json");
    reveal_strlit(".md");
    if is_resource_of(r, d) {
        let u = r.uri@;
        assert(u =~= "file:///docs/guides/"@ + d.id@ + ".md"@);
        assert(u.subrange(0, 20) =~= "file:///docs/guides/"@);
        assert(u[8] == 'd');
        assert(config_uri()[8] == 'c');
    }
}

} // verus!

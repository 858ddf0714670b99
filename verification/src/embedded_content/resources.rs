//! The built-in documents published as resources: listing, reading by URI,
//! URI templates and completion of template arguments.
use vstd::prelude::*;
use vstd::string::StringSliceAdditionalSpecFns;
use std::sync::Arc;
use crate::text::{
    owned, push_str, concat, starts_with, ends_with, contains, split_char, split_char_exec, str_starts_with,
    str_ends_with, str_contains, str_eq, chars_of, substring, char_is_alphanumeric, is_alnum, to_lowercase,
    unicode_lowercase,
};
use crate::parser::ast::queries::info::strs;
use crate::embedded_content::{EmbeddedContentRegistry, EmbeddedDocument, document_named};

verus! {

/// A resource that clients can read.
#[derive(Debug, Clone)]
pub struct Resource {
    /// URI naming the resource, such as `file:///docs/guides/x.md`.
    pub uri: String,
    pub name: String,
    pub title: Option<String>,
    pub description: Option<String>,
    pub mime_type: Option<String>,
    /// Size of the content in bytes.
    pub size: Option<u64>,
}

/// The content of a resource: text or base64 data.
#[derive(Debug, Clone)]
pub struct ResourceContent {
    pub uri: String,
    pub text: Option<String>,
    pub blob: Option<String>,
    pub mime_type: Option<String>,
}

/// A URI template from which resource URIs can be built.
#[derive(Debug, Clone)]
pub struct ResourceTemplate {
    /// The template, such as `file:///docs/guides/{guide}.md`.
    pub uri_template: String,
    pub name: String,
    pub title: Option<String>,
    pub description: Option<String>,
    pub mime_type: Option<String>,
}

/// A request to complete an argument of a template.
#[derive(Debug, Clone)]
pub struct CompletionRequest {
    /// The template, as `resources/templates/<name>`.
    pub ref_: String,
    pub argument: CompletionArgument,
}

/// The argument being completed and what has been typed of it.
#[derive(Debug, Clone)]
pub struct CompletionArgument {
    pub name: String,
    pub value: String,
}

/// Answer to a completion request.
#[derive(Debug, Clone)]
pub struct CompletionResult {
    pub completion: Completion,
}

/// Suggested values.
#[derive(Debug, Clone)]
pub struct Completion {
    pub values: Vec<CompletionValue>,
    /// Number of possible values.
    pub total: Option<u32>,
    pub has_more: Option<bool>,
}

/// One suggested value.
#[derive(Debug, Clone)]
pub struct CompletionValue {
    pub value: String,
    pub label: Option<String>,
    pub description: Option<String>,
}

/// Something that publishes resources.
pub trait ResourceProvider {
    /// All resources.
    fn list_resources(&self) -> Result<Vec<Resource>, String>;

    /// The content of the resource at `uri`.
    fn read_resource(&self, uri: &str) -> Result<ResourceContent, String>;

    /// Templates for resource URIs.
    fn list_resource_templates(&self) -> Result<Vec<ResourceTemplate>, String>;

    /// Suggestions for an argument of a template.
    fn complete_resource(&self, request: &CompletionRequest) -> Result<CompletionResult, String>;
}

/// Publishes the built-in documents under `file:///docs/guides/`.
pub struct EmbeddedResourceProvider {
    registry: Arc<EmbeddedContentRegistry>,
}

/// Where guides are published.
pub open spec fn guides_prefix() -> Seq<char> {
    "file:///docs/guides/"@
}

/// Characters allowed in a document identifier.
pub open spec fn is_id_char(c: char) -> bool {
    is_alnum(c) || c == '-' || c == '_'
}

/// The document identifier of a guide URI, or why there is none.
pub open spec fn spec_doc_id(uri: Seq<char>) -> Result<Seq<char>, Seq<char>> {
    if !(starts_with(uri, guides_prefix()) && ends_with(uri, ".md"@)) {
        Err("Invalid resource URI format: "@ + uri)
    } else {
        let id = uri.subrange(guides_prefix().len() as int, uri.len() - 3);
        if !(forall|i: int| 0 <= i < id.len() ==> is_id_char(#[trigger] id[i])) {
            Err("Invalid document ID characters: "@ + id)
        } else if contains(id, ".."@) || id.contains('/') || id.contains('\\') {
            Err("Path traversal attempt in document ID: "@ + id)
        } else {
            Ok(id)
        }
    }
}

/// The template name of a reference `resources/templates/<name>`.
pub open spec fn spec_template_name(r: Seq<char>) -> Result<Seq<char>, Seq<char>> {
    let parts = split_char(r, '/');
    if parts.len() >= 3 && parts[0] == "resources"@ && parts[1] == "templates"@ {
        Ok(parts[2])
    } else {
        Err("Invalid template reference format: "@ + r)
    }
}

/// `r` publishes document `d`.
pub open spec fn is_resource_of(r: Resource, d: EmbeddedDocument) -> bool {
    &&& r.uri@ == guides_prefix() + d.id@ + ".md"@
    &&& r.name@ == d.id@ + ".md"@
    &&& r.title.is_some() && r.title->0@ == d.title@
    &&& r.description.is_some() && r.description->0@ == d.description@
    &&& r.mime_type.is_some() && r.mime_type->0@ == d.content_type@
    &&& r.size == Some((d.content.spec_bytes().len() as usize) as u64)
}

/// A completion with no values.
pub open spec fn is_empty_completion(c: CompletionResult) -> bool {
    c.completion.values@.len() == 0 && c.completion.total == Some(0u32) && c.completion.has_more == Some(false)
}

/// The guides whose lowercased identifier starts with the lowercased `typed`.
pub open spec fn guide_matches(guides: Seq<EmbeddedDocument>, typed: Seq<char>) -> Seq<EmbeddedDocument> {
    guides.filter(|d: EmbeddedDocument| starts_with(unicode_lowercase(d.id@), unicode_lowercase(typed)))
}

/// `v` suggests document `d`.
pub open spec fn is_suggestion_of(v: CompletionValue, d: EmbeddedDocument) -> bool {
    &&& v.value@ == d.id@
    &&& v.label.is_some() && v.label->0@ == d.title@
    &&& v.description.is_some() && v.description->0@ == d.description@
}

/// The documents tagged `guide`.
pub open spec fn guides_of(docs: Seq<EmbeddedDocument>) -> Seq<EmbeddedDocument> {
    docs.filter(|d: EmbeddedDocument| strs(d.tags@).contains("guide"@))
}

/// `c` completes a guide name from `typed`: every guide whose identifier
/// starts with it, ignoring case, out of all guides.
pub open spec fn is_guide_completion(c: CompletionResult, docs: Seq<EmbeddedDocument>, typed: Seq<char>) -> bool {
    let m = guide_matches(guides_of(docs), typed);
    &&& c.completion.values@.len() == m.len()
    &&& forall|k: int| 0 <= k < m.len() ==> is_suggestion_of(#[trigger] c.completion.values@[k], m[k])
    &&& c.completion.total == Some(guides_of(docs).len() as u32)
    &&& c.completion.has_more == Some(false)
}

/// A completion with no values.
fn empty_completion() -> (c: CompletionResult)
    ensures
        is_empty_completion(c),
{
    CompletionResult { completion: Completion { values: Vec::new(), total: Some(0), has_more: Some(false) } }
}

impl EmbeddedResourceProvider {
    /// A provider publishing the documents of `registry`.
    pub fn new(registry: Arc<EmbeddedContentRegistry>) -> (p: Self)
        ensures
            p.documents() == registry@,
    {
        EmbeddedResourceProvider { registry }
    }

    /// The documents published.
    pub closed spec fn documents(&self) -> Seq<EmbeddedDocument> {
        self.registry@
    }

    /// The one template: guides by name.
    pub fn create_resource_templates() -> (t: Vec<ResourceTemplate>)
        ensures
            t@.len() == 1,
            t@[0].uri_template@ == "file:///docs/guides/{guide}.md"@,
            t@[0].name@ == "best-practice-guides"@,
            opt_text(t@[0].title) == Some("Best-Practice Guides"@),
            opt_text(t@[0].description) == Some("Documentation guides for best practices and patterns"@),
            opt_text(t@[0].mime_type) == Some("text/markdown"@),
    {
        let mut t: Vec<ResourceTemplate> = Vec::new();
        t.push(
            ResourceTemplate {
                uri_template: owned("file:///docs/guides/{guide}.md"),
                name: owned("best-practice-guides"),
                title: Some(owned("Best-Practice Guides")),
                description: Some(owned("Documentation guides for best practices and patterns")),
                mime_type: Some(owned("text/markdown")),
            },
        );
        t
    }

    /// The template name of a reference `resources/templates/<name>`.
    pub fn extract_template_name(ref_str: &str) -> (r: Result<String, String>)
        ensures
            match r {
                Ok(n) => spec_template_name(ref_str@) == Ok::<Seq<char>, Seq<char>>(n@),
                Err(e) => spec_template_name(ref_str@) == Err::<Seq<char>, Seq<char>>(e@),
            },
    {
        let parts = split_char_exec(ref_str, '/');
        assert(strs(parts@) == split_char(ref_str@, '/'));
        if parts.len() >= 3 && str_eq(parts[0].as_str(), "resources") && str_eq(parts[1].as_str(), "templates") {
            assert(strs(parts@)[2] == parts@[2]@);
            Ok(parts[2].clone())
        } else {
            proof {
                if parts@.len() >= 3 {
                    assert(strs(parts@)[0] == parts@[0]@);
                    assert(strs(parts@)[1] == parts@[1]@);
                }
            }
            Err(concat("Invalid template reference format: ", ref_str))
        }
    }

    /// The document identifier of a guide URI `file:///docs/guides/<id>.md`,
    /// refusing identifiers other than letters, digits, `-` and `_`.
    pub fn validate_and_extract_doc_id(uri: &str) -> (r: Result<String, String>)
        ensures
            match r {
                Ok(id) => spec_doc_id(uri@) == Ok::<Seq<char>, Seq<char>>(id@),
                Err(e) => spec_doc_id(uri@) == Err::<Seq<char>, Seq<char>>(e@),
            },
    {
        if !str_starts_with(uri, "file:///docs/guides/") || !str_ends_with(uri, ".md") {
            return Err(concat("Invalid resource URI format: ", uri));
        }
        let v = chars_of(uri);
        proof {
            reveal_strlit("file:///docs/guides/");
            reveal_strlit(".md");
            assert(uri@.subrange(17, 20) == guides_prefix().subrange(17, 20));
            assert(guides_prefix()[17] == 'e');
            if uri@.len() < 23 {
                assert(uri@.subrange(uri@.len() - 3, uri@.len() as int)[0] == '.');
                assert(uri@[uri@.len() - 3] == '.');
                assert(uri@.subrange(0, 20)[uri@.len() - 3] == uri@[uri@.len() - 3]);
            }
        }
        let id = substring(&v, 20, v.len() - 3);
        assert(guides_prefix().len() == 20);
        let idv = chars_of(id.as_str());
        let mut i: usize = 0;
        while i < idv.len()
            invariant
                i <= idv@.len(),
                idv@ == id@,
                id@ == uri@.subrange(guides_prefix().len() as int, uri@.len() - 3),
                starts_with(uri@, guides_prefix()),
                ends_with(uri@, ".md"@),
                forall|j: int| 0 <= j < i ==> is_id_char(#[trigger] idv@[j]),
            decreases idv.len() - i,
        {
            let c = idv[i];
            if !(char_is_alphanumeric(c) || c == '-' || c == '_') {
                assert(!is_id_char(id@[i as int]));
                return Err(concat("Invalid document ID characters: ", id.as_str()));
            }
            i = i + 1;
        }
        if str_contains(id.as_str(), "..") || crate::text::has_char(&idv, '/') || crate::text::has_char(&idv, '\\') {
            return Err(concat("Path traversal attempt in document ID: ", id.as_str()));
        }
        Ok(id)
    }

    /// The resource publishing document `doc`.
    pub fn document_to_resource(&self, doc: &EmbeddedDocument) -> (r: Resource)
        ensures
            is_resource_of(r, *doc),
    {
        let mut uri = owned("file:///docs/guides/");
        push_str(&mut uri, doc.id.as_str());
        push_str(&mut uri, ".md");
        let mut name = doc.id.clone();
        push_str(&mut name, ".md");
        Resource {
            uri,
            name,
            title: Some(doc.title.clone()),
            description: Some(doc.description.clone()),
            mime_type: Some(doc.content_type.clone()),
            size: Some(doc.content.len() as u64),
        }
    }

    /// Guides whose identifier starts with the typed value, ignoring case;
    /// nothing for an argument other than `guide`.
    pub fn complete_guide_names(&self, argument: &CompletionArgument) -> (r: CompletionResult)
        ensures
            argument.name@ != "guide"@ ==> is_empty_completion(r),
            argument.name@ == "guide"@ ==> is_guide_completion(r, self.documents(), argument.value@),
    {
        if !str_eq(argument.name.as_str(), "guide") {
            return empty_completion();
        }
        let guides = self.registry.get_documents_by_tag("guide");
        let ghost gs = guides@.map_values(|d: &EmbeddedDocument| *d);
        let prefix = to_lowercase(argument.value.as_str());
        let mut values: Vec<CompletionValue> = Vec::new();
        let mut i: usize = 0;
        while i < guides.len()
            invariant
                i <= guides@.len(),
                gs == guides@.map_values(|d: &EmbeddedDocument| *d),
                prefix@ == unicode_lowercase(argument.value@),
                values@.len() == guide_matches(gs.take(i as int), argument.value@).len(),
                forall|k: int|
                    0 <= k < values@.len() ==> is_suggestion_of(
                        #[trigger] values@[k],
                        guide_matches(gs.take(i as int), argument.value@)[k],
                    ),
            decreases guides.len() - i,
        {
            proof {
                crate::parser::ast::queries::processor::lemma_filter_take(
                    gs,
                    |d: EmbeddedDocument| starts_with(unicode_lowercase(d.id@), unicode_lowercase(argument.value@)),
                    i as int,
                );
            }
            let d = guides[i];
            assert(*d == gs[i as int]);
            let lid = to_lowercase(d.id.as_str());
            if str_starts_with(lid.as_str(), prefix.as_str()) {
                values.push(
                    CompletionValue {
                        value: d.id.clone(),
                        label: Some(d.title.clone()),
                        description: Some(d.description.clone()),
                    },
                );
            }
            i = i + 1;
        }
        assert(gs.take(gs.len() as int) =~= gs);
        CompletionResult {
            completion: Completion { values, total: Some(guides.len() as u32), has_more: Some(false) },
        }
    }
}

/// Text of an optional string.
pub open spec fn opt_text(o: Option<String>) -> Option<Seq<char>> {
    match o {
        Some(s) => Some(s@),
        None => None,
    }
}

impl ResourceProvider for EmbeddedResourceProvider {
    /// One resource per document, in order.
    fn list_resources(&self) -> (r: Result<Vec<Resource>, String>)
        ensures
            r matches Ok(v) && v@.len() == self.documents().len() && forall|k: int|
                0 <= k < v@.len() ==> is_resource_of(#[trigger] v@[k], self.documents()[k]),
    {
        let docs = self.registry.get_all_documents();
        let mut out: Vec<Resource> = Vec::new();
        let mut i: usize = 0;
        while i < docs.len()
            invariant
                i <= docs@.len(),
                docs@ == self.documents(),
                out@.len() == i,
                forall|k: int| 0 <= k < i ==> is_resource_of(#[trigger] out@[k], docs@[k]),
            decreases docs.len() - i,
        {
            out.push(self.document_to_resource(&docs[i]));
            i = i + 1;
        }
        Ok(out)
    }

    /// The text of the document that a guide URI names.
    fn read_resource(&self, uri: &str) -> (r: Result<ResourceContent, String>)
        ensures
            match spec_doc_id(uri@) {
                Err(_) => r matches Err(e) && e@ == "Invalid embedded resource URI: "@ + uri@,
                Ok(id) => match document_named(self.documents(), id) {
                    None => r matches Err(e) && e@ == "Embedded document not found: "@ + id,
                    Some(d) => r matches Ok(c) && c.uri@ == uri@ && opt_text(c.text) == Some(d.content@)
                        && c.blob is None && opt_text(c.mime_type) == Some(d.content_type@),
                },
            },
    {
        let id = match Self::validate_and_extract_doc_id(uri) {
            Ok(id) => id,
            Err(_) => {
                return Err(concat("Invalid embedded resource URI: ", uri));
            },
        };
        match self.registry.get_document_by_id(id.as_str()) {
            None => Err(concat("Embedded document not found: ", id.as_str())),
            Some(d) => Ok(
                ResourceContent {
                    uri: owned(uri),
                    text: Some(owned(d.content)),
                    blob: None,
                    mime_type: Some(d.content_type.clone()),
                },
            ),
        }
    }

    /// The template for guides.
    fn list_resource_templates(&self) -> (r: Result<Vec<ResourceTemplate>, String>)
        ensures
            r matches Ok(t) && t@.len() == 1 && t@[0].uri_template@ == "file:///docs/guides/{guide}.md"@
                && t@[0].name@ == "best-practice-guides"@,
    {
        Ok(Self::create_resource_templates())
    }

    /// Guide names for the guide template; nothing for other templates.
    fn complete_resource(&self, request: &CompletionRequest) -> (r: Result<CompletionResult, String>)
        ensures
            match spec_template_name(request.ref_@) {
                Err(e) => r matches Err(x) && x@ == e,
                Ok(n) => r matches Ok(c) && (if n == "best-practice-guides"@ {
                    (request.argument.name@ != "guide"@ ==> is_empty_completion(c)) && (request.argument.name@
                        == "guide"@ ==> is_guide_completion(c, self.documents(), request.argument.value@))
                } else {
                    is_empty_completion(c)
                }),
            },
    {
        let name = Self::extract_template_name(request.ref_.as_str())?;
        if str_eq(name.as_str(), "best-practice-guides") {
            Ok(self.complete_guide_names(&request.argument))
        } else {
            Ok(empty_completion())
        }
    }
}

/// A guide URI names a document exactly when it is the guides prefix, then
/// an identifier of letters, digits, `-` and `_` (possibly empty), then
/// `.md`; the identifier is what it names. No accepted identifier holds
/// `.`, `/` or `\\`.
pub proof fn lemma_safe_ids_accepted(m: Seq<char>)
    ensures
        (forall|i: int| 0 <= i < m.len() ==> is_id_char(#[trigger] m[i])) ==> spec_doc_id(
            guides_prefix() + m + ".md"@,
        ) == Ok::<Seq<char>, Seq<char>>(m),
        (forall|i: int| 0 <= i < m.len() ==> is_id_char(#[trigger] m[i])) ==> !m.contains('.') && !m.contains('/')
            && !m.contains('\\'),
{
    reveal_strlit("file:///docs/guides/");
    reveal_strlit(".md");
    reveal_strlit("..");
    if forall|i: int| 0 <= i < m.len() ==> is_id_char(#[trigger] m[i]) {
        let uri = guides_prefix() + m + ".md"@;
        assert(uri.subrange(0, guides_prefix().len() as int) =~= guides_prefix());
        assert(uri.subrange(uri.len() - 3, uri.len() as int) =~= ".md"@);
        assert(uri.subrange(guides_prefix().len() as int, uri.len() - 3) =~= m);
        assert(!is_id_char('.') && !is_id_char('/') && !is_id_char('\\'));
        crate::text::lemma_find_from_occurs(m, ".."@, 0);
        if contains(m, ".."@) {
            let p = crate::text::find_from(m, ".."@, 0)->0 as int;
            assert(m.subrange(p, p + 2)[0] == m[p]);
        }
    }
}

/// Whatever a guide URI names, the URI is the guides prefix, the name and
/// `.md`, and the name is made of letters, digits, `-` and `_`.
pub proof fn lemma_accepted_ids_are_safe(uri: Seq<char>)
    ensures
        spec_doc_id(uri) matches Ok(m) ==> uri == guides_prefix() + m + ".md"@ && forall|i: int|
            0 <= i < m.len() ==> is_id_char(#[trigger] m[i]),
{
    reveal_strlit("file:///docs/guides/");
    reveal_strlit(".md");
    if spec_doc_id(uri) is Ok {
        if uri.len() < 23 {
            assert(uri.subrange(uri.len() - 3, uri.len() as int)[0] == '.');
            assert(uri.subrange(0, 20)[uri.len() - 3] == uri[uri.len() - 3]);
        }
        let m = uri.subrange(guides_prefix().len() as int, uri.len() - 3);
        assert(uri.subrange(0, guides_prefix().len() as int) =~= guides_prefix());
        assert(uri.subrange(uri.len() - 3, uri.len() as int) =~= ".md"@);
        assert(uri =~= guides_prefix() + m + ".md"@);
    }
}

/// Reading the URI under which a document is listed names that document,
/// and the document found under its identifier is that document, when the
/// identifier is made of letters, digits, `-` and `_` and no two documents
/// share an identifier.
pub proof fn lemma_listed_resource_reads_back(docs: Seq<EmbeddedDocument>, k: int, r: Resource)
    requires
        0 <= k < docs.len(),
        is_resource_of(r, docs[k]),
        forall|i: int| 0 <= i < docs[k].id@.len() ==> is_id_char(#[trigger] docs[k].id@[i]),
        forall|i: int, j: int| 0 <= i < j < docs.len() ==> docs[i].id@ != docs[j].id@,
    ensures
        spec_doc_id(r.uri@) == Ok::<Seq<char>, Seq<char>>(docs[k].id@),
        crate::embedded_content::document_named(docs, docs[k].id@) == Some(docs[k]),
{
    let id = docs[k].id@;
    assert(r.uri@ =~= guides_prefix() + id + ".md"@);
    lemma_safe_ids_accepted(id);
    crate::embedded_content::lemma_registry_finds_each_document(docs, k);
}

} // verus!

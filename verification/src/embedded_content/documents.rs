//! The documents built into the library, with their metadata.
use vstd::prelude::*;
use vstd::string::StringSliceAdditionalSpecFns;
use crate::text::{owned, str_eq, strings_contain};
use crate::strmap::{StrMap, lookup, key_index, key_index_from};
use crate::parser::ast::queries::info::strs;

verus! {

/// A document built into the library.
#[derive(Debug, Clone)]
pub struct EmbeddedDocument {
    /// Unique identifier.
    pub id: String,
    pub title: String,
    pub description: String,
    /// The text of the document.
    pub content: &'static str,
    /// MIME type of the content, such as `text/markdown`.
    pub content_type: String,
    /// Tags for discovery.
    pub tags: Vec<String>,
    /// Further facts by key, such as `version` or `author`.
    pub metadata: StrMap<String>,
}

/// Metadata of `d` under `key`, as text.
pub open spec fn metadata_of(d: EmbeddedDocument, key: Seq<char>) -> Option<Seq<char>> {
    match lookup(d.metadata@, key) {
        Some(v) => Some(v@),
        None => None,
    }
}

impl EmbeddedDocument {
    /// A document with the given fields.
    pub fn new(
        id: String,
        title: String,
        description: String,
        content: &'static str,
        content_type: String,
        tags: Vec<String>,
        metadata: StrMap<String>,
    ) -> (d: Self)
        ensures
            d.id == id,
            d.title == title,
            d.description == description,
            d.content == content,
            d.content_type == content_type,
            d.tags == tags,
            d.metadata == metadata,
    {
        EmbeddedDocument { id, title, description, content, content_type, tags, metadata }
    }

    /// Size of the content in bytes.
    pub fn size(&self) -> (n: usize)
        ensures
            n == self.content.spec_bytes().len() as usize,
    {
        self.content.len()
    }

    /// Whether the document carries `tag`.
    pub fn has_tag(&self, tag: &str) -> (b: bool)
        ensures
            b == strs(self.tags@).contains(tag@),
    {
        strings_contain(self.tags.as_slice(), tag)
    }

    /// Metadata under `key`.
    pub fn get_metadata(&self, key: &str) -> (v: Option<&String>)
        ensures
            v matches Some(x) ==> lookup(self.metadata@, key@) == Some(*x),
            v is None ==> lookup(self.metadata@, key@) is None,
    {
        self.metadata.get(key)
    }

    /// The `version` metadata, `1.0` when there is none.
    pub fn version(&self) -> (v: &str)
        ensures
            v@ == match metadata_of(*self, "version"@) {
                Some(x) => x,
                None => "1.0"@,
            },
    {
        match self.metadata.get("version") {
            Some(v) => v.as_str(),
            None => "1.0",
        }
    }

    /// The `author` metadata.
    pub fn author(&self) -> (a: Option<&str>)
        ensures
            a matches Some(x) ==> metadata_of(*self, "author"@) == Some(x@),
            a is None ==> metadata_of(*self, "author"@) is None,
    {
        match self.metadata.get("author") {
            Some(v) => Some(v.as_str()),
            None => None,
        }
    }

    /// Whether the `embedded` metadata is `true`.
    pub fn is_embedded(&self) -> (b: bool)
        ensures
            b == (metadata_of(*self, "embedded"@) == Some("true"@)),
    {
        match self.metadata.get("embedded") {
            Some(v) => str_eq(v.as_str(), "true"),
            None => false,
        }
    }
}

/// The guide to writing modular justfiles.
pub const JUSTFILE_BEST_PRACTICES: &'static str = "# Best Practices for Modular Justfiles

A justfile collects the commands a project needs, from building and testing to
releasing and deploying. In a repository that mixes several languages and build
systems it easily grows into one long file that nobody wants to touch. This
guide describes how to keep it small, readable and dependable.

## Keep the root justfile thin

The justfile at the root of the repository should read like a table of
contents. Give each language or component its own module and import it:

```just
mod rust 'build/rust.just'
mod web 'build/web.just'
mod docs 'build/docs.just'
```

Recipes at the root then delegate: `build: rust::build web::build` builds every
part, while `just rust::test` runs the tests of one part.

## Name recipes by what they do

Use verbs for recipes (`build`, `test`, `lint`, `release`) and the same names in
every module, so that a newcomer can guess the command. Keep helper recipes
private with a leading underscore or the `[private]` attribute, and group
related recipes with `[group('name')]` so that `just --list` stays tidy.

## Document parameters

Write a comment above each recipe that says what it does, and describe its
parameters the same way in every recipe:

```just
# Build one target
# {{target}}: build profile, debug or release
build target='debug':
    cargo build --profile {{target}}
```

Give parameters sensible defaults, and prefer a few explicit parameters to a
catch-all variadic one.

## Make recipes safe to repeat

A recipe should do the same thing the second time it runs. Create directories
with `mkdir -p`, clean before you copy, and guard destructive recipes with
`[confirm('Are you sure?')]`. Keep platform-specific recipes apart with
`[linux]`, `[macos]` and `[windows]` instead of branching inside shell code.

## Share settings, not copies

Put settings and variables used by several modules in one imported file, read
secrets from the environment with `env_var_or_default`, and never write them
into the justfile itself. Small, focused recipes that depend on each other are
easier to test and to reuse than a few large ones.
";

/// `d` is the guide to modular justfiles with its metadata.
pub open spec fn is_best_practices_guide(d: EmbeddedDocument) -> bool {
    &&& d.id@ == "justfile-best-practices"@
    &&& d.title@ == "Best Practices for Modular Justfiles"@
    &&& d.description@ == "Comprehensive guide for creating maintainable justfile structures in polyglot repositories with multiple programming languages and build systems."@
    &&& d.content@ == JUSTFILE_BEST_PRACTICES@
    &&& d.content_type@ == "text/markdown"@
    &&& strs(d.tags@) == seq![
        "justfile"@,
        "best-practices"@,
        "documentation"@,
        "guide"@,
        "build-automation"@,
        "polyglot"@,
    ]
    &&& d.metadata@.map_values(|e: (Seq<char>, String)| (e.0, e.1@)) == seq![
        ("version"@, "1.0"@),
        ("author"@, "just-mcp team"@),
        ("embedded"@, "true"@),
        ("category"@, "guide"@),
        ("language"@, "en"@),
        ("format"@, "markdown"@),
    ]
}

/// The documents built into the library: the guide to modular justfiles.
pub open spec fn is_catalog(docs: Seq<EmbeddedDocument>) -> bool {
    docs.len() == 1 && is_best_practices_guide(docs[0])
}

/// The metadata of the guide, one key at a time.
fn guide_metadata() -> (m: StrMap<String>)
    ensures
        m@.map_values(|e: (Seq<char>, String)| (e.0, e.1@)) == seq![
            ("version"@, "1.0"@),
            ("author"@, "just-mcp team"@),
            ("embedded"@, "true"@),
            ("category"@, "guide"@),
            ("language"@, "en"@),
            ("format"@, "markdown"@),
        ],
{
    let mut entries: Vec<(String, String)> = Vec::new();
    entries.push((owned("version"), owned("1.0")));
    entries.push((owned("author"), owned("just-mcp team")));
    entries.push((owned("embedded"), owned("true")));
    entries.push((owned("category"), owned("guide")));
    entries.push((owned("language"), owned("en")));
    entries.push((owned("format"), owned("markdown")));
    proof {
        reveal_strlit("version");
        reveal_strlit("author");
        reveal_strlit("embedded");
        reveal_strlit("category");
        reveal_strlit("language");
        reveal_strlit("format");
        let ks = entries@.map_values(|e: (String, String)| (e.0@, e.1));
        assert forall|i: int, j: int| 0 <= i < j < ks.len() implies ks[i].0 != ks[j].0 by {
            assert(ks[i].0.len() != ks[j].0.len() || ks[i].0[0] != ks[j].0[0]);
        }
    }
    let m = StrMap::from_distinct(entries);
    assert(m@.map_values(|e: (Seq<char>, String)| (e.0, e.1@)) =~= seq![
        ("version"@, "1.0"@),
        ("author"@, "just-mcp team"@),
        ("embedded"@, "true"@),
        ("category"@, "guide"@),
        ("language"@, "en"@),
        ("format"@, "markdown"@),
    ]);
    m
}

/// All documents built into the library.
pub fn create_embedded_documents() -> (docs: Vec<EmbeddedDocument>)
    ensures
        is_catalog(docs@),
{
    let mut tags: Vec<String> = Vec::new();
    tags.push(owned("justfile"));
    tags.push(owned("best-practices"));
    tags.push(owned("documentation"));
    tags.push(owned("guide"));
    tags.push(owned("build-automation"));
    tags.push(owned("polyglot"));
    assert(strs(tags@) =~= seq![
        "justfile"@,
        "best-practices"@,
        "documentation"@,
        "guide"@,
        "build-automation"@,
        "polyglot"@,
    ]);
    let doc = EmbeddedDocument::new(
        owned("justfile-best-practices"),
        owned("Best Practices for Modular Justfiles"),
        owned(
            "Comprehensive guide for creating maintainable justfile structures in polyglot repositories with multiple programming languages and build systems.",
        ),
        JUSTFILE_BEST_PRACTICES,
        owned("text/markdown"),
        tags,
        guide_metadata(),
    );
    let mut docs: Vec<EmbeddedDocument> = Vec::new();
    docs.push(doc);
    docs
}

/// The built-in document with identifier `id`.
pub fn get_embedded_document(id: &str) -> (d: Option<EmbeddedDocument>)
    ensures
        d matches Some(x) ==> x.id@ == id@ && is_best_practices_guide(x),
        d is None <==> id@ != "justfile-best-practices"@,
{
    let docs = create_embedded_documents();
    let mut docs = docs;
    let doc = docs.remove(0);
    if str_eq(doc.id.as_str(), id) {
        Some(doc)
    } else {
        None
    }
}

/// Identifiers of the built-in documents.
pub fn get_embedded_document_ids() -> (ids: Vec<String>)
    ensures
        strs(ids@) == seq!["justfile-best-practices"@],
{
    let docs = create_embedded_documents();
    let mut ids: Vec<String> = Vec::new();
    let mut i: usize = 0;
    while i < docs.len()
        invariant
            i <= docs@.len(),
            is_catalog(docs@),
            strs(ids@) == docs@.take(i as int).map_values(|d: EmbeddedDocument| d.id@),
        decreases docs.len() - i,
    {
        let ghost prev = strs(ids@);
        ids.push(docs[i].id.clone());
        assert(strs(ids@) =~= prev.push(docs@[i as int].id@));
        assert(docs@.take(i + 1).map_values(|d: EmbeddedDocument| d.id@) =~= docs@.take(i as int).map_values(
            |d: EmbeddedDocument| d.id@,
        ).push(docs@[i as int].id@));
        i = i + 1;
    }
    assert(docs@.take(1) =~= docs@);
    ids
}

/// The document's `category` metadata is `category`.
pub open spec fn in_category(d: EmbeddedDocument, category: Seq<char>) -> bool {
    lookup(d.metadata@, "category"@) matches Some(v) && v@ == category
}

/// The documents of `docs` whose `category` metadata is `category`, in order.
pub fn filter_by_category(docs: Vec<EmbeddedDocument>, category: &str) -> (r: Vec<EmbeddedDocument>)
    ensures
        r@ == docs@.filter(|d: EmbeddedDocument| in_category(d, category@)),
{
    let ghost f = |d: EmbeddedDocument| in_category(d, category@);
    let ghost all = docs@;
    let n = docs.len();
    assert(all.len() == n);
    let mut rest = docs;
    let mut out: Vec<EmbeddedDocument> = Vec::new();
    let mut i: usize = 0;
    while rest.len() > 0
        invariant
            i + rest@.len() == all.len(),
            all.len() <= usize::MAX,
            rest@ == all.subrange(i as int, all.len() as int),
            f == (|d: EmbeddedDocument| in_category(d, category@)),
            out@ == all.take(i as int).filter(f),
        decreases rest@.len(),
    {
        proof {
            crate::parser::ast::queries::processor::lemma_filter_take(all, f, i as int);
        }
        let doc = rest.remove(0);
        assert(doc == all[i as int]);
        let keep = match doc.get_metadata("category") {
            Some(c) => str_eq(c.as_str(), category),
            None => false,
        };
        if keep {
            out.push(doc);
        }
        i = i + 1;
        assert(rest@ =~= all.subrange(i as int, all.len() as int));
    }
    assert(all.take(i as int) =~= all);
    out
}

/// The built-in documents whose `category` metadata is `category`: the
/// guide, whose category is `guide`, or none.
pub fn get_embedded_documents_by_category(category: &str) -> (r: Vec<EmbeddedDocument>)
    ensures
        r@.len() == (if category@ == "guide"@ { 1int } else { 0int }),
        forall|k: int| 0 <= k < r@.len() ==> is_best_practices_guide(#[trigger] r@[k]),
        forall|k: int| 0 <= k < r@.len() ==> in_category(#[trigger] r@[k], category@),
{
    let docs = create_embedded_documents();
    let ghost d0 = docs@[0];
    proof {
        reveal_strlit("category");
        reveal_strlit("version");
        reveal_strlit("author");
        reveal_strlit("embedded");
        let ks = d0.metadata@;
        let vs = ks.map_values(|e: (Seq<char>, String)| (e.0, e.1@));
        assert(vs.len() == 6);
        assert(ks.len() == 6);
        assert(vs[0].0 == ks[0].0 && vs[1].0 == ks[1].0 && vs[2].0 == ks[2].0 && vs[3].0 == ks[3].0);
        assert(vs[3].1 == ks[3].1@);
        assert(ks[0].0.len() == 7 && ks[1].0.len() == 6 && ks[2].0.len() == 8 && ks[3].0 == "category"@);
        assert(ks[2].0[0] == 'e');
        assert("category"@.len() == 8 && "category"@[0] == 'c');
        assert(key_index_from(ks, "category"@, 3) == Some(3nat));
        assert(key_index_from(ks, "category"@, 2) == Some(3nat));
        assert(key_index_from(ks, "category"@, 1) == Some(3nat));
        assert(key_index(ks, "category"@) == Some(3nat));
        assert(lookup(ks, "category"@) == Some(ks[3].1));
        assert(ks[3].1@ == "guide"@);
        assert(in_category(d0, category@) == (category@ == "guide"@));
        let f = |d: EmbeddedDocument| in_category(d, category@);
        assert(docs@ =~= seq![d0]);
        assert(docs@.filter(f) == (if in_category(d0, category@) {
            seq![d0]
        } else {
            Seq::<EmbeddedDocument>::empty()
        })) by {
            reveal(Seq::filter);
            assert(docs@.drop_last() =~= Seq::<EmbeddedDocument>::empty());
            assert(Seq::<EmbeddedDocument>::empty().filter(f) =~= Seq::<EmbeddedDocument>::empty());
            assert(docs@.last() == d0);
            if in_category(d0, category@) {
                assert(Seq::<EmbeddedDocument>::empty() + seq![d0] =~= seq![d0]);
            } else {
                assert(Seq::<EmbeddedDocument>::empty() + Seq::<EmbeddedDocument>::empty() =~= Seq::<EmbeddedDocument>::empty());
            }
        }
    }
    let r = filter_by_category(docs, category);
    r
}

} // verus!

//! What the search commands of the command line compute: the documents
//! indexed for the recipes of a justfile, how they are batched, which
//! embedding providers are tried, and the listings printed for results.
use vstd::prelude::*;
use vstd::utf8::encode_utf8;
use crate::text::{owned, push_str, usize_to_string, decimal, join, join_strings, chars_of, substring, str_replace};
use crate::strmap::StrMap;
use crate::types::JustTask;
use crate::parser::ast::queries::info::strs;

verus! {

/// A document of the search index.
#[derive(Debug, Clone)]
pub struct Document {
    pub id: String,
    /// The text that is embedded and searched.
    pub content: String,
    pub metadata: StrMap<String>,
    pub source_path: Option<String>,
    pub justfile_name: Option<String>,
    pub task_name: Option<String>,
}

// ---------------------------------------------------------------------------
// Documents for recipes
// ---------------------------------------------------------------------------

/// The names of some parameters.
pub open spec fn parameter_names(task: JustTask) -> Seq<Seq<char>> {
    task.parameters@.map_values(|p: crate::types::Parameter| p.name@)
}

/// Searchable text of a recipe: its name, its comments, its parameters and
/// its dependencies, joined by ` - `.
pub open spec fn spec_task_content(task: JustTask) -> Seq<char> {
    let parts = seq![task.name@] + strs(task.comments@) + (if task.parameters@.len() > 0 {
        seq!["Parameters: "@ + join(parameter_names(task), ", "@)]
    } else {
        seq![]
    }) + (if task.dependencies@.len() > 0 {
        seq!["Dependencies: "@ + join(strs(task.dependencies@), ", "@)]
    } else {
        seq![]
    });
    join(parts, " - "@)
}

/// The searchable text of a recipe.
pub fn task_content(task: &JustTask) -> (r: String)
    ensures
        r@ == spec_task_content(*task),
{
    let mut parts: Vec<String> = Vec::new();
    parts.push(task.name.clone());
    let mut i: usize = 0;
    while i < task.comments.len()
        invariant
            i <= task.comments@.len(),
            strs(parts@) == seq![task.name@] + strs(task.comments@).take(i as int),
        decreases task.comments.len() - i,
    {
        let ghost prev = strs(parts@);
        parts.push(task.comments[i].clone());
        assert(strs(parts@) =~= prev.push(task.comments@[i as int]@));
        assert(strs(task.comments@).take(i + 1) =~= strs(task.comments@).take(i as int).push(
            task.comments@[i as int]@,
        ));
        i = i + 1;
    }
    assert(strs(task.comments@).take(task.comments@.len() as int) =~= strs(task.comments@));
    let ghost base = strs(parts@);
    if task.parameters.len() > 0 {
        let mut names: Vec<String> = Vec::new();
        let mut j: usize = 0;
        while j < task.parameters.len()
            invariant
                j <= task.parameters@.len(),
                strs(names@) == parameter_names(*task).take(j as int),
            decreases task.parameters.len() - j,
        {
            let ghost prev = strs(names@);
            names.push(task.parameters[j].name.clone());
            assert(strs(names@) =~= prev.push(task.parameters@[j as int].name@));
            assert(parameter_names(*task).take(j + 1) =~= parameter_names(*task).take(j as int).push(
                task.parameters@[j as int].name@,
            ));
            j = j + 1;
        }
        assert(parameter_names(*task).take(task.parameters@.len() as int) =~= parameter_names(*task));
        let mut p = owned("Parameters: ");
        push_str(&mut p, join_strings(&names, ", ").as_str());
        let ghost prev = strs(parts@);
        parts.push(p);
        assert(strs(parts@) =~= prev.push(p@));
    }
    let ghost with_params = strs(parts@);
    if task.dependencies.len() > 0 {
        let mut d = owned("Dependencies: ");
        push_str(&mut d, join_strings(&task.dependencies, ", ").as_str());
        let ghost prev = strs(parts@);
        parts.push(d);
        assert(strs(parts@) =~= prev.push(d@));
    }
    assert(strs(parts@) =~= seq![task.name@] + strs(task.comments@) + (if task.parameters@.len() > 0 {
        seq!["Parameters: "@ + join(parameter_names(*task), ", "@)]
    } else {
        seq![]
    }) + (if task.dependencies@.len() > 0 {
        seq!["Dependencies: "@ + join(strs(task.dependencies@), ", "@)]
    } else {
        seq![]
    }));
    join_strings(&parts, " - ")
}

/// The metadata of the document of a recipe: its kind, the justfile's
/// name when known, the justfile's path and the recipe's line.
pub open spec fn spec_task_metadata(
    task: JustTask,
    justfile_name: Option<Seq<char>>,
    source_path: Seq<char>,
) -> Seq<(Seq<char>, Seq<char>)> {
    seq![("type"@, "justfile_task"@)] + match justfile_name {
        Some(j) => seq![("justfile_name"@, j)],
        None => seq![],
    } + seq![("source_path"@, source_path), ("line_number"@, decimal(task.line_number as nat))]
}

/// Values of a string map as text.
pub open spec fn text_entries(m: Seq<(Seq<char>, String)>) -> Seq<(Seq<char>, Seq<char>)> {
    m.map_values(|e: (Seq<char>, String)| (e.0, e.1@))
}

/// The document indexed for a recipe of the justfile at `source_path`,
/// under the identifier `id`.
pub fn task_document(task: &JustTask, id: String, justfile_name: Option<&str>, source_path: &str) -> (d: Document)
    ensures
        d.id == id,
        d.content@ == spec_task_content(*task),
        text_entries(d.metadata@) == spec_task_metadata(
            *task,
            match justfile_name {
                Some(j) => Some(j@),
                None => None,
            },
            source_path@,
        ),
        d.source_path matches Some(p) && p@ == source_path@,
        match justfile_name {
            Some(j) => d.justfile_name matches Some(x) && x@ == j@,
            None => d.justfile_name is None,
        },
        d.task_name matches Some(t) && t@ == task.name@,
{
    let mut metadata: StrMap<String> = StrMap::new();
    metadata.push_unchecked(owned("type"), owned("justfile_task"));
    match justfile_name {
        Some(j) => {
            metadata.push_unchecked(owned("justfile_name"), owned(j));
        },
        None => {},
    }
    metadata.push_unchecked(owned("source_path"), owned(source_path));
    metadata.push_unchecked(owned("line_number"), usize_to_string(task.line_number));
    assert(text_entries(metadata@) =~= spec_task_metadata(
        *task,
        match justfile_name {
            Some(j) => Some(j@),
            None => None,
        },
        source_path@,
    ));
    Document {
        id,
        content: task_content(task),
        metadata,
        source_path: Some(owned(source_path)),
        justfile_name: match justfile_name {
            Some(j) => Some(owned(j)),
            None => None,
        },
        task_name: Some(task.name.clone()),
    }
}

/// Number of batches of at most `batch_size` documents for `n` documents.
pub fn batch_count(n: usize, batch_size: usize) -> (c: usize)
    requires
        batch_size > 0,
        n + batch_size <= usize::MAX,
    ensures
        c == (n + batch_size - 1) / (batch_size as int),
{
    (n + batch_size - 1) / batch_size
}

// ---------------------------------------------------------------------------
// Embedding providers
// ---------------------------------------------------------------------------

/// A source of embeddings.
#[derive(Debug, Clone, Copy, PartialEq, Eq)]
pub enum EmbeddingChoice {
    /// Deterministic embeddings for testing.
    Mock,
    /// The OpenAI service.
    OpenAI,
    /// A model run on this machine.
    Local,
}

/// The providers to try in order: the one asked for, else OpenAI when a key
/// is given, else local embeddings falling back to mock ones (local ones only
/// when they are built in).
pub open spec fn spec_provider_order(
    prefer_local: bool,
    prefer_mock: bool,
    has_api_key: bool,
    local_built: bool,
) -> Seq<EmbeddingChoice> {
    if prefer_mock {
        seq![EmbeddingChoice::Mock]
    } else if has_api_key {
        seq![EmbeddingChoice::OpenAI]
    } else if local_built && prefer_local {
        seq![EmbeddingChoice::Local]
    } else if local_built {
        seq![EmbeddingChoice::Local, EmbeddingChoice::Mock]
    } else {
        seq![EmbeddingChoice::Mock]
    }
}

/// The embedding providers to try, in order, until one can be set up.
pub fn provider_order(prefer_local: bool, prefer_mock: bool, has_api_key: bool, local_built: bool) -> (r: Vec<
    EmbeddingChoice,
>)
    ensures
        r@ == spec_provider_order(prefer_local, prefer_mock, has_api_key, local_built),
{
    let mut v: Vec<EmbeddingChoice> = Vec::new();
    if prefer_mock {
        v.push(EmbeddingChoice::Mock);
    } else if has_api_key {
        v.push(EmbeddingChoice::OpenAI);
    } else if local_built && prefer_local {
        v.push(EmbeddingChoice::Local);
    } else if local_built {
        v.push(EmbeddingChoice::Local);
        v.push(EmbeddingChoice::Mock);
    } else {
        v.push(EmbeddingChoice::Mock);
    }
    assert(v@ =~= spec_provider_order(prefer_local, prefer_mock, has_api_key, local_built));
    v
}

// ---------------------------------------------------------------------------
// Listings
// ---------------------------------------------------------------------------

/// The first `n` characters of `s`, or all of them.
pub open spec fn first_chars(s: Seq<char>, n: nat) -> Seq<char> {
    if s.len() <= n {
        s
    } else {
        s.take(n as int)
    }
}

/// Lines naming a result: its number, identifier, recipe and justfile.
pub open spec fn entry_head(k: nat, d: Document) -> Seq<char> {
    decimal(k + 1) + ". ID: "@ + d.id@ + "\n"@ + match d.task_name {
        Some(t) => "   Task: "@ + t@ + "\n"@,
        None => seq![],
    } + match d.justfile_name {
        Some(j) => "   Justfile: "@ + j@ + "\n"@,
        None => seq![],
    }
}

/// Lines showing at most `n` characters of `content`, then `...` when its
/// UTF-8 encoding is longer than `n` bytes, then a blank line.
pub open spec fn content_lines(content: Seq<char>, n: nat) -> Seq<char> {
    "   Content: "@ + first_chars(content, n) + "\n"@ + (if (encode_utf8(content).len() as usize) > n {
        "   ...\n"@
    } else {
        seq![]
    }) + "\n"@
}

/// The entries of a listing from result `k` on; `highlight` marks `text`.
pub open spec fn entries_from(docs: Seq<Document>, k: nat, text: Option<Seq<char>>) -> Seq<char>
    decreases docs.len() - k,
{
    if k >= docs.len() {
        seq![]
    } else {
        let d = docs[k as int];
        entry_head(k, d) + match text {
            Some(t) => content_lines(crate::text::replace(d.content@, t, "**"@ + t + "**"@), 200),
            None => content_lines(d.content@, 100),
        } + entries_from(docs, k + 1, text)
    }
}

/// Appends the lines naming result `k`.
fn push_entry_head(out: &mut String, k: usize, d: &Document)
    requires
        k < usize::MAX,
    ensures
        final(out)@ == old(out)@ + entry_head(k as nat, *d),
{
    push_str(out, usize_to_string(k + 1).as_str());
    push_str(out, ". ID: ");
    push_str(out, d.id.as_str());
    push_str(out, "\n");
    match &d.task_name {
        Some(t) => {
            push_str(out, "   Task: ");
            push_str(out, t.as_str());
            push_str(out, "\n");
        },
        None => {},
    }
    match &d.justfile_name {
        Some(j) => {
            push_str(out, "   Justfile: ");
            push_str(out, j.as_str());
            push_str(out, "\n");
        },
        None => {},
    }
}

/// Appends at most `n` characters of `content` and the marks after them.
fn push_content(out: &mut String, content: &str, n: usize)
    ensures
        final(out)@ == old(out)@ + content_lines(content@, n as nat),
{
    let v = chars_of(content);
    let shown = if v.len() <= n {
        substring(&v, 0, v.len())
    } else {
        substring(&v, 0, n)
    };
    assert(v@.subrange(0, v@.len() as int) =~= v@);
    push_str(out, "   Content: ");
    push_str(out, shown.as_str());
    push_str(out, "\n");
    if content.len() > n {
        push_str(out, "   ...\n");
    }
    push_str(out, "\n");
}

/// Appends the entries from result `k` on.
fn push_entries(out: &mut String, docs: &[Document], text: Option<&str>)
    ensures
        final(out)@ == old(out)@ + entries_from(
            docs@,
            0,
            match text {
                Some(t) => Some(t@),
                None => None,
            },
        ),
{
    let ghost t = match text {
        Some(t) => Some(t@),
        None => None,
    };
    let ghost start = out@;
    let mut k: usize = 0;
    while k < docs.len()
        invariant
            k <= docs@.len(),
            t == match text {
                Some(x) => Some(x@),
                None => None::<Seq<char>>,
            },
            start + entries_from(docs@, 0, t) == out@ + entries_from(docs@, k as nat, t),
        decreases docs.len() - k,
    {
        let d = &docs[k];
        let ghost before = out@;
        push_entry_head(out, k, d);
        match text {
            Some(x) => {
                let mut marked = owned("**");
                push_str(&mut marked, x);
                push_str(&mut marked, "**");
                let highlighted = str_replace(d.content.as_str(), x, marked.as_str());
                push_content(out, highlighted.as_str(), 200);
            },
            None => {
                push_content(out, d.content.as_str(), 100);
            },
        }
        assert(out@ + entries_from(docs@, (k + 1) as nat, t) =~= before + entries_from(docs@, k as nat, t));
        k = k + 1;
    }
    assert(entries_from(docs@, k as nat, t) =~= Seq::<char>::empty());
}

/// The listing of documents that matched metadata filters.
pub open spec fn spec_filter_listing(docs: Seq<Document>) -> Seq<char> {
    if docs.len() == 0 {
        "No documents found matching filters\n"@
    } else {
        "Found "@ + decimal(docs.len()) + " documents matching filters:\n"@ + "\n"@ + entries_from(docs, 0, None)
    }
}

/// The text printed for documents that matched metadata filters: a line per
/// field and the first hundred characters of the content.
pub fn filter_listing(docs: &[Document]) -> (r: String)
    ensures
        r@ == spec_filter_listing(docs@),
{
    if docs.len() == 0 {
        return owned("No documents found matching filters\n");
    }
    let mut out = owned("Found ");
    push_str(&mut out, usize_to_string(docs.len()).as_str());
    push_str(&mut out, " documents matching filters:\n");
    push_str(&mut out, "\n");
    push_entries(&mut out, docs, None);
    out
}

/// The listing of documents that contain `text`.
pub open spec fn spec_text_listing(text: Seq<char>, docs: Seq<Document>) -> Seq<char> {
    if docs.len() == 0 {
        "No documents found containing text: '"@ + text + "'\n"@
    } else {
        "Found "@ + decimal(docs.len()) + " documents containing text '"@ + text + "':\n"@ + "\n"@
            + entries_from(docs, 0, Some(text))
    }
}

/// The text printed for documents that contain `text`: a line per field and
/// the first two hundred characters of the content with `text` in bold.
pub fn text_listing(text: &str, docs: &[Document]) -> (r: String)
    ensures
        r@ == spec_text_listing(text@, docs@),
{
    if docs.len() == 0 {
        let mut out = owned("No documents found containing text: '");
        push_str(&mut out, text);
        push_str(&mut out, "'\n");
        return out;
    }
    let mut out = owned("Found ");
    push_str(&mut out, usize_to_string(docs.len()).as_str());
    push_str(&mut out, " documents containing text '");
    push_str(&mut out, text);
    push_str(&mut out, "':\n");
    push_str(&mut out, "\n");
    push_entries(&mut out, docs, Some(text));
    out
}

/// The statistics printed for a search index.
pub open spec fn spec_stats_listing(database: Seq<char>, count: nat, healthy: bool) -> Seq<char> {
    "Vector Database Statistics\n"@ + "==========================\n"@ + "Database path: "@ + database + "\n"@
        + "Total documents: "@ + decimal(count) + "\n"@ + "Health status: "@ + (if healthy {
        "Healthy"@
    } else {
        "Unhealthy"@
    }) + "\n"@
}

/// The text printed for the statistics of the index at `database`.
pub fn stats_listing(database: &str, count: usize, healthy: bool) -> (r: String)
    ensures
        r@ == spec_stats_listing(database@, count as nat, healthy),
{
    let mut out = owned("Vector Database Statistics\n");
    push_str(&mut out, "==========================\n");
    push_str(&mut out, "Database path: ");
    push_str(&mut out, database);
    push_str(&mut out, "\n");
    push_str(&mut out, "Total documents: ");
    push_str(&mut out, usize_to_string(count).as_str());
    push_str(&mut out, "\n");
    push_str(&mut out, "Health status: ");
    push_str(&mut out, if healthy {
        "Healthy"
    } else {
        "Unhealthy"
    });
    push_str(&mut out, "\n");
    out
}

/// The batches hold every document, and the last batch is not empty: with
/// `c` batches of `batch_size`, `(c - 1) * batch_size < n <= c * batch_size`.
pub proof fn lemma_batches_cover(n: nat, batch_size: nat)
    requires
        n > 0,
        batch_size > 0,
    ensures
        ((n + batch_size - 1) / (batch_size as int) - 1) * batch_size < n,
        n <= ((n + batch_size - 1) / (batch_size as int)) * batch_size,
{
    let c = (n + batch_size - 1) / (batch_size as int);
    let r = (n + batch_size - 1) % (batch_size as int);
    assert(c * batch_size + r == n + batch_size - 1 && 0 <= r < batch_size) by (nonlinear_arith)
        requires
            batch_size > 0,
            c == (n + batch_size - 1) / (batch_size as int),
            r == (n + batch_size - 1) % (batch_size as int),
    ;
    assert((c - 1) * batch_size == c * batch_size - batch_size) by (nonlinear_arith);
}

} // verus!

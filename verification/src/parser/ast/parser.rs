//! Parsing a justfile into a syntax tree, findings of recipe validation and
//! facts about the grammar.
use vstd::prelude::*;
use std::sync::Arc;
use vstd::utf8::encode_utf8;
use crate::text::{decimal, owned, push_str, usize_to_string};
use crate::parser::ast::errors::ASTError;
use crate::parser::ast::nodes::{ASTNode, table_wf, descendants_of, places, all_of_parse, node_text};
use crate::parser::ast::recipe_text::{
    header_from, name_from, spec_recipe_line, is_text_task, text_readable, text_readable_exec,
    parse_recipe_text, extract_recipe_name_from_text,
};
use crate::text::{text_lines, trim, contains, str_eq, str_trim, str_starts_with, str_contains, has_char, chars_of, lines_of};
use crate::types::JustTask;
use crate::parser::ast::cache::{QueryCache, CacheStats, no_counts};
use crate::parser::ast::syntax::{
    SourceTree, NodeRecord, NodeView, nodes_view, node_view, just_parses, just_syntax_nodes, grammar_facts,
    CompiledQuery, MatchRecord, MatchCursor, matches_view, just_query_matches,
};

verus! {

/// How serious a finding is.
#[derive(Debug, Clone, Copy, PartialEq, Eq)]
pub enum ValidationSeverity {
    /// Prevents parsing.
    Error,
    /// Should be addressed.
    Warning,
    /// For information.
    Info,
}

/// A finding of recipe validation.
#[derive(Debug, Clone)]
pub struct ValidationError {
    /// Line, counted from one.
    pub line: usize,
    /// Column, counted from zero.
    pub column: usize,
    pub message: String,
    pub severity: ValidationSeverity,
}

/// Facts about the grammar the parser uses.
#[derive(Debug, Clone)]
pub struct ParserStats {
    pub language_version: usize,
    pub node_kind_count: usize,
    pub field_count: u16,
}

/// Text of a severity.
pub open spec fn spec_severity_text(s: ValidationSeverity) -> Seq<char> {
    match s {
        ValidationSeverity::Error => "error"@,
        ValidationSeverity::Warning => "warning"@,
        ValidationSeverity::Info => "info"@,
    }
}

/// `severity:line:column: message`.
pub open spec fn spec_finding_text(e: ValidationError) -> Seq<char> {
    spec_severity_text(e.severity) + ":"@ + decimal(e.line as nat) + ":"@ + decimal(e.column as nat) + ": "@
        + e.message@
}

impl ValidationSeverity {
    /// `error`, `warning` or `info`.
    pub fn to_string(&self) -> (s: String)
        ensures
            s@ == spec_severity_text(*self),
    {
        match self {
            ValidationSeverity::Error => owned("error"),
            ValidationSeverity::Warning => owned("warning"),
            ValidationSeverity::Info => owned("info"),
        }
    }
}

impl ValidationError {
    /// `severity:line:column: message`.
    pub fn to_string(&self) -> (s: String)
        ensures
            s@ == spec_finding_text(*self),
    {
        let mut s = self.severity.to_string();
        push_str(&mut s, ":");
        push_str(&mut s, usize_to_string(self.line).as_str());
        push_str(&mut s, ":");
        push_str(&mut s, usize_to_string(self.column).as_str());
        push_str(&mut s, ": ");
        push_str(&mut s, self.message.as_str());
        s
    }
}


/// A text, the tree the parser made of it, and the nodes of that tree in
/// preorder.
pub struct ParseTree {
    tree: SourceTree,
    nodes: Arc<Vec<NodeRecord>>,
    source: Arc<String>,
}

/// Whether `nodes` form a tree in preorder over a text of `text_len` bytes.
fn table_ok(nodes: &Vec<NodeRecord>, text_len: usize) -> (b: bool)
    ensures
        b == table_wf(nodes_view(nodes@), text_len as nat),
{
    let ghost t = nodes_view(nodes@);
    if nodes.len() == 0 {
        return false;
    }
    assert(t[0] == node_view(nodes@[0]));
    if nodes[0].parent.is_some() {
        return false;
    }
    let mut i: usize = 0;
    while i < nodes.len()
        invariant
            i <= nodes@.len(),
            t == nodes_view(nodes@),
            t.len() == nodes@.len(),
            t.len() > 0,
            t[0].6 is None,
            forall|k: int| 0 < k < i ==> (#[trigger] t[k].6 matches Some(p) && p < k),
            forall|k: int| 0 <= k < i ==> (#[trigger] t[k].3).0 <= t[k].3.1 <= text_len,
        decreases nodes@.len() - i,
    {
        assert(t[i as int] == node_view(nodes@[i as int]));
        if i > 0 {
            match nodes[i].parent {
                Some(p) => {
                    if p >= i {
                        assert(t[i as int].6 == nodes@[i as int].parent);
                        return false;
                    }
                },
                None => {
                    assert(t[i as int].6 == nodes@[i as int].parent);
                    return false;
                },
            }
        }
        let (a, b) = nodes[i].byte_range;
        if !(a <= b && b <= text_len) {
            assert(t[i as int].3 == nodes@[i as int].byte_range);
            return false;
        }
        i = i + 1;
    }
    true
}

/// Of the nodes `d`, those that are errors or were inserted by error
/// recovery, among the first `n`, in order.
pub open spec fn flagged_upto(t: Seq<NodeView>, d: Seq<int>, n: int) -> Seq<int>
    decreases n,
{
    if n <= 0 {
        seq![]
    } else {
        flagged_upto(t, d, n - 1) + if t[d[n - 1]].4 || t[d[n - 1]].5 {
            seq![d[n - 1]]
        } else {
            seq![]
        }
    }
}

/// The error nodes below the root of table `t`, in preorder.
pub open spec fn error_places(t: Seq<NodeView>) -> Seq<int> {
    let d = descendants_of(t, 0);
    flagged_upto(t, d, d.len() as int)
}

impl ParseTree {
    /// The text is what the tree was made of, the nodes are the tree's, and
    /// they form a tree in preorder.
    #[verifier::type_invariant]
    spec fn parsed(self) -> bool {
        &&& self.source@ == self.tree.source()
        &&& nodes_view(self.nodes@) == just_syntax_nodes(self.source@)
        &&& table_wf(nodes_view(self.nodes@), encode_utf8(self.source@).len())
    }

    /// The parsed text.
    pub closed spec fn text_view(&self) -> Seq<char> {
        self.source@
    }

    /// The nodes of the tree in preorder.
    pub closed spec fn table(&self) -> Seq<NodeView> {
        nodes_view(self.nodes@)
    }

    /// Lists the nodes of `tree`; `None` when they do not form a tree in
    /// preorder within the text.
    pub fn new(tree: SourceTree) -> (r: Option<ParseTree>)
        ensures
            r is Some == table_wf(just_syntax_nodes(tree.source()), encode_utf8(tree.source()).len()),
            r matches Some(p) ==> p.text_view() == tree.source() && p.table() == just_syntax_nodes(
                tree.source(),
            ),
    {
        let nodes = tree.nodes();
        let source = owned(tree.text());
        if table_ok(&nodes, source.as_str().as_bytes().len()) {
            Some(ParseTree { tree, nodes: Arc::new(nodes), source: Arc::new(source) })
        } else {
            None
        }
    }

    /// The matches of `query` over the tree found with `cursor`, each with
    /// its captured nodes.
    pub fn query_matches(&self, query: &CompiledQuery, cursor: &mut MatchCursor) -> (r: Vec<MatchRecord>)
        ensures
            matches_view(r@) == just_query_matches(
                query.pattern(),
                self.text_view(),
                old(cursor).match_limit(),
                old(cursor).byte_ranges(),
            ),
            final(cursor).match_limit() == old(cursor).match_limit(),
            final(cursor).byte_ranges() == old(cursor).byte_ranges(),
    {
        proof {
            use_type_invariant(self);
        }
        self.tree.query_matches(query, cursor)
    }

    /// The root node.
    pub fn root(&self) -> (n: ASTNode)
        ensures
            n.table() == self.table(),
            n.text_view() == self.text_view(),
            n.place() == 0,
    {
        proof {
            use_type_invariant(self);
        }
        ASTNode::at(self.nodes.clone(), self.source.clone(), 0)
    }

    /// The parsed text.
    pub fn source(&self) -> (s: &str)
        ensures
            s@ == self.text_view(),
    {
        self.source.as_str()
    }

    /// Whether the tree holds a syntax error.
    pub fn has_errors(&self) -> (b: bool)
        ensures
            b == self.table()[0].4,
    {
        self.root().has_error()
    }

    /// The nodes below the root that are errors or were inserted by error
    /// recovery, in preorder.
    pub fn error_nodes(&self) -> (r: Vec<ASTNode>)
        ensures
            places(r@) == error_places(self.table()),
            forall|k: int|
                0 <= k < r@.len() ==> (#[trigger] r@[k]).table() == self.table() && r@[k].text_view()
                    == self.text_view(),
    {
        let root = self.root();
        let below = root.descendants();
        let ghost t = self.table();
        let ghost d = places(below@);
        let mut out: Vec<ASTNode> = Vec::new();
        let mut k: usize = 0;
        while k < below.len()
            invariant
                k <= below@.len(),
                d == places(below@),
                d == descendants_of(t, 0),
                t == root.table(),
                all_of_parse(below@, root),
                all_of_parse(out@, root),
                places(out@) == flagged_upto(t, d, k as int),
            decreases below@.len() - k,
        {
            let n = &below[k];
            assert(d[k as int] == n.place());
            assert(n.info() == t[d[k as int]]);
            if n.has_error() || n.is_missing() {
                let c = n.clone();
                let ghost prev = places(out@);
                out.push(c);
                assert(places(out@) =~= prev.push(d[k as int]));
            }
            k = k + 1;
        }
        out
    }
}

/// A row counted from zero as a line counted from one; the last row stays.
pub open spec fn line_from_one(row: usize) -> usize {
    if row < usize::MAX {
        (row + 1) as usize
    } else {
        row
    }
}

/// The message of a syntax error at a node: the node's text, or
/// `<unknown>` when it cannot be read.
pub open spec fn error_message(text: Seq<char>, v: NodeView) -> Seq<char> {
    "Parse error near '"@ + match node_text(text, v) {
        Some(s) => s,
        None => "<unknown>"@,
    } + "'"@
}

/// The first error node of a table, when the root holds an error.
pub open spec fn first_error(t: Seq<NodeView>) -> Option<int> {
    if t[0].4 && error_places(t).len() > 0 {
        Some(error_places(t)[0])
    } else {
        None
    }
}

/// Parses justfiles into syntax trees with the just grammar, and keeps a
/// cache of compiled queries.
pub struct ASTJustParser {
    query_cache: QueryCache,
}

impl ASTJustParser {
    /// A parser with an empty cache for 128 queries.
    pub fn new() -> (r: Result<ASTJustParser, ASTError>)
        ensures
            r matches Ok(p) && p.query_cache_view().entries().len() == 0 && p.query_cache_view().limit() == 128
                && p.query_cache_view().counters() == no_counts(),
    {
        Ok(ASTJustParser { query_cache: QueryCache::with_capacity(128) })
    }

    /// The cache of compiled queries.
    pub closed spec fn query_cache_view(&self) -> QueryCache {
        self.query_cache
    }

    /// The cache of compiled queries.
    pub fn query_cache(&self) -> (c: &QueryCache)
        ensures
            *c == self.query_cache_view(),
    {
        &self.query_cache
    }

    /// The cache of compiled queries, to compile and look up queries in.
    pub fn query_cache_mut(&mut self) -> (c: &mut QueryCache)
        ensures
            *c == old(self).query_cache_view(),
            final(self).query_cache_view() == *final(c),
    {
        &mut self.query_cache
    }

    /// The counters of the query cache.
    pub fn cache_stats(&self) -> (r: Result<CacheStats, ASTError>)
        ensures
            r == Ok::<CacheStats, ASTError>(self.query_cache_view().counters()),
    {
        self.query_cache.stats()
    }

    /// Parses `content`. Fails when the parser yields no tree, when its nodes
    /// do not form a tree over the text, and at the first node below the root
    /// that is an error or was inserted by error recovery, when the root
    /// holds an error: then the error gives that node's line (from one),
    /// column, and text.
    pub fn parse_content(&mut self, content: &str) -> (r: Result<ParseTree, ASTError>)
        ensures
            !just_parses(content@) ==> (r matches Err(ASTError::ParserInitialization { message })
                && message@ == "Tree-sitter parse returned None"@),
            just_parses(content@) && !table_wf(
                just_syntax_nodes(content@),
                encode_utf8(content@).len(),
            ) ==> (r matches Err(ASTError::InvalidStructure { description })
                && description@ == "the parser's nodes do not form a tree"@),
            just_parses(content@) && table_wf(just_syntax_nodes(content@), encode_utf8(content@).len())
                ==> ({
                let t = just_syntax_nodes(content@);
                match first_error(t) {
                    None => (r matches Ok(p) && p.text_view() == content@ && p.table() == t),
                    Some(e) => (r matches Err(ASTError::SyntaxError { line, column, message })
                        && line == line_from_one(t[e].1.0) && column == t[e].1.1 && message@
                        == error_message(content@, t[e])),
                }
            }),
    {
        let tree = match SourceTree::parse(content) {
            Some(t) => t,
            None => {
                return Err(ASTError::parser_init("Tree-sitter parse returned None"));
            },
        };
        let parsed = match ParseTree::new(tree) {
            Some(p) => p,
            None => {
                return Err(ASTError::invalid_structure("the parser's nodes do not form a tree"));
            },
        };
        if parsed.has_errors() {
            let errors = parsed.error_nodes();
            if errors.len() > 0 {
                let first = &errors[0];
                assert(first.place() == error_places(parsed.table())[0]);
                let (row, column) = first.start_position();
                let line = if row < usize::MAX {
                    row + 1
                } else {
                    row
                };
                let mut message = owned("Parse error near '");
                match first.text() {
                    Ok(s) => push_str(&mut message, s),
                    Err(_) => push_str(&mut message, "<unknown>"),
                }
                push_str(&mut message, "'");
                return Err(ASTError::syntax_error(line, column, message.as_str()));
            }
        }
        Ok(parsed)
    }

    /// The parser can be used for any number of texts.
    pub fn can_reuse(&self) -> (b: bool)
        ensures
            b,
    {
        true
    }

    /// Facts about the grammar: its ABI version, its number of node kinds
    /// and its number of fields (kept to 16 bits).
    pub fn stats(&self) -> (s: ParserStats)
        ensures
            s.language_version == 15,
            s.node_kind_count == 120,
            s.field_count == 16,
    {
        let (version, kinds, fields) = grammar_facts();
        ParserStats { language_version: version, node_kind_count: kinds, field_count: fields as u16 }
    }
}

// ---------------------------------------------------------------------------
// Recipes read from the nodes of a parse
// ---------------------------------------------------------------------------

/// Kinds taken for recipes.
pub open spec fn is_recipe_kind(k: Seq<char>) -> bool {
    k == "recipe"@ || k == "recipe_definition"@ || k == "rule"@ || k == "task"@
}

/// Of the nodes `d`, among the first `n`, those whose kind is a recipe kind.
pub open spec fn recipe_kind_upto(t: Seq<NodeView>, d: Seq<int>, n: int) -> Seq<int>
    decreases n,
{
    if n <= 0 {
        seq![]
    } else {
        recipe_kind_upto(t, d, n - 1) + if is_recipe_kind(t[d[n - 1]].0) {
            seq![d[n - 1]]
        } else {
            seq![]
        }
    }
}

/// A text has a line that reads as a recipe header.
pub open spec fn has_header(text: Seq<char>) -> bool {
    header_from(text_lines(text), 0) is Some
}

/// The key under which the pattern search keeps a node: the recipe name
/// its text declares and its start; `None` when the node does not look like
/// a recipe.
pub open spec fn pattern_key(text: Seq<char>, v: NodeView) -> Option<(Seq<char>, (usize, usize))> {
    match node_text(text, v) {
        Some(tt) => if tt.contains(':') && !contains(tt, ":="@) && has_header(tt) {
            match name_from(text_lines(tt), 0) {
                Some(nm) => Some((nm, v.1)),
                None => None,
            }
        } else {
            None
        },
        None => None,
    }
}

/// Some node among `ps` was kept under `key`.
pub open spec fn pattern_key_taken(t: Seq<NodeView>, text: Seq<char>, ps: Seq<int>, key: (Seq<char>, (usize, usize))) -> bool {
    exists|j: int| 0 <= j < ps.len() && pattern_key(text, #[trigger] t[ps[j]]) == Some(key)
}

/// The nodes among the first `n` of `d` that look like recipes, the first
/// of each key only.
pub open spec fn pattern_upto(t: Seq<NodeView>, text: Seq<char>, d: Seq<int>, n: int) -> Seq<int>
    decreases n,
{
    if n <= 0 {
        seq![]
    } else {
        let prev = pattern_upto(t, text, d, n - 1);
        match pattern_key(text, t[d[n - 1]]) {
            Some(key) => if pattern_key_taken(t, text, prev, key) {
                prev
            } else {
                prev.push(d[n - 1])
            },
            None => prev,
        }
    }
}

/// The recipe nodes below node `i`: those of a recipe kind, or, when there
/// are none, those that look like recipes by their text.
pub open spec fn recipe_places(t: Seq<NodeView>, text: Seq<char>, i: int) -> Seq<int> {
    let d = descendants_of(t, i);
    let typed = recipe_kind_upto(t, d, d.len() as int);
    if typed.len() > 0 {
        typed
    } else {
        pattern_upto(t, text, d, d.len() as int)
    }
}

/// The name and line of the recipe read from a node; `None` when none can
/// be read.
pub open spec fn task_key(text: Seq<char>, v: NodeView) -> Option<(Seq<char>, usize)> {
    match node_text(text, v) {
        Some(tt) => if text_readable(tt) {
            match header_from(text_lines(tt), 0) {
                Some(k) => match spec_recipe_line(trim(text_lines(tt)[k as int])) {
                    Some(x) => Some((x.0, line_from_one(v.1.0))),
                    None => None,
                },
                None => None,
            }
        } else {
            None
        },
        None => None,
    }
}

/// `task` is the recipe read from the node.
pub open spec fn is_node_task(task: JustTask, text: Seq<char>, v: NodeView) -> bool {
    node_text(text, v) matches Some(tt) && header_from(text_lines(tt), 0) matches Some(k) && is_text_task(
        task,
        text_lines(tt),
        k,
        line_from_one(v.1.0),
    )
}

/// Some node among `ps` gave a recipe under `key`.
pub open spec fn task_key_taken(t: Seq<NodeView>, text: Seq<char>, ps: Seq<int>, key: (Seq<char>, usize)) -> bool {
    exists|j: int| 0 <= j < ps.len() && task_key(text, #[trigger] t[ps[j]]) == Some(key)
}

/// Of the first `n` nodes `ps`, those whose recipe is kept: it can be read,
/// has a name, and no earlier kept recipe has its name and line.
pub open spec fn tasks_upto(t: Seq<NodeView>, text: Seq<char>, ps: Seq<int>, n: int) -> Seq<int>
    decreases n,
{
    if n <= 0 {
        seq![]
    } else {
        let prev = tasks_upto(t, text, ps, n - 1);
        match task_key(text, t[ps[n - 1]]) {
            Some(key) => if key.0.len() > 0 && !task_key_taken(t, text, prev, key) {
                prev.push(ps[n - 1])
            } else {
                prev
            },
            None => prev,
        }
    }
}

/// Whether `text` has a header line.
fn has_header_exec(text: &str) -> (b: bool)
    ensures
        b == has_header(text@),
{
    let lines = lines_of(text);
    let ghost ls = crate::parser::ast::queries::info::strs(lines@);
    let mut i: usize = 0;
    while i < lines.len()
        invariant
            i <= lines@.len(),
            ls == crate::parser::ast::queries::info::strs(lines@),
            ls == text_lines(text@),
            header_from(ls, 0) == header_from(ls, i as nat),
        decreases lines@.len() - i,
    {
        assert(ls[i as int] == lines@[i as int]@);
        let t = str_trim(lines[i].as_str());
        if !str_starts_with(t.as_str(), "#") && has_char(&chars_of(t.as_str()), ':') && !str_contains(
            t.as_str(),
            ":=",
        ) {
            return true;
        }
        i = i + 1;
    }
    false
}

impl ASTJustParser {
    /// Whether a kind is taken for a recipe when the grammar does not name
    /// it so.
    pub fn looks_like_recipe_conservative(&self, kind: &str) -> (b: bool)
        ensures
            b == is_recipe_kind(kind@),
    {
        str_eq(kind, "recipe") || str_eq(kind, "recipe_definition") || str_eq(kind, "rule") || str_eq(kind, "task")
    }

    /// Whether the node's text has a line that reads as a recipe header.
    pub fn validate_recipe_structure_basic(&self, node: &ASTNode) -> (b: bool)
        ensures
            b == (node_text(node.text_view(), node.info()) matches Some(tt) && has_header(tt)),
    {
        match node.text() {
            Ok(t) => has_header_exec(t),
            Err(_) => false,
        }
    }

    /// The nodes below `root` that look like recipes by their text, the first
    /// of each name and start only.
    pub fn find_recipes_by_pattern(&self, root: &ASTNode) -> (r: Vec<ASTNode>)
        ensures
            ({
                let d = descendants_of(root.table(), root.place());
                places(r@) == pattern_upto(root.table(), root.text_view(), d, d.len() as int)
            }),
            all_of_parse(r@, *root),
    {
        let below = root.descendants();
        let ghost t = root.table();
        let ghost text = root.text_view();
        let ghost d = places(below@);
        let mut out: Vec<ASTNode> = Vec::new();
        let mut keys: Vec<(String, (usize, usize))> = Vec::new();
        let mut k: usize = 0;
        while k < below.len()
            invariant
                k <= below@.len(),
                d == places(below@),
                d == descendants_of(t, root.place()),
                t == root.table(),
                text == root.text_view(),
                all_of_parse(below@, *root),
                all_of_parse(out@, *root),
                places(out@) == pattern_upto(t, text, d, k as int),
                keys@.len() == out@.len(),
                forall|j: int|
                    0 <= j < keys@.len() ==> pattern_key(text, t[places(out@)[j]]) == Some(
                        ((#[trigger] keys@[j]).0@, keys@[j].1),
                    ),
            decreases below@.len() - k,
        {
            let n = &below[k];
            assert(d[k as int] == n.place());
            assert(n.info() == t[d[k as int]]);
            let ghost prev = places(out@);
            let key: Option<(String, (usize, usize))> = match n.text() {
                Ok(tt) => {
                    if has_char(&chars_of(tt), ':') && !str_contains(tt, ":=") && has_header_exec(tt) {
                        match extract_recipe_name_from_text(tt) {
                            Some(nm) => Some((nm, n.start_position())),
                            None => None,
                        }
                    } else {
                        None
                    }
                },
                Err(_) => None,
            };
            match key {
                Some((nm, pos)) => {
                    let mut taken = false;
                    let mut j: usize = 0;
                    while j < keys.len()
                        invariant
                            j <= keys@.len(),
                            keys@.len() == prev.len(),
                            forall|l: int|
                                0 <= l < keys@.len() ==> pattern_key(text, t[prev[l]]) == Some(
                                    ((#[trigger] keys@[l]).0@, keys@[l].1),
                                ),
                            taken == exists|l: int| 0 <= l < j && (#[trigger] keys@[l]).0@ == nm@ && keys@[l].1 == pos,
                        decreases keys@.len() - j,
                    {
                        if str_eq(keys[j].0.as_str(), nm.as_str()) && keys[j].1.0 == pos.0 && keys[j].1.1 == pos.1 {
                            taken = true;
                        }
                        j = j + 1;
                    }
                    proof {
                        if taken {
                            let l = choose|l: int| 0 <= l < keys@.len() && (#[trigger] keys@[l]).0@ == nm@ && keys@[l].1 == pos;
                            assert(pattern_key(text, t[prev[l]]) == Some((nm@, pos)));
                        } else {
                            assert forall|l: int| 0 <= l < prev.len() implies pattern_key(text, #[trigger] t[prev[l]]) != Some((nm@, pos)) by {
                                assert(pattern_key(text, t[prev[l]]) == Some((keys@[l].0@, keys@[l].1)));
                            }
                        }
                    }
                    if !taken {
                        let c = n.clone();
                        out.push(c);
                        keys.push((nm, pos));
                        assert(places(out@) =~= prev.push(d[k as int]));
                    }
                },
                None => {},
            }
            k = k + 1;
        }
        out
    }

    /// The recipe nodes below `root`: those of a recipe kind, or, when there
    /// are none, those that look like recipes by their text.
    pub fn find_recipe_nodes(&self, root: &ASTNode) -> (r: Result<Vec<ASTNode>, ASTError>)
        ensures
            r matches Ok(v) && places(v@) == recipe_places(root.table(), root.text_view(), root.place())
                && all_of_parse(v@, *root),
    {
        let below = root.descendants();
        let ghost t = root.table();
        let ghost d = places(below@);
        let mut out: Vec<ASTNode> = Vec::new();
        let mut k: usize = 0;
        while k < below.len()
            invariant
                k <= below@.len(),
                d == places(below@),
                d == descendants_of(t, root.place()),
                t == root.table(),
                all_of_parse(below@, *root),
                all_of_parse(out@, *root),
                places(out@) == recipe_kind_upto(t, d, k as int),
            decreases below@.len() - k,
        {
            let n = &below[k];
            assert(d[k as int] == n.place());
            assert(n.info() == t[d[k as int]]);
            if self.looks_like_recipe_conservative(n.kind()) {
                let ghost prev = places(out@);
                out.push(n.clone());
                assert(places(out@) =~= prev.push(d[k as int]));
            }
            k = k + 1;
        }
        if out.len() == 0 {
            Ok(self.find_recipes_by_pattern(root))
        } else {
            Ok(out)
        }
    }

    /// The recipe read from a node's text: its header, parameters,
    /// dependencies, comments and body, at the node's line counted from one.
    /// An error (always recoverable) when the text cannot be read, has no
    /// header, or its header cannot be read.
    pub fn extract_recipe_fallback(&self, node: &ASTNode) -> (r: Result<JustTask, ASTError>)
        ensures
            r is Ok == task_key(node.text_view(), node.info()) is Some,
            r matches Ok(task) ==> is_node_task(task, node.text_view(), node.info()) && task_key(
                node.text_view(),
                node.info(),
            ) == Some((task.name@, task.line_number)),
            r matches Err(e) ==> crate::parser::ast::errors::spec_recoverable(e),
    {
        let text = match node.text() {
            Ok(t) => t,
            Err(e) => {
                let mut reason = owned("Text extraction failed: ");
                push_str(&mut reason, e.to_string().as_str());
                return Err(ASTError::recipe_extraction("unknown", reason.as_str()));
            },
        };
        let (row, _) = node.start_position();
        let line = if row < usize::MAX {
            row + 1
        } else {
            row
        };
        if !text_readable_exec(text) {
            return Err(ASTError::recipe_extraction("unknown", "Recipe header cannot be read"));
        }
        let recipe = parse_recipe_text(text, line);
        proof {
            if let Some(k) = header_from(text_lines(text@), 0) {
                let h = trim(text_lines(text@)[k as int]);
                crate::text::lemma_find_char_from(h, ':', 0);
            }
        }
        recipe
    }

    /// The recipes read from the recipe nodes of a parse, in order; a recipe
    /// without a name, or with the name and line of an earlier one, is left
    /// out, and so is a node whose recipe cannot be read.
    pub fn extract_recipes_fallback(&self, tree: &ParseTree) -> (r: Result<Vec<JustTask>, ASTError>)
        ensures
            ({
                let t = tree.table();
                let text = tree.text_view();
                let ps = recipe_places(t, text, 0);
                let kept = tasks_upto(t, text, ps, ps.len() as int);
                r matches Ok(v) && v@.len() == kept.len() && forall|i: int|
                    0 <= i < kept.len() ==> is_node_task(#[trigger] v@[i], text, t[kept[i]])
            }),
    {
        let root = tree.root();
        let nodes = match self.find_recipe_nodes(&root) {
            Ok(v) => v,
            Err(e) => {
                return Err(e);
            },
        };
        let ghost t = tree.table();
        let ghost text = tree.text_view();
        let ghost ps = places(nodes@);
        let mut out: Vec<JustTask> = Vec::new();
        let mut keys: Vec<(String, usize)> = Vec::new();
        let mut k: usize = 0;
        while k < nodes.len()
            invariant
                k <= nodes@.len(),
                ps == places(nodes@),
                t == root.table(),
                text == root.text_view(),
                all_of_parse(nodes@, root),
                out@.len() == tasks_upto(t, text, ps, k as int).len(),
                keys@.len() == out@.len(),
                forall|i: int|
                    0 <= i < out@.len() ==> is_node_task(#[trigger] out@[i], text, t[tasks_upto(t, text, ps, k as int)[i]]),
                forall|j: int|
                    0 <= j < keys@.len() ==> task_key(text, t[tasks_upto(t, text, ps, k as int)[j]]) == Some(
                        ((#[trigger] keys@[j]).0@, keys@[j].1),
                    ),
            decreases nodes@.len() - k,
        {
            let n = &nodes[k];
            assert(ps[k as int] == n.place());
            assert(n.info() == t[ps[k as int]]);
            let ghost prev = tasks_upto(t, text, ps, k as int);
            match self.extract_recipe_fallback(n) {
                Ok(task) => {
                    let mut taken = false;
                    let mut j: usize = 0;
                    while j < keys.len()
                        invariant
                            j <= keys@.len(),
                            keys@.len() == prev.len(),
                            forall|l: int|
                                0 <= l < keys@.len() ==> task_key(text, t[prev[l]]) == Some(
                                    ((#[trigger] keys@[l]).0@, keys@[l].1),
                                ),
                            taken == exists|l: int|
                                0 <= l < j && (#[trigger] keys@[l]).0@ == task.name@ && keys@[l].1 == task.line_number,
                        decreases keys@.len() - j,
                    {
                        if str_eq(keys[j].0.as_str(), task.name.as_str()) && keys[j].1 == task.line_number {
                            taken = true;
                        }
                        j = j + 1;
                    }
                    let ghost key = (task.name@, task.line_number);
                    proof {
                        if taken {
                            let l = choose|l: int|
                                0 <= l < keys@.len() && (#[trigger] keys@[l]).0@ == task.name@ && keys@[l].1
                                    == task.line_number;
                            assert(task_key(text, t[prev[l]]) == Some(key));
                        } else {
                            assert forall|l: int| 0 <= l < prev.len() implies task_key(text, #[trigger] t[prev[l]]) != Some(key) by {
                                assert(task_key(text, t[prev[l]]) == Some((keys@[l].0@, keys@[l].1)));
                            }
                        }
                    }
                    if !taken && !task.name.as_str().is_empty() {
                        let nm = owned(task.name.as_str());
                        let line = task.line_number;
                        out.push(task);
                        keys.push((nm, line));
                        assert(tasks_upto(t, text, ps, k + 1) =~= prev.push(ps[k as int]));
                    } else {
                        assert(tasks_upto(t, text, ps, k + 1) == prev);
                    }
                },
                Err(e) => {
                    if !e.is_recoverable() {
                        return Err(e);
                    }
                    assert(tasks_upto(t, text, ps, k + 1) == prev);
                },
            }
            k = k + 1;
        }
        Ok(out)
    }

    /// The recipes of a parse, read from its recipe nodes.
    pub fn extract_recipes(&self, tree: &ParseTree) -> (r: Result<Vec<JustTask>, ASTError>)
        ensures
            ({
                let t = tree.table();
                let text = tree.text_view();
                let ps = recipe_places(t, text, 0);
                let kept = tasks_upto(t, text, ps, ps.len() as int);
                r matches Ok(v) && v@.len() == kept.len() && forall|i: int|
                    0 <= i < kept.len() ==> is_node_task(#[trigger] v@[i], text, t[kept[i]])
            }),
    {
        self.extract_recipes_fallback(tree)
    }
}

} // verus!

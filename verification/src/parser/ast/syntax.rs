//! The tree-sitter parser with the just grammar, and its queries: what they
//! report is handed on as plain values.
use vstd::prelude::*;
use streaming_iterator::StreamingIterator;
use crate::parser::ast::queries::info::strs;
use crate::text::owned;

verus! {

/// A query cursor of the `tree_sitter` crate.
#[verifier::external_type_specification]
#[verifier::external_body]
pub struct ExQueryCursor(tree_sitter::QueryCursor);

/// A syntax tree of the `tree_sitter` crate.
#[verifier::external_type_specification]
#[verifier::external_body]
pub struct ExTree(tree_sitter::Tree);

/// A compiled query of the `tree_sitter` crate.
#[verifier::external_type_specification]
#[verifier::external_body]
pub struct ExQuery(tree_sitter::Query);

/// A node as the parser reports it: kind, start and end (row, column),
/// byte range, whether it is or holds an error, whether error recovery
/// inserted it, and the index of its parent when the nodes are listed in
/// preorder.
pub type NodeView = (Seq<char>, (usize, usize), (usize, usize), (usize, usize), bool, bool, Option<usize>);

/// A captured node: capture name, kind, start, end and byte range.
pub type CaptureView = (Seq<char>, Seq<char>, (usize, usize), (usize, usize), (usize, usize));

/// A query match: the index of the pattern and the captures in order.
pub type MatchView = (usize, Seq<CaptureView>);

/// Whether the parser with the just grammar yields a tree for `source`.
pub uninterp spec fn just_parses(source: Seq<char>) -> bool;

/// The nodes of the tree the parser yields for `source`, in preorder.
pub uninterp spec fn just_syntax_nodes(source: Seq<char>) -> Seq<NodeView>;

/// The debug text of the error of compiling `pattern` as a query over the
/// just grammar, or `None` when it compiles.
pub uninterp spec fn just_query_error(pattern: Seq<char>) -> Option<Seq<char>>;

/// The capture names of the query `pattern`, by capture index.
pub uninterp spec fn just_capture_names(pattern: Seq<char>) -> Seq<Seq<char>>;

/// The number of patterns of the query `pattern`.
pub uninterp spec fn just_pattern_count(pattern: Seq<char>) -> usize;

/// The matches of the query `pattern` in the tree of `source`, in the order
/// given by a query cursor that was given the match limit `limit` (if any)
/// and then each byte range of `ranges`, in order.
pub uninterp spec fn just_query_matches(
    pattern: Seq<char>,
    source: Seq<char>,
    limit: Option<u32>,
    ranges: Seq<(usize, usize)>,
) -> Seq<MatchView>;

/// A node as the parser reports it.
pub struct NodeRecord {
    pub kind: String,
    pub start_position: (usize, usize),
    pub end_position: (usize, usize),
    pub byte_range: (usize, usize),
    pub has_error: bool,
    pub is_missing: bool,
    /// Index of the parent in the preorder list; `None` for the root.
    pub parent: Option<usize>,
}

/// A captured node.
pub struct CaptureRecord {
    pub name: String,
    pub kind: String,
    pub start_position: (usize, usize),
    pub end_position: (usize, usize),
    pub byte_range: (usize, usize),
}

/// A query match.
pub struct MatchRecord {
    pub pattern_index: usize,
    pub captures: Vec<CaptureRecord>,
}

impl NodeRecord {
    /// A node record with the given fields.
    pub fn new(
        kind: &str,
        start_position: (usize, usize),
        end_position: (usize, usize),
        byte_range: (usize, usize),
        has_error: bool,
        is_missing: bool,
        parent: Option<usize>,
    ) -> (r: NodeRecord)
        ensures
            node_view(r) == (kind@, start_position, end_position, byte_range, has_error, is_missing, parent),
    {
        NodeRecord { kind: owned(kind), start_position, end_position, byte_range, has_error, is_missing, parent }
    }
}

impl CaptureRecord {
    /// A capture record with the given fields.
    pub fn new(
        name: &str,
        kind: &str,
        start_position: (usize, usize),
        end_position: (usize, usize),
        byte_range: (usize, usize),
    ) -> (r: CaptureRecord)
        ensures
            capture_view(r) == (name@, kind@, start_position, end_position, byte_range),
    {
        CaptureRecord { name: owned(name), kind: owned(kind), start_position, end_position, byte_range }
    }
}

impl MatchRecord {
    /// A match record with the given fields.
    pub fn new(pattern_index: usize, captures: Vec<CaptureRecord>) -> (r: MatchRecord)
        ensures
            r.pattern_index == pattern_index,
            r.captures@ == captures@,
    {
        MatchRecord { pattern_index, captures }
    }
}

/// View of a node record.
pub open spec fn node_view(r: NodeRecord) -> NodeView {
    (r.kind@, r.start_position, r.end_position, r.byte_range, r.has_error, r.is_missing, r.parent)
}

/// Views of node records.
pub open spec fn nodes_view(v: Seq<NodeRecord>) -> Seq<NodeView> {
    v.map_values(|r: NodeRecord| node_view(r))
}

/// View of a capture record.
pub open spec fn capture_view(c: CaptureRecord) -> CaptureView {
    (c.name@, c.kind@, c.start_position, c.end_position, c.byte_range)
}

/// View of a match record.
pub open spec fn match_view(m: MatchRecord) -> MatchView {
    (m.pattern_index, m.captures@.map_values(|c: CaptureRecord| capture_view(c)))
}

/// Views of match records.
pub open spec fn matches_view(v: Seq<MatchRecord>) -> Seq<MatchView> {
    v.map_values(|m: MatchRecord| match_view(m))
}

/// A text and the tree the parser yields for it.
pub struct SourceTree {
    tree: tree_sitter::Tree,
    source: String,
}

impl SourceTree {
    /// The parsed text.
    pub closed spec fn source(&self) -> Seq<char> {
        self.source@
    }

    /// Calls `tree_sitter::Parser::parse` with the just grammar from the
    /// `tree_sitter_just` crate. Whether a tree comes is claimed to depend on
    /// the text alone; the tree is kept with the text it was made of.
    #[verifier::external_body]
    pub fn parse(source: &str) -> (r: Option<SourceTree>)
        ensures
            r is Some == just_parses(source@),
            r matches Some(t) ==> t.source() == source@,
    {
        let mut parser = tree_sitter::Parser::new();
        parser.set_language(&tree_sitter_just::LANGUAGE.into()).ok()?;
        let tree = parser.parse(source, None)?;
        Some(SourceTree { tree, source: source.to_string() })
    }

    /// The parsed text.
    pub fn text(&self) -> (s: &str)
        ensures
            s@ == self.source(),
    {
        self.source.as_str()
    }

    /// Walks the tree from its root with `tree_sitter::Node` methods (kind,
    /// positions, byte range, `has_error`, `is_missing`, children) and lists
    /// the nodes in preorder, each with the index of its parent.
    #[verifier::external_body]
    pub fn nodes(&self) -> (r: Vec<NodeRecord>)
        ensures
            nodes_view(r@) == just_syntax_nodes(self.source()),
    {
        let (mut out, mut stack) = (Vec::new(), vec![(self.tree.root_node(), None)]);
        while let Some((n, parent)) = stack.pop() {
            let (s, e, id) = (n.start_position(), n.end_position(), Some(out.len()));
            out.push(NodeRecord::new(n.kind(), (s.row, s.column), (e.row, e.column),
                (n.start_byte(), n.end_byte()), n.has_error(), n.is_missing(), parent));
            stack.extend((0..n.child_count()).rev().filter_map(|i| n.child(i)).map(|c| (c, id)));
        }
        out
    }

    /// Runs `tree_sitter::QueryCursor::matches` on `cursor` with the query
    /// over the whole tree and lists each match with its captured nodes. The
    /// cursor keeps its match limit and byte ranges.
    #[verifier::external_body]
    pub fn query_matches(&self, query: &CompiledQuery, cursor: &mut MatchCursor) -> (r: Vec<MatchRecord>)
        ensures
            matches_view(r@) == just_query_matches(
                query.pattern(),
                self.source(),
                old(cursor).match_limit(),
                old(cursor).byte_ranges(),
            ),
            final(cursor).match_limit() == old(cursor).match_limit(),
            final(cursor).byte_ranges() == old(cursor).byte_ranges(),
    {
        let names = query.query.capture_names();
        let mut it = cursor.cursor.matches(&query.query, self.tree.root_node(), self.source.as_bytes());
        let mut out = Vec::new();
        while let Some(m) = it.next() {
            out.push(MatchRecord::new(m.pattern_index, m.captures.iter().map(|c| {
                let (n, s, e) = (c.node, c.node.start_position(), c.node.end_position());
                CaptureRecord::new(names[c.index as usize], n.kind(), (s.row, s.column), (e.row, e.column),
                    (n.start_byte(), n.end_byte()))
            }).collect()));
        }
        out
    }
}

/// Calls `tree_sitter::QueryCursor::new`.
#[verifier::external_body]
fn new_query_cursor() -> (c: tree_sitter::QueryCursor) {
    tree_sitter::QueryCursor::new()
}

/// Calls `tree_sitter::QueryCursor::set_match_limit`. Nothing is claimed of
/// the cursor: its state is opaque.
#[verifier::external_body]
fn cursor_set_match_limit(cursor: &mut tree_sitter::QueryCursor, limit: u32) {
    cursor.set_match_limit(limit);
}

/// Calls `tree_sitter::QueryCursor::set_byte_range`. Nothing is claimed of
/// the cursor: its state is opaque.
#[verifier::external_body]
fn cursor_set_byte_range(cursor: &mut tree_sitter::QueryCursor, start: usize, end: usize) {
    cursor.set_byte_range(start..end);
}

/// A query cursor with the match limit and byte ranges it was given, which
/// only the methods below give it.
pub struct MatchCursor {
    cursor: tree_sitter::QueryCursor,
    limit: Option<u32>,
    ranges: Vec<(usize, usize)>,
}

impl MatchCursor {
    /// The match limit the cursor was given, if any.
    pub closed spec fn match_limit(&self) -> Option<u32> {
        self.limit
    }

    /// The byte ranges the cursor was given, in order.
    pub closed spec fn byte_ranges(&self) -> Seq<(usize, usize)> {
        self.ranges@
    }

    /// A fresh cursor.
    pub fn new() -> (c: MatchCursor)
        ensures
            c.match_limit() is None,
            c.byte_ranges().len() == 0,
    {
        MatchCursor { cursor: new_query_cursor(), limit: None, ranges: Vec::new() }
    }

    /// Gives the cursor a match limit.
    pub fn set_match_limit(&mut self, limit: u32)
        ensures
            final(self).match_limit() == Some(limit),
            final(self).byte_ranges() == old(self).byte_ranges(),
    {
        cursor_set_match_limit(&mut self.cursor, limit);
        self.limit = Some(limit);
    }

    /// Gives the cursor a byte range.
    pub fn set_byte_range(&mut self, start: usize, end: usize)
        ensures
            final(self).match_limit() == old(self).match_limit(),
            final(self).byte_ranges() == old(self).byte_ranges().push((start, end)),
    {
        cursor_set_byte_range(&mut self.cursor, start, end);
        self.ranges.push((start, end));
    }
}

/// Calls `tree_sitter::Query::new` with the just grammar; a refusal is
/// reported as the debug text of the `tree_sitter::QueryError`.
#[verifier::external_body]
fn compile_ts_query(pattern: &str) -> (r: Result<tree_sitter::Query, String>)
    ensures
        match r {
            Ok(_) => just_query_error(pattern@) is None,
            Err(m) => just_query_error(pattern@) == Some(m@),
        },
{
    tree_sitter::Query::new(&tree_sitter_just::LANGUAGE.into(), pattern).map_err(|e| format!("{:?}", e))
}

/// A query compiled for the just grammar, with its pattern and name.
pub struct CompiledQuery {
    query: tree_sitter::Query,
    pattern: String,
    name: String,
}

impl CompiledQuery {
    /// The pattern the query was compiled from.
    pub closed spec fn pattern(&self) -> Seq<char> {
        self.pattern@
    }

    /// The human-readable name of the query.
    pub closed spec fn label(&self) -> Seq<char> {
        self.name@
    }

    /// The human-readable name of the query.
    pub fn name(&self) -> (s: &str)
        ensures
            s@ == self.label(),
    {
        self.name.as_str()
    }

    /// Compiles `pattern`; the error is the debug text of the refusal.
    pub fn compile(pattern: &str, name: String) -> (r: Result<CompiledQuery, String>)
        ensures
            match r {
                Ok(q) => just_query_error(pattern@) is None && q.pattern() == pattern@ && q.label() == name@,
                Err(m) => just_query_error(pattern@) == Some(m@),
            },
    {
        match compile_ts_query(pattern) {
            Ok(query) => Ok(CompiledQuery { query, pattern: owned(pattern), name }),
            Err(m) => Err(m),
        }
    }

    /// Calls `tree_sitter::Query::capture_names`: the capture names, by index.
    #[verifier::external_body]
    pub fn capture_names(&self) -> (r: Vec<String>)
        ensures
            strs(r@) == just_capture_names(self.pattern()),
    {
        self.query.capture_names().iter().map(|s| s.to_string()).collect()
    }

    /// The index of the capture named `name`; the last one, should a name
    /// occur twice.
    pub fn capture_index(&self, name: &str) -> (r: Option<u32>)
        ensures
            r matches Some(i) ==> (exists|k: int|
                #![trigger just_capture_names(self.pattern())[k]]
                0 <= k < just_capture_names(self.pattern()).len() && just_capture_names(self.pattern())[k]
                    == name@ && i == k as u32 && (forall|l: int|
                    k < l < just_capture_names(self.pattern()).len() ==> just_capture_names(self.pattern())[l]
                        != name@)),
            r is None ==> (forall|k: int|
                0 <= k < just_capture_names(self.pattern()).len() ==> just_capture_names(self.pattern())[k]
                    != name@),
    {
        let names = self.capture_names();
        let ghost ns = just_capture_names(self.pattern());
        let mut k: usize = names.len();
        while k > 0
            invariant
                k <= names@.len(),
                strs(names@) == ns,
                ns == just_capture_names(self.pattern()),
                forall|l: int| k <= l < ns.len() ==> ns[l] != name@,
            decreases k,
        {
            k = k - 1;
            assert(ns[k as int] == names@[k as int]@);
            if crate::text::str_eq(names[k].as_str(), name) {
                let i: u32 = #[verifier::truncate] (k as u32);
                let ghost kk = k as int;
                assert(0 <= kk < ns.len() && ns[kk] == name@ && i == kk as u32 && forall|l: int|
                    kk < l < ns.len() ==> ns[l] != name@);
                return Some(i);
            }
        }
        None
    }

    /// Calls `tree_sitter::Query::pattern_count`.
    #[verifier::external_body]
    pub fn pattern_count(&self) -> (n: usize)
        ensures
            n == just_pattern_count(self.pattern()),
    {
        self.query.pattern_count()
    }
}

/// Calls `tree_sitter::Language::abi_version`, `node_kind_count` and
/// `field_count` on the just grammar. The grammar's generated source sets an
/// ABI version of 15, 118 symbols and 2 aliases (`node_kind_count` adds the
/// two) and 16 fields.
#[verifier::external_body]
pub(crate) fn grammar_facts() -> (r: (usize, usize, usize))
    ensures
        r == (15usize, 120usize, 16usize),
{
    let language: tree_sitter::Language = tree_sitter_just::LANGUAGE.into();
    (language.abi_version(), language.node_kind_count(), language.field_count())
}

} // verus!

//! Running a compiled query over a parse and turning its matches into
//! results whose captures carry their source text.
use vstd::prelude::*;
use vstd::utf8::encode_utf8;
use vstd::string::StringSliceAdditionalSpecFns;
use crate::strmap::{StrMap, stored, key_index, key_index_from, has_key, distinct_keys};
use crate::text::{owned, push_str, starts_with};
use crate::parser::legacy::{byte_slice, on_boundary, lemma_boundary_in_prefix};
use crate::parser::ast::errors::ASTError;
use crate::parser::ast::parser::ParseTree;
use crate::parser::ast::nodes::utf8_error_text;
use crate::parser::ast::syntax::{CompiledQuery, CaptureRecord, CaptureView, MatchRecord, MatchView, capture_view, match_view, just_query_matches, MatchCursor};
use crate::parser::ast::queries::results::{QueryCapture, QueryResult, QueryResultType, spec_infer_type};
use crate::parser::ast::queries::patterns::QueryConfig;

verus! {

/// What a capture holds: text, start, end, byte range and node kind.
pub type CaptureFields = (Seq<char>, (usize, usize), (usize, usize), (usize, usize), Seq<char>);

/// The fields of a capture.
pub open spec fn capture_fields(c: QueryCapture) -> CaptureFields {
    (c.text@, c.start_position, c.end_position, c.byte_range, c.node_kind@)
}

/// The entries of a capture map, each capture by its fields.
pub open spec fn fields_of(m: Seq<(Seq<char>, QueryCapture)>) -> Seq<(Seq<char>, CaptureFields)> {
    m.map_values(|e: (Seq<char>, QueryCapture)| (e.0, capture_fields(e.1)))
}

/// The captured node's byte range is ordered and falls on character
/// boundaries of `text`.
pub open spec fn capture_readable(text: Seq<char>, c: CaptureView) -> bool {
    &&& c.4.0 <= c.4.1
    &&& on_boundary(text, c.4.0 as int)
    &&& on_boundary(text, c.4.1 as int)
}

/// A captured node as a capture of `text`.
pub open spec fn captured(text: Seq<char>, c: CaptureView) -> CaptureFields {
    (byte_slice(text, c.4.0 as int, c.4.1 as int), c.2, c.3, c.4, c.1)
}

/// The capture map of the first `n` captured nodes, each stored under its
/// capture name; a later capture of a name replaces an earlier one.
pub open spec fn captures_upto(text: Seq<char>, cs: Seq<CaptureView>, n: int) -> Seq<(Seq<char>, CaptureFields)>
    decreases n,
{
    if n <= 0 {
        seq![]
    } else {
        stored(captures_upto(text, cs, n - 1), cs[n - 1].0, captured(text, cs[n - 1]))
    }
}

/// Every capture of the match can be read from `text`.
pub open spec fn match_readable(text: Seq<char>, m: MatchView) -> bool {
    forall|j: int| 0 <= j < m.1.len() ==> capture_readable(text, #[trigger] m.1[j])
}

/// The result a match gives over `text`.
pub open spec fn result_matches(text: Seq<char>, r: QueryResult, m: MatchView) -> bool {
    &&& r.pattern_index == m.0
    &&& fields_of(r.captures@) == captures_upto(text, m.1, m.1.len() as int)
    &&& r.result_type == spec_infer_type(r.captures@)
}

/// How many of `n` matches are taken under a limit; zero means no limit.
pub open spec fn taken(n: nat, max_matches: usize) -> nat {
    if max_matches == 0 || n <= max_matches {
        n
    } else {
        max_matches as nat
    }
}

/// A text-extraction error whose details start with `UTF-8 error: `.
pub open spec fn is_utf8_error(e: ASTError) -> bool {
    e matches ASTError::TextExtraction { details } && starts_with(details@, "UTF-8 error: "@)
}

/// Keys are found at the same place once the values are replaced by their
/// fields.
proof fn lemma_fields_key_index(m: Seq<(Seq<char>, QueryCapture)>, k: Seq<char>, i: nat)
    ensures
        key_index_from(fields_of(m), k, i) == key_index_from(m, k, i),
    decreases m.len() - i,
{
    if i < m.len() {
        lemma_fields_key_index(m, k, i + 1);
    }
}

/// Storing a capture and then taking fields is taking fields and then
/// storing the capture's fields.
proof fn lemma_fields_stored(m: Seq<(Seq<char>, QueryCapture)>, k: Seq<char>, v: QueryCapture)
    ensures
        fields_of(stored(m, k, v)) == stored(fields_of(m), k, capture_fields(v)),
{
    lemma_fields_key_index(m, k, 0);
    crate::strmap::lemma_key_index_from(m, k, 0);
    match key_index(m, k) {
        Some(i) => {
            assert(fields_of(stored(m, k, v)) =~= fields_of(m).update(i as int, (k, capture_fields(v))));
        },
        None => {
            assert(fields_of(stored(m, k, v)) =~= fields_of(m).push((k, capture_fields(v))));
        },
    }
}

/// Bytes `a` to `b` of `text`, when they are ordered and fall on character
/// boundaries; otherwise an error whose details start with `UTF-8 error: `.
fn read_bytes(text: &str, a: usize, b: usize) -> (r: Result<String, ASTError>)
    ensures
        r is Ok == (a <= b && on_boundary(text@, a as int) && on_boundary(text@, b as int)),
        r matches Ok(s) ==> s@ == byte_slice(text@, a as int, b as int),
        r matches Err(e) ==> is_utf8_error(e),
{
    let ok = a <= b && text.is_char_boundary(a) && text.is_char_boundary(b);
    if ok {
        proof {
            vstd::utf8::encode_utf8_valid_utf8(text@);
            lemma_boundary_in_prefix(encode_utf8(text@), a as int, b as int);
        }
        let (left, _) = text.split_at(b);
        let (_, mid) = left.split_at(a);
        proof {
            vstd::utf8::encode_utf8_decode_utf8(mid@);
            assert(mid.spec_bytes() =~= encode_utf8(text@).subrange(a as int, b as int));
        }
        Ok(owned(mid))
    } else {
        let mut d = owned("UTF-8 error: ");
        if a <= b && b <= text.as_bytes().len() {
            let m = utf8_error_text(text, a, b);
            push_str(&mut d, m.as_str());
        } else {
            push_str(&mut d, "byte range outside the text");
        }
        proof {
            assert(d@.subrange(0, "UTF-8 error: "@.len() as int) =~= "UTF-8 error: "@);
        }
        Err(ASTError::text_extraction(d.as_str()))
    }
}

/// Runs compiled queries over a parse with a query cursor and reads the
/// captured text from a source text.
pub struct QueryExecutor {
    source: String,
    max_matches: usize,
    cursor: MatchCursor,
}

/// The executors agree on text, limit, and cursor settings.
pub open spec fn same_settings(a: QueryExecutor, b: QueryExecutor) -> bool {
    &&& a.text() == b.text()
    &&& a.limit() == b.limit()
    &&& a.match_limit() == b.match_limit()
    &&& a.byte_ranges() == b.byte_ranges()
}

/// The match limit given to the cursor for a largest number of matches:
/// none for zero, else the number cut to 32 bits.
pub open spec fn cursor_limit_for(max_matches: usize) -> Option<u32> {
    if max_matches > 0 {
        Some(max_matches as u32)
    } else {
        None
    }
}

/// Labels of queries.
pub open spec fn query_labels(qs: Seq<&CompiledQuery>) -> Seq<Seq<char>> {
    qs.map_values(|q: &CompiledQuery| q.label())
}

/// The index of the last of `ls` equal to `k`, or -1.
pub open spec fn last_index(ls: Seq<Seq<char>>, k: Seq<char>) -> int
    decreases ls.len(),
{
    if ls.len() == 0 {
        -1
    } else if ls.last() == k {
        ls.len() - 1
    } else {
        last_index(ls.drop_last(), k)
    }
}

/// Executors with the same settings read the same matches and give the
/// same results.
proof fn lemma_same_settings(a: QueryExecutor, b: QueryExecutor, q: CompiledQuery, tree: ParseTree)
    requires
        same_settings(a, b),
    ensures
        a.matches_of(q, tree) == b.matches_of(q, tree),
        a.readable_for(q, tree) == b.readable_for(q, tree),
        forall|v: Seq<QueryResult>| a.gives_results(q, tree, v) == b.gives_results(q, tree, v),
{
}

impl QueryExecutor {
    /// The text captures are read from.
    pub closed spec fn text(&self) -> Seq<char> {
        self.source@
    }

    /// The largest number of matches returned; zero means no limit.
    pub closed spec fn limit(&self) -> usize {
        self.max_matches
    }

    /// The match limit the cursor holds, if any.
    pub closed spec fn match_limit(&self) -> Option<u32> {
        self.cursor.match_limit()
    }

    /// The byte ranges the cursor was given, in order.
    pub closed spec fn byte_ranges(&self) -> Seq<(usize, usize)> {
        self.cursor.byte_ranges()
    }

    /// The matches of `q` over `tree` with this executor's cursor.
    pub open spec fn matches_of(&self, q: CompiledQuery, tree: ParseTree) -> Seq<MatchView> {
        just_query_matches(q.pattern(), tree.text_view(), self.match_limit(), self.byte_ranges())
    }

    /// Every match of `q` that `execute` takes can be read from the text.
    pub open spec fn readable_for(&self, q: CompiledQuery, tree: ParseTree) -> bool {
        let ms = self.matches_of(q, tree);
        forall|j: int| 0 <= j < taken(ms.len(), self.limit()) ==> match_readable(self.text(), #[trigger] ms[j])
    }

    /// `v` are the results `execute` gives for `q` over `tree`.
    pub open spec fn gives_results(&self, q: CompiledQuery, tree: ParseTree, v: Seq<QueryResult>) -> bool {
        let ms = self.matches_of(q, tree);
        let n = taken(ms.len(), self.limit());
        v.len() == n && forall|k: int| 0 <= k < n ==> result_matches(self.text(), #[trigger] v[k], ms[k])
    }

    /// The text captures are read from.
    pub fn source(&self) -> (s: &str)
        ensures
            s@ == self.text(),
    {
        self.source.as_str()
    }

    /// The largest number of matches returned; zero means no limit.
    pub fn max_matches(&self) -> (n: usize)
        ensures
            n == self.limit(),
    {
        self.max_matches
    }

    /// An executor reading from `source` with a fresh cursor, returning at
    /// most a thousand matches.
    pub fn new(source: &str) -> (e: QueryExecutor)
        ensures
            e.text() == source@,
            e.limit() == 1000,
            e.match_limit() is None,
            e.byte_ranges().len() == 0,
    {
        QueryExecutor { source: owned(source), max_matches: 1000, cursor: MatchCursor::new() }
    }

    /// An executor reading from `source` with the limit of `config`, which
    /// also becomes the cursor's match limit when it is not zero.
    pub fn with_config(source: &str, config: QueryConfig) -> (e: QueryExecutor)
        ensures
            e.text() == source@,
            e.limit() == config.max_matches,
            e.match_limit() == cursor_limit_for(config.max_matches),
            e.byte_ranges().len() == 0,
    {
        let mut e = Self::new(source);
        e.max_matches = config.max_matches;
        if config.max_matches > 0 {
            let limit: u32 = #[verifier::truncate] (config.max_matches as u32);
            e.cursor.set_match_limit(limit);
        }
        e
    }

    /// Sets the largest number of matches returned, which also becomes the
    /// cursor's match limit when it is not zero.
    pub fn set_max_matches(&mut self, max_matches: usize)
        ensures
            final(self).text() == old(self).text(),
            final(self).limit() == max_matches,
            final(self).match_limit() == if max_matches > 0 {
                cursor_limit_for(max_matches)
            } else {
                old(self).match_limit()
            },
            final(self).byte_ranges() == old(self).byte_ranges(),
    {
        self.max_matches = max_matches;
        if max_matches > 0 {
            let limit: u32 = #[verifier::truncate] (max_matches as u32);
            self.cursor.set_match_limit(limit);
        }
    }

    /// Gives the cursor the byte range from `start` to `end`.
    pub fn set_byte_range(&mut self, start: usize, end: usize)
        ensures
            final(self).text() == old(self).text(),
            final(self).limit() == old(self).limit(),
            final(self).match_limit() == old(self).match_limit(),
            final(self).byte_ranges() == old(self).byte_ranges().push((start, end)),
    {
        self.cursor.set_byte_range(start, end);
    }

    /// Replaces the cursor by a fresh one; the source text and the limit
    /// stay.
    pub fn reset(&mut self)
        ensures
            final(self).text() == old(self).text(),
            final(self).limit() == old(self).limit(),
            final(self).match_limit() is None,
            final(self).byte_ranges().len() == 0,
    {
        self.cursor = MatchCursor::new();
    }

    /// The result of one match: its captures, each with the text of its
    /// node, stored under the capture name; fails when a captured node's
    /// text cannot be read.
    fn match_result(&self, m: &MatchRecord) -> (r: Result<QueryResult, ASTError>)
        ensures
            r is Ok == match_readable(self.text(), match_view(*m)),
            r matches Ok(q) ==> result_matches(self.text(), q, match_view(*m)),
            r matches Err(e) ==> is_utf8_error(e),
    {
        let ghost mv = match_view(*m);
        let ghost text = self.text();
        let mut captures: StrMap<QueryCapture> = StrMap::new();
        let mut j: usize = 0;
        while j < m.captures.len()
            invariant
                j <= m.captures@.len(),
                mv == match_view(*m),
                mv.1.len() == m.captures@.len(),
                text == self.text(),
                fields_of(captures@) == captures_upto(text, mv.1, j as int),
                forall|k: int| 0 <= k < j ==> capture_readable(text, #[trigger] mv.1[k]),
            decreases m.captures@.len() - j,
        {
            let c: &CaptureRecord = &m.captures[j];
            assert(mv.1[j as int] == capture_view(*c));
            let (a, b) = c.byte_range;
            let t = match read_bytes(self.source.as_str(), a, b) {
                Ok(t) => t,
                Err(e) => {
                    return Err(e);
                },
            };
            let q = QueryCapture::new(t, c.start_position, c.end_position, c.byte_range, owned(c.kind.as_str()));
            proof {
                lemma_fields_stored(captures@, c.name@, q);
            }
            captures.insert(owned(c.name.as_str()), q);
            j = j + 1;
        }
        let result_type = QueryResult::infer_type(&captures, m.pattern_index);
        Ok(QueryResult::new(result_type, captures, m.pattern_index))
    }

    /// Runs `query` over `tree` and gives a result for each match, in the
    /// order the matches come, up to the limit. Fails when a captured
    /// node's text cannot be read from this executor's text.
    pub fn execute(&mut self, query: &CompiledQuery, tree: &ParseTree) -> (r: Result<Vec<QueryResult>, ASTError>)
        ensures
            same_settings(*final(self), *old(self)),
            r is Ok == old(self).readable_for(*query, *tree),
            r matches Ok(rs) ==> old(self).gives_results(*query, *tree, rs@),
            r matches Err(e) ==> is_utf8_error(e),
    {
        let found = tree.query_matches(query, &mut self.cursor);
        let ghost ms = just_query_matches(query.pattern(), tree.text_view(), old(self).match_limit(), old(self).byte_ranges());
        let n: usize = if self.max_matches == 0 || found.len() <= self.max_matches {
            found.len()
        } else {
            self.max_matches
        };
        let mut out: Vec<QueryResult> = Vec::new();
        let mut i: usize = 0;
        while i < n
            invariant
                i <= n,
                n == taken(ms.len(), self.max_matches),
                n <= found@.len(),
                ms == found@.map_values(|m: MatchRecord| match_view(m)),
                ms == old(self).matches_of(*query, *tree),
                same_settings(*self, *old(self)),
                out@.len() == i,
                forall|k: int| 0 <= k < i ==> match_readable(self.text(), #[trigger] ms[k]),
                forall|k: int| 0 <= k < i ==> result_matches(self.text(), #[trigger] out@[k], ms[k]),
            decreases n - i,
        {
            assert(ms[i as int] == match_view(found@[i as int]));
            match self.match_result(&found[i]) {
                Ok(q) => out.push(q),
                Err(e) => {
                    assert(!match_readable(self.text(), ms[i as int]));
                    return Err(e);
                },
            }
            i = i + 1;
        }
        Ok(out)
    }

    /// The last of the results `execute` gives with a limit of one match.
    /// The limit is put back on success; after a failure it stays at one.
    pub fn execute_first(&mut self, query: &CompiledQuery, tree: &ParseTree) -> (r: Result<Option<QueryResult>, ASTError>)
        ensures
            r is Ok ==> same_settings(*final(self), *old(self)),
            r is Err ==> {
                &&& final(self).text() == old(self).text()
                &&& final(self).limit() == 1
                &&& final(self).match_limit() == old(self).match_limit()
                &&& final(self).byte_ranges() == old(self).byte_ranges()
            },
            ({
                let ms = old(self).matches_of(*query, *tree);
                &&& r is Ok == (ms.len() > 0 ==> match_readable(old(self).text(), ms[0]))
                &&& r matches Ok(o) ==> ((o is Some) == (ms.len() > 0)) && (o matches Some(q) ==> result_matches(
                    old(self).text(),
                    q,
                    ms[0],
                ))
                &&& r matches Err(e) ==> is_utf8_error(e)
            }),
    {
        let original = self.max_matches;
        self.max_matches = 1;
        let mut results = match self.execute(query, tree) {
            Ok(rs) => rs,
            Err(e) => {
                return Err(e);
            },
        };
        self.max_matches = original;
        Ok(results.pop())
    }

    /// The results of `execute` whose kind is among `result_types`, in
    /// order.
    pub fn execute_filtered(&mut self, query: &CompiledQuery, tree: &ParseTree, result_types: &[QueryResultType]) -> (r:
        Result<Vec<QueryResult>, ASTError>)
        ensures
            same_settings(*final(self), *old(self)),
            r is Ok == old(self).readable_for(*query, *tree),
            r matches Ok(rs) ==> exists|all: Seq<QueryResult>|
                old(self).gives_results(*query, *tree, all) && rs@ == all.filter(
                    |q: QueryResult| result_types@.contains(q.result_type),
                ),
            r matches Err(e) ==> is_utf8_error(e),
    {
        let all = match self.execute(query, tree) {
            Ok(v) => v,
            Err(e) => {
                return Err(e);
            },
        };
        let ghost whole = all@;
        let ghost f = |q: QueryResult| result_types@.contains(q.result_type);
        let n = all.len();
        let mut rest = all;
        let mut out: Vec<QueryResult> = Vec::new();
        let mut i: usize = 0;
        while rest.len() > 0
            invariant
                i + rest@.len() == whole.len(),
                whole.len() == n,
                rest@ == whole.subrange(i as int, whole.len() as int),
                f == (|q: QueryResult| result_types@.contains(q.result_type)),
                out@ == whole.take(i as int).filter(f),
            decreases rest@.len(),
        {
            proof {
                crate::parser::ast::queries::processor::lemma_filter_take(whole, f, i as int);
            }
            let item = rest.remove(0);
            assert(item == whole[i as int]);
            let mut found = false;
            let mut k: usize = 0;
            while k < result_types.len()
                invariant
                    k <= result_types@.len(),
                    found == exists|l: int| 0 <= l < k && result_types@[l] == item.result_type,
                decreases result_types@.len() - k,
            {
                if result_types[k] == item.result_type {
                    found = true;
                }
                k = k + 1;
            }
            proof {
                if found {
                    let l = choose|l: int| 0 <= l < k && result_types@[l] == item.result_type;
                    assert(result_types@.contains(item.result_type));
                }
            }
            if found {
                out.push(item);
            }
            i = i + 1;
            assert(rest@ =~= whole.subrange(i as int, whole.len() as int));
        }
        assert(whole.take(i as int) =~= whole);
        Ok(out)
    }

    /// The results of `execute` for each query, stored under the query's
    /// name; a later query of the same name replaces an earlier one, and the
    /// names come in the order they first occur. Fails with the first query
    /// whose matches cannot be read.
    pub fn execute_multiple(&mut self, queries: &[&CompiledQuery], tree: &ParseTree) -> (r: Result<
        StrMap<Vec<QueryResult>>,
        ASTError,
    >)
        ensures
            same_settings(*final(self), *old(self)),
            r is Ok == forall|i: int| 0 <= i < queries@.len() ==> old(self).readable_for(*#[trigger] queries@[i], *tree),
            r matches Ok(m) ==> {
                &&& distinct_keys(m@)
                &&& forall|i: int| 0 <= i < queries@.len() ==> has_key(m@, (#[trigger] queries@[i]).label())
                &&& forall|j: int|
                    0 <= j < m@.len() ==> {
                        let l = last_index(query_labels(queries@), (#[trigger] m@[j]).0);
                        &&& 0 <= l < queries@.len()
                        &&& old(self).gives_results(*queries@[l], *tree, m@[j].1@)
                    }
            },
            r matches Err(e) ==> is_utf8_error(e),
    {
        let ghost ls = query_labels(queries@);
        let mut all: StrMap<Vec<QueryResult>> = StrMap::new();
        let mut i: usize = 0;
        while i < queries.len()
            invariant
                i <= queries@.len(),
                ls == query_labels(queries@),
                same_settings(*self, *old(self)),
                distinct_keys(all@),
                forall|l: int| 0 <= l < i ==> old(self).readable_for(*#[trigger] queries@[l], *tree),
                forall|l: int| 0 <= l < i ==> has_key(all@, (#[trigger] queries@[l]).label()),
                forall|j: int|
                    0 <= j < all@.len() ==> {
                        let l = last_index(ls.take(i as int), (#[trigger] all@[j]).0);
                        &&& 0 <= l < i
                        &&& old(self).gives_results(*queries@[l], *tree, all@[j].1@)
                    },
            decreases queries@.len() - i,
        {
            let q: &CompiledQuery = queries[i];
            let results = match self.execute(q, tree) {
                Ok(v) => v,
                Err(e) => {
                    proof {
                        lemma_same_settings(*self, *old(self), *q, *tree);
                    }
                    return Err(e);
                },
            };
            proof {
                lemma_same_settings(*self, *old(self), *q, *tree);
            }
            let ghost before = all@;
            let ghost rv = results@;
            proof {
                crate::strmap::lemma_key_index_from(before, q.label(), 0);
            }
            all.insert(owned(q.name()), results);
            proof {
                assert(ls.take(i + 1).drop_last() =~= ls.take(i as int));
                assert(ls.take(i + 1).last() == q.label());
                assert forall|l: int| 0 <= l <= i implies has_key(all@, (#[trigger] queries@[l]).label()) by {
                    crate::strmap::lemma_key_index_from(all@, queries@[l].label(), 0);
                    if l < i {
                        crate::strmap::lemma_key_index_from(before, queries@[l].label(), 0);
                        let p = crate::strmap::key_index(before, queries@[l].label()).unwrap();
                        assert(all@[p as int].0 == queries@[l].label());
                    } else {
                        match crate::strmap::key_index(before, q.label()) {
                            Some(p) => assert(all@[p as int].0 == q.label()),
                            None => assert(all@[before.len() as int].0 == q.label()),
                        }
                    }
                }
                assert forall|j: int| 0 <= j < all@.len() implies {
                    let l = last_index(ls.take(i + 1), (#[trigger] all@[j]).0);
                    &&& 0 <= l < i + 1
                    &&& old(self).gives_results(*queries@[l], *tree, all@[j].1@)
                } by {
                    if all@[j].0 == q.label() {
                        assert(last_index(ls.take(i + 1), all@[j].0) == i);
                        match crate::strmap::key_index(before, q.label()) {
                            Some(p) => {
                                assert(j == p) by {
                                    if j != p {
                                        assert(all@[j] == before[j]);
                                        assert(all@[p as int].0 == q.label());
                                    }
                                }
                            },
                            None => {
                                if j < before.len() {
                                    assert(all@[j] == before[j]);
                                }
                            },
                        }
                        assert(all@[j].1@ == rv);
                    } else {
                        assert(last_index(ls.take(i + 1), all@[j].0) == last_index(ls.take(i as int), all@[j].0));
                        assert(j < before.len() && all@[j] == before[j]);
                    }
                }
            }
            i = i + 1;
        }
        assert(ls.take(i as int) =~= ls);
        Ok(all)
    }
}

} // verus!

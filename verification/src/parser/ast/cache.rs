//! Compiling query patterns for the just grammar, and the counters kept by
//! the cache of compiled queries.
use vstd::prelude::*;
use std::sync::Arc;
use crate::text::{
    decimal, owned, push_str, u128_to_string, chars_of, is_blank, lines_of, find_char_exec, find_char, trim,
    text_lines, unicode_alphabetic, char_is_alphabetic, string_of,
};
use crate::parser::ast::errors::ASTError;
use crate::parser::ast::syntax::{CompiledQuery, just_query_error};
use crate::parser::ast::queries::info::strs;
use crate::strmap::{StrMap, stored, lookup, key_index, distinct_keys};
use crate::parser::ast::queries::results::QueryCompilationError;
use crate::parser::ast::queries::patterns::{
    QueryPatterns, RECIPE_QUERY, PARAMETER_QUERY, DEPENDENCY_QUERY, COMMENT_QUERY, ATTRIBUTE_QUERY,
    IDENTIFIER_QUERY, BODY_QUERY, ASSIGNMENT_QUERY, INTERPOLATION_QUERY, STRING_QUERY, EXPRESSION_QUERY,
};

verus! {

/// Counters of the query cache.
#[derive(Debug, Clone, Default)]
pub struct CacheStats {
    /// Lookups that found a compiled query.
    pub hits: u64,
    /// Lookups that compiled and stored a query.
    pub misses: u64,
    /// Queries that failed to compile.
    pub compilation_errors: u64,
    /// Queries dropped to respect the size limit.
    pub evictions: u64,
    /// Time spent compiling, in microseconds.
    pub compilation_time_us: u64,
}

/// `n / d` in tenths, rounded to the nearest tenth; a value exactly half
/// way between two tenths goes to the even one. Zero when `d` is zero.
pub open spec fn tenths(n: nat, d: nat) -> nat {
    if d == 0 {
        0
    } else {
        let q = 10 * n / d;
        let r = 10 * n % d;
        if 2 * r > d || (2 * r == d && q % 2 == 1) {
            q + 1
        } else {
            q
        }
    }
}

/// Text of a number of tenths with one decimal, such as `83.3`.
pub open spec fn tenths_text(t: nat) -> Seq<char> {
    decimal(t / 10) + "."@ + decimal(t % 10)
}

/// Hit rate in tenths of a percent.
pub open spec fn hit_rate_tenths(s: CacheStats) -> nat {
    tenths((100 * s.hits) as nat, (s.hits + s.misses) as nat)
}

/// Average compilation time in tenths of a microsecond.
pub open spec fn average_tenths(s: CacheStats) -> nat {
    tenths(s.compilation_time_us as nat, s.misses as nat)
}

/// One-line summary of the counters.
pub open spec fn spec_cache_summary(s: CacheStats) -> Seq<char> {
    "Cache Stats: "@ + decimal(s.hits as nat) + " hits, "@ + decimal(s.misses as nat) + " misses, "@
        + tenths_text(hit_rate_tenths(s)) + "% hit rate, "@ + decimal(s.compilation_errors as nat)
        + " compilation errors, "@ + decimal(s.evictions as nat) + " evictions, "@ + tenths_text(
        average_tenths(s),
    ) + "μs avg compilation"@
}

/// `n / d` in tenths, to the nearest tenth, ties to the even tenth.
fn tenths_exec(n: u128, d: u128) -> (t: u128)
    requires
        n <= 100 * (u64::MAX as u128),
        d <= 2 * (u64::MAX as u128),
    ensures
        t == tenths(n as nat, d as nat),
{
    if d == 0 {
        0
    } else {
        let q = 10 * n / d;
        let r = 10 * n % d;
        if 2 * r > d || (2 * r == d && q % 2 == 1) {
            q + 1
        } else {
            q
        }
    }
}

/// Text of a number of tenths with one decimal.
fn tenths_string(t: u128) -> (s: String)
    ensures
        s@ == tenths_text(t as nat),
{
    let mut s = u128_to_string(t / 10);
    push_str(&mut s, ".");
    let d = u128_to_string(t % 10);
    push_str(&mut s, d.as_str());
    s
}

impl CacheStats {
    /// Lookups made, hits and misses together.
    pub fn total_operations(&self) -> (n: u64)
        requires
            self.hits + self.misses <= u64::MAX,
        ensures
            n == self.hits + self.misses,
    {
        self.hits + self.misses
    }

    /// One-line summary: counts, the hit rate as a percentage and the average
    /// compilation time in microseconds, both to the nearest tenth.
    pub fn to_string(&self) -> (s: String)
        ensures
            s@ == spec_cache_summary(*self),
    {
        let hits = self.hits as u128;
        let misses = self.misses as u128;
        let rate = tenths_exec(100 * hits, hits + misses);
        let avg = tenths_exec(self.compilation_time_us as u128, misses);
        let mut s = owned("Cache Stats: ");
        push_str(&mut s, u128_to_string(hits).as_str());
        push_str(&mut s, " hits, ");
        push_str(&mut s, u128_to_string(misses).as_str());
        push_str(&mut s, " misses, ");
        push_str(&mut s, tenths_string(rate).as_str());
        push_str(&mut s, "% hit rate, ");
        push_str(&mut s, u128_to_string(self.compilation_errors as u128).as_str());
        push_str(&mut s, " compilation errors, ");
        push_str(&mut s, u128_to_string(self.evictions as u128).as_str());
        push_str(&mut s, " evictions, ");
        push_str(&mut s, tenths_string(avg).as_str());
        push_str(&mut s, "μs avg compilation");
        s
    }
}


/// Depth of parentheses after the first `n` characters.
pub open spec fn paren_depth(s: Seq<char>, n: int) -> int
    decreases n,
{
    if n <= 0 {
        0
    } else {
        paren_depth(s, n - 1) + if s[n - 1] == '(' {
            1int
        } else if s[n - 1] == ')' {
            -1int
        } else {
            0int
        }
    }
}

/// No prefix closes more parentheses than it opens, and the whole opens as
/// many as it closes.
pub open spec fn parens_balanced(s: Seq<char>) -> bool {
    &&& forall|n: int| 0 <= n <= s.len() ==> #[trigger] paren_depth(s, n) >= 0
    &&& paren_depth(s, s.len() as int) == 0
}

/// The character after the first `@` of a line, when it cannot start a
/// capture name (a letter or `_`).
pub open spec fn bad_capture_start(line: Seq<char>) -> Option<char> {
    match find_char(line, '@') {
        Some(p) => if p + 1 < line.len() && !(unicode_alphabetic(line[p + 1int]) || line[p + 1int] == '_') {
            Some(line[p + 1int])
        } else {
            None
        },
        None => None,
    }
}

/// The first bad capture start among lines `i` onwards.
pub open spec fn first_bad_capture(ls: Seq<Seq<char>>, i: int) -> Option<char>
    decreases ls.len() - i,
{
    if i < 0 || i >= ls.len() {
        None
    } else {
        match bad_capture_start(ls[i]) {
            Some(c) => Some(c),
            None => first_bad_capture(ls, i + 1),
        }
    }
}

/// What validation finds wrong with a pattern: unbalanced parentheses, an
/// empty pattern, or a capture name that starts badly.
pub open spec fn pattern_problem(s: Seq<char>) -> Option<Seq<char>> {
    if !parens_balanced(s) {
        Some("Unbalanced parentheses in query pattern"@)
    } else if trim(s).len() == 0 {
        Some("Query pattern cannot be empty"@)
    } else {
        match first_bad_capture(text_lines(s), 0) {
            Some(c) => Some("Invalid capture name starting with '"@ + seq![c] + "'"@),
            None => None,
        }
    }
}

/// The context of the error compiling `pattern` gives, if any.
pub open spec fn compile_failure(validate: bool, pattern: Seq<char>) -> Option<Seq<char>> {
    if validate && pattern_problem(pattern) is Some {
        pattern_problem(pattern)
    } else {
        match just_query_error(pattern) {
            Some(d) => Some(
                "Query compilation failed: Query compilation failed at offset 0: Query compilation error: "@ + d,
            ),
            None => None,
        }
    }
}

/// Compiles query patterns for the just grammar, optionally checking them
/// first.
pub struct QueryCompiler {
    /// Whether patterns are checked before they are compiled.
    pub validate_patterns: bool,
}

/// The standard queries, compiled.
pub struct QueryBundle {
    pub recipes: Arc<CompiledQuery>,
    pub parameters: Arc<CompiledQuery>,
    pub dependencies: Arc<CompiledQuery>,
    pub comments: Arc<CompiledQuery>,
    pub attributes: Arc<CompiledQuery>,
    pub identifiers: Arc<CompiledQuery>,
    pub bodies: Arc<CompiledQuery>,
    pub assignments: Arc<CompiledQuery>,
    pub interpolations: Arc<CompiledQuery>,
    pub strings: Arc<CompiledQuery>,
    pub expressions: Arc<CompiledQuery>,
}

/// The standard patterns with their names, in the order they are compiled.
pub open spec fn standard_patterns() -> Seq<(Seq<char>, Seq<char>)> {
    seq![
        (RECIPE_QUERY@, "recipes"@),
        (PARAMETER_QUERY@, "parameters"@),
        (DEPENDENCY_QUERY@, "dependencies"@),
        (COMMENT_QUERY@, "comments"@),
        (ATTRIBUTE_QUERY@, "attributes"@),
        (IDENTIFIER_QUERY@, "identifiers"@),
        (BODY_QUERY@, "bodies"@),
        (ASSIGNMENT_QUERY@, "assignments"@),
        (INTERPOLATION_QUERY@, "interpolations"@),
        (STRING_QUERY@, "strings"@),
        (EXPRESSION_QUERY@, "expressions"@),
    ]
}

/// The failure of the first of patterns `i` onwards that does not compile.
pub open spec fn first_failure(validate: bool, ps: Seq<(Seq<char>, Seq<char>)>, i: int) -> Option<Seq<char>>
    decreases ps.len() - i,
{
    if i < 0 || i >= ps.len() {
        None
    } else {
        match compile_failure(validate, ps[i].0) {
            Some(m) => Some(m),
            None => first_failure(validate, ps, i + 1),
        }
    }
}

/// Whether a bundle query is pattern `k` of the standard ones.
pub open spec fn is_standard(q: CompiledQuery, k: int) -> bool {
    q.pattern() == standard_patterns()[k].0 && q.label() == standard_patterns()[k].1
}

impl QueryCompiler {
    /// Whether patterns are checked before they are compiled.
    pub open spec fn validates(&self) -> bool {
        self.validate_patterns
    }

    /// A compiler that checks patterns.
    pub fn new() -> (c: QueryCompiler)
        ensures
            c.validates(),
    {
        QueryCompiler { validate_patterns: true }
    }

    /// A compiler that does not check patterns.
    pub fn without_validation() -> (c: QueryCompiler)
        ensures
            !c.validates(),
    {
        QueryCompiler { validate_patterns: false }
    }

    /// Checks parentheses, emptiness and the first character of capture
    /// names.
    pub fn validate_pattern(&self, pattern: &str) -> (r: Result<(), ASTError>)
        ensures
            r is Ok == pattern_problem(pattern@) is None,
            r matches Err(e) ==> pattern_problem(pattern@) matches Some(m) && e matches ASTError::Internal {
                context,
            } && context@ == m,
    {
        let v = chars_of(pattern);
        let mut depth: usize = 0;
        let mut i: usize = 0;
        while i < v.len()
            invariant
                i <= v@.len(),
                v@ == pattern@,
                depth as int == paren_depth(v@, i as int),
                depth <= i,
                forall|n: int| 0 <= n <= i ==> #[trigger] paren_depth(v@, n) >= 0,
            decreases v@.len() - i,
        {
            if v[i] == '(' {
                depth = depth + 1;
            } else if v[i] == ')' {
                if depth == 0 {
                    assert(paren_depth(v@, i + 1) < 0);
                    return Err(ASTError::internal("Unbalanced parentheses in query pattern"));
                }
                depth = depth - 1;
            }
            i = i + 1;
        }
        if depth != 0 {
            return Err(ASTError::internal("Unbalanced parentheses in query pattern"));
        }
        if is_blank(pattern) {
            return Err(ASTError::internal("Query pattern cannot be empty"));
        }
        assert(parens_balanced(pattern@));
        let ls = lines_of(pattern);
        let mut k: usize = 0;
        while k < ls.len()
            invariant
                k <= ls@.len(),
                parens_balanced(pattern@),
                trim(pattern@).len() != 0,
                strs(ls@) == text_lines(pattern@),
                first_bad_capture(text_lines(pattern@), 0) == first_bad_capture(text_lines(pattern@), k as int),
            decreases ls@.len() - k,
        {
            let line = chars_of(ls[k].as_str());
            assert(strs(ls@)[k as int] == ls@[k as int]@);
            match find_char_exec(&line, '@') {
                Some(p) => {
                    if p + 1 < line.len() {
                        let c = line[p + 1];
                        if !(char_is_alphabetic(c) || c == '_') {
                            let mut m = owned("Invalid capture name starting with '");
                            let one = string_of(&vec![c]);
                            push_str(&mut m, one.as_str());
                            push_str(&mut m, "'");
                            assert(line@ == text_lines(pattern@)[k as int]);
                            assert(bad_capture_start(line@) == Some(c));
                            assert(m@ =~= "Invalid capture name starting with '"@ + seq![c] + "'"@);
                            return Err(ASTError::internal(m.as_str()));
                        }
                    }
                },
                None => {},
            }
            k = k + 1;
        }
        Ok(())
    }

    /// Compiles `pattern` under `name`, checking it first when this compiler
    /// validates.
    pub fn compile(&self, pattern: &str, name: String) -> (r: Result<CompiledQuery, ASTError>)
        ensures
            r is Ok == compile_failure(self.validates(), pattern@) is None,
            r matches Ok(q) ==> q.pattern() == pattern@ && q.label() == name@,
            r matches Err(e) ==> compile_failure(self.validates(), pattern@) matches Some(m)
                && e matches ASTError::Internal { context } && context@ == m,
    {
        if self.validate_patterns {
            match self.validate_pattern(pattern) {
                Ok(()) => {},
                Err(e) => {
                    return Err(e);
                },
            }
        }
        match CompiledQuery::compile(pattern, name) {
            Ok(q) => Ok(q),
            Err(d) => {
                let mut message = owned("Query compilation error: ");
                push_str(&mut message, d.as_str());
                let failure = QueryCompilationError::new(message, 0, owned(pattern));
                let mut context = owned("Query compilation failed: ");
                push_str(&mut context, failure.to_string().as_str());
                proof {
                    assert(decimal(0) =~= "0"@) by {
                        reveal_strlit("0");
                    }
                    assert(context@ =~= "Query compilation failed: Query compilation failed at offset 0: Query compilation error: "@ + d@) by {
                        reveal_strlit("Query compilation failed: Query compilation failed at offset 0: Query compilation error: ");
                        reveal_strlit("Query compilation failed: ");
                        reveal_strlit("Query compilation failed at offset ");
                        reveal_strlit(": ");
                        reveal_strlit("Query compilation error: ");
                    }
                }
                Err(ASTError::internal(context.as_str()))
            },
        }
    }

    /// Compiles the standard patterns in order; fails with the error of the
    /// first that does not compile.
    pub fn compile_standard_queries(&self) -> (r: Result<QueryBundle, ASTError>)
        ensures
            r is Ok == first_failure(self.validates(), standard_patterns(), 0) is None,
            r matches Ok(b) ==> true
                && is_standard(*b.recipes, 0)
                && is_standard(*b.parameters, 1)
                && is_standard(*b.dependencies, 2)
                && is_standard(*b.comments, 3)
                && is_standard(*b.attributes, 4)
                && is_standard(*b.identifiers, 5)
                && is_standard(*b.bodies, 6)
                && is_standard(*b.assignments, 7)
                && is_standard(*b.interpolations, 8)
                && is_standard(*b.strings, 9)
                && is_standard(*b.expressions, 10),
            r matches Err(e) ==> first_failure(self.validates(), standard_patterns(), 0) matches Some(m)
                && e matches ASTError::Internal { context } && context@ == m,
    {
        let p = QueryPatterns::new();
        let list: Vec<(&str, &str)> = vec![
            (p.recipes, "recipes"),
            (p.parameters, "parameters"),
            (p.dependencies, "dependencies"),
            (p.comments, "comments"),
            (p.attributes, "attributes"),
            (p.identifiers, "identifiers"),
            (p.bodies, "bodies"),
            (p.assignments, "assignments"),
            (p.interpolations, "interpolations"),
            (p.strings, "strings"),
            (p.expressions, "expressions"),
        ];
        let ghost sp = standard_patterns();
        assert(list@.len() == sp.len());
        assert(forall|k: int| 0 <= k < sp.len() ==> (#[trigger] list@[k]).0@ == sp[k].0 && list@[k].1@ == sp[k].1);
        let mut done: Vec<CompiledQuery> = Vec::new();
        let mut i: usize = 0;
        while i < list.len()
            invariant
                i <= list@.len(),
                sp == standard_patterns(),
                list@.len() == sp.len(),
                forall|k: int| 0 <= k < sp.len() ==> (#[trigger] list@[k]).0@ == sp[k].0 && list@[k].1@ == sp[k].1,
                done@.len() == i,
                forall|k: int| 0 <= k < i ==> is_standard(#[trigger] done@[k], k),
                first_failure(self.validates(), sp, 0) == first_failure(self.validates(), sp, i as int),
            decreases list@.len() - i,
        {
            let (pattern, name) = list[i];
            match self.compile(pattern, owned(name)) {
                Ok(q) => done.push(q),
                Err(e) => {
                    return Err(e);
                },
            }
            i = i + 1;
        }
        let ghost all = done@;
        let expressions = done.pop().unwrap();
        let strings = done.pop().unwrap();
        let interpolations = done.pop().unwrap();
        let assignments = done.pop().unwrap();
        let bodies = done.pop().unwrap();
        let identifiers = done.pop().unwrap();
        let attributes = done.pop().unwrap();
        let comments = done.pop().unwrap();
        let dependencies = done.pop().unwrap();
        let parameters = done.pop().unwrap();
        let recipes = done.pop().unwrap();
        Ok(QueryBundle { recipes: Arc::new(recipes), parameters: Arc::new(parameters), dependencies: Arc::new(dependencies), comments: Arc::new(comments), attributes: Arc::new(attributes), identifiers: Arc::new(identifiers), bodies: Arc::new(bodies), assignments: Arc::new(assignments), interpolations: Arc::new(interpolations), strings: Arc::new(strings), expressions: Arc::new(expressions) })
    }
}

/// An instant of the `std` clock.
#[verifier::external_type_specification]
#[verifier::external_body]
pub struct ExInstant(std::time::Instant);

/// Calls `std::time::Instant::now`. Nothing is claimed of the instant.
#[verifier::external_body]
fn instant_now() -> (t: std::time::Instant) {
    std::time::Instant::now()
}

/// Calls `std::time::Instant::elapsed` and gives the microseconds, cut to
/// 64 bits. Nothing is claimed of the number: it depends on the clock.
#[verifier::external_body]
fn micros_since(start: &std::time::Instant) -> (us: u64) {
    start.elapsed().as_micros() as u64
}

/// Counters with nothing counted.
pub open spec fn no_counts() -> CacheStats {
    CacheStats { hits: 0, misses: 0, compilation_errors: 0, evictions: 0, compilation_time_us: 0 }
}

/// The entries left to make room for one more under a size limit: the
/// oldest entry goes when the cache is full.
pub open spec fn room_made(m: Seq<(Seq<char>, Arc<CompiledQuery>)>, max_size: usize) -> Seq<(Seq<char>, Arc<CompiledQuery>)> {
    if m.len() >= max_size && m.len() > 0 {
        m.remove(0)
    } else {
        m
    }
}

/// Whether making room drops an entry.
pub open spec fn evicts(m: Seq<(Seq<char>, Arc<CompiledQuery>)>, max_size: usize) -> bool {
    m.len() >= max_size && m.len() > 0
}

/// Compiled queries by key, at most a given number of them (the oldest
/// goes first), with counters of lookups, compilations and evictions.
pub struct QueryCache {
    cache: StrMap<Arc<CompiledQuery>>,
    stats: CacheStats,
    max_size: usize,
}

impl QueryCache {
    /// No key occurs twice.
    #[verifier::type_invariant]
    spec fn keys_distinct(self) -> bool {
        distinct_keys(self.cache@)
    }

    /// The cached queries by key, oldest first.
    pub closed spec fn entries(&self) -> Seq<(Seq<char>, Arc<CompiledQuery>)> {
        self.cache@
    }

    /// The counters.
    pub closed spec fn counters(&self) -> CacheStats {
        self.stats
    }

    /// The largest number of queries kept.
    pub closed spec fn limit(&self) -> usize {
        self.max_size
    }

    /// The largest number of queries kept.
    pub fn max_size(&self) -> (n: usize)
        ensures
            n == self.limit(),
    {
        self.max_size
    }

    /// An empty cache for 64 queries.
    pub fn new() -> (c: QueryCache)
        ensures
            c.entries().len() == 0,
            c.counters() == no_counts(),
            c.limit() == 64,
    {
        Self::with_capacity(64)
    }

    /// An empty cache for `max_size` queries.
    pub fn with_capacity(max_size: usize) -> (c: QueryCache)
        ensures
            c.entries().len() == 0,
            c.counters() == no_counts(),
            c.limit() == max_size,
    {
        QueryCache {
            cache: StrMap::new(),
            stats: CacheStats { hits: 0, misses: 0, compilation_errors: 0, evictions: 0, compilation_time_us: 0 },
            max_size,
        }
    }

    /// The query cached under `key`; a hit is counted.
    pub fn get(&mut self, key: &str) -> (r: Option<Arc<CompiledQuery>>)
        requires
            lookup(old(self).entries(), key@) is Some ==> old(self).counters().hits < u64::MAX,
        ensures
            r == lookup(old(self).entries(), key@),
            final(self).entries() == old(self).entries(),
            final(self).limit() == old(self).limit(),
            final(self).counters() == (if r is Some {
                CacheStats { hits: (old(self).counters().hits + 1) as u64, ..old(self).counters() }
            } else {
                old(self).counters()
            }),
    {
        proof {
            use_type_invariant(&*self);
        }
        let r = match self.cache.get(key) {
            Some(q) => Some(q.clone()),
            None => None,
        };
        if r.is_some() {
            self.stats.hits = self.stats.hits + 1;
        }
        r
    }

    /// Stores `query` under `key`, first dropping the oldest query when the
    /// cache is full (an eviction is counted).
    pub fn insert(&mut self, key: String, query: Arc<CompiledQuery>) -> (r: Result<(), ASTError>)
        requires
            evicts(old(self).entries(), old(self).limit()) ==> old(self).counters().evictions < u64::MAX,
        ensures
            r is Ok,
            final(self).entries() == stored(room_made(old(self).entries(), old(self).limit()), key@, query),
            final(self).limit() == old(self).limit(),
            final(self).counters() == (if evicts(old(self).entries(), old(self).limit()) {
                CacheStats { evictions: (old(self).counters().evictions + 1) as u64, ..old(self).counters() }
            } else {
                old(self).counters()
            }),
    {
        proof {
            use_type_invariant(&*self);
        }
        let mut cache = StrMap::new();
        std::mem::swap(&mut cache, &mut self.cache);
        if cache.len() >= self.max_size && cache.len() > 0 {
            let _ = cache.remove_at(0);
            self.stats.evictions = self.stats.evictions + 1;
        }
        cache.insert(key, query);
        self.cache = cache;
        Ok(())
    }

    /// Removes and returns the query cached under `key`.
    pub fn remove(&mut self, key: &str) -> (r: Option<Arc<CompiledQuery>>)
        ensures
            r == lookup(old(self).entries(), key@),
            final(self).entries() == match key_index(old(self).entries(), key@) {
                Some(i) => old(self).entries().remove(i as int),
                None => old(self).entries(),
            },
            final(self).counters() == old(self).counters(),
            final(self).limit() == old(self).limit(),
    {
        proof {
            use_type_invariant(&*self);
            crate::strmap::lemma_key_index_from(self.cache@, key@, 0);
        }
        match self.cache.index_of(key) {
            Some(i) => {
                let mut cache = StrMap::new();
                std::mem::swap(&mut cache, &mut self.cache);
                let (_, q) = cache.remove_at(i);
                self.cache = cache;
                Some(q)
            },
            None => None,
        }
    }

    /// Drops every cached query; the counters stay.
    pub fn clear(&mut self) -> (r: Result<(), ASTError>)
        ensures
            r is Ok,
            final(self).entries().len() == 0,
            final(self).counters() == old(self).counters(),
            final(self).limit() == old(self).limit(),
    {
        self.cache = StrMap::new();
        Ok(())
    }

    /// A copy of the counters.
    pub fn stats(&self) -> (r: Result<CacheStats, ASTError>)
        ensures
            r == Ok::<CacheStats, ASTError>(self.counters()),
    {
        Ok(
            CacheStats {
                hits: self.stats.hits,
                misses: self.stats.misses,
                compilation_errors: self.stats.compilation_errors,
                evictions: self.stats.evictions,
                compilation_time_us: self.stats.compilation_time_us,
            },
        )
    }

    /// The number of cached queries.
    pub fn len(&self) -> (n: usize)
        ensures
            n == self.entries().len(),
    {
        self.cache.len()
    }

    /// Whether no query is cached.
    pub fn is_empty(&self) -> (b: bool)
        ensures
            b == (self.entries().len() == 0),
    {
        self.cache.len() == 0
    }

    /// The query cached under `key` (a hit is counted), or else `pattern`
    /// compiled under the name `key`, stored, and counted as a miss with the
    /// time it took; a compilation error is handed back and nothing stored.
    pub fn get_or_compile(&mut self, key: &str, pattern: &str, compiler: &QueryCompiler) -> (r: Result<
        Arc<CompiledQuery>,
        ASTError,
    >)
        requires
            old(self).counters().hits < u64::MAX,
            old(self).counters().misses < u64::MAX,
            old(self).counters().evictions < u64::MAX,
        ensures
            final(self).limit() == old(self).limit(),
            match lookup(old(self).entries(), key@) {
                Some(q) => r == Ok::<Arc<CompiledQuery>, ASTError>(q) && final(self).entries() == old(self).entries()
                    && final(self).counters() == CacheStats {
                    hits: (old(self).counters().hits + 1) as u64,
                    ..old(self).counters()
                },
                None => match compile_failure(compiler.validates(), pattern@) {
                    Some(m) => (r matches Err(ASTError::Internal { context }) && context@ == m)
                        && final(self).entries() == old(self).entries() && final(self).counters()
                        == old(self).counters(),
                    None => (r matches Ok(q) && q.pattern() == pattern@ && q.label() == key@
                        && final(self).entries() == stored(
                        room_made(old(self).entries(), old(self).limit()),
                        key@,
                        q,
                    ) && final(self).counters().misses == old(self).counters().misses + 1
                        && final(self).counters().hits == old(self).counters().hits
                        && final(self).counters().compilation_errors == old(self).counters().compilation_errors
                        && final(self).counters().evictions == old(self).counters().evictions + (if evicts(
                        old(self).entries(),
                        old(self).limit(),
                    ) {
                        1int
                    } else {
                        0int
                    }) && final(self).counters().compilation_time_us >= old(self).counters().compilation_time_us),
                },
            },
    {
        proof {
            use_type_invariant(&*self);
        }
        match self.get(key) {
            Some(q) => {
                return Ok(q);
            },
            None => {},
        }
        let start = instant_now();
        let compiled = match compiler.compile(pattern, owned(key)) {
            Ok(q) => q,
            Err(e) => {
                return Err(e);
            },
        };
        let took = micros_since(&start);
        self.stats.misses = self.stats.misses + 1;
        self.stats.compilation_time_us = self.stats.compilation_time_us.saturating_add(took);
        let shared = Arc::new(compiled);
        let kept = shared.clone();
        match self.insert(owned(key), shared) {
            Ok(()) => {},
            Err(e) => {
                return Err(e);
            },
        }
        Ok(kept)
    }
}

} // verus!

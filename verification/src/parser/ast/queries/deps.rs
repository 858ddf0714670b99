//! Checks on the dependencies between recipes: missing targets, malformed
//! dependencies and cycles.
use vstd::prelude::*;
use vstd::set_lib::lemma_len_subset;
use crate::text::{owned, push_str, usize_to_string, is_blank, trim, strings_contain, string_position};
use crate::strmap::{StrMap, key_index, lookup, has_key, distinct_keys, lemma_key_index_from};
use crate::parser::ast::queries::info::{RecipeInfo, DependencyInfo, strs};
use crate::sorted::lemma_push_to_set;

verus! {

broadcast use {vstd::seq_lib::seq_to_set_is_finite, vstd::set::axiom_set_insert_len};

/// Validates the dependencies of the recipes of a justfile.
pub struct DependencyValidator;

/// Kind of a dependency problem.
#[derive(Debug, Clone, Copy, PartialEq, Eq)]
pub enum DependencyErrorType {
    CircularDependency,
    MissingTarget,
    InvalidName,
    InvalidArgument,
    InvalidCondition,
    InvalidStructure,
}

/// A problem found in one dependency.
#[derive(Debug)]
pub struct DependencyValidationError {
    pub dependency_name: String,
    pub error_type: DependencyErrorType,
    pub message: String,
    pub position: Option<(usize, usize)>,
}

/// Everything found wrong with the dependencies of a justfile.
#[derive(Debug)]
pub struct DependencyValidationResult {
    /// Each cycle starts and ends with the same recipe.
    pub circular_dependencies: Vec<Vec<String>>,
    /// Names of dependencies on recipes that do not exist.
    pub missing_dependencies: Vec<String>,
    pub invalid_dependencies: Vec<DependencyValidationError>,
}

/// What an error records: name, kind, message and position.
pub open spec fn error_view(e: DependencyValidationError) -> (
    Seq<char>,
    DependencyErrorType,
    Seq<char>,
    Option<(usize, usize)>,
) {
    (e.dependency_name@, e.error_type, e.message@, e.position)
}

/// Text of an error kind.
pub open spec fn spec_error_type_text(t: DependencyErrorType) -> Seq<char> {
    match t {
        DependencyErrorType::CircularDependency => "circular_dependency"@,
        DependencyErrorType::MissingTarget => "missing_target"@,
        DependencyErrorType::InvalidName => "invalid_name"@,
        DependencyErrorType::InvalidArgument => "invalid_argument"@,
        DependencyErrorType::InvalidCondition => "invalid_condition"@,
        DependencyErrorType::InvalidStructure => "invalid_structure"@,
    }
}

impl DependencyErrorType {
    /// The kind as text, such as `missing_target`.
    pub fn to_string(&self) -> (s: String)
        ensures
            s@ == spec_error_type_text(*self),
    {
        match self {
            DependencyErrorType::CircularDependency => owned("circular_dependency"),
            DependencyErrorType::MissingTarget => owned("missing_target"),
            DependencyErrorType::InvalidName => owned("invalid_name"),
            DependencyErrorType::InvalidArgument => owned("invalid_argument"),
            DependencyErrorType::InvalidCondition => owned("invalid_condition"),
            DependencyErrorType::InvalidStructure => owned("invalid_structure"),
        }
    }
}

impl DependencyValidationResult {
    /// A result with nothing found.
    pub fn new() -> (r: Self)
        ensures
            r.circular_dependencies@.len() == 0,
            r.missing_dependencies@.len() == 0,
            r.invalid_dependencies@.len() == 0,
    {
        DependencyValidationResult {
            circular_dependencies: Vec::new(),
            missing_dependencies: Vec::new(),
            invalid_dependencies: Vec::new(),
        }
    }

    /// Whether anything was found.
    pub fn has_errors(&self) -> (b: bool)
        ensures
            b == (self.circular_dependencies@.len() > 0 || self.missing_dependencies@.len() > 0
                || self.invalid_dependencies@.len() > 0),
    {
        self.circular_dependencies.len() > 0 || self.missing_dependencies.len() > 0
            || self.invalid_dependencies.len() > 0
    }

    /// Number of problems found.
    pub fn error_count(&self) -> (n: usize)
        requires
            self.circular_dependencies@.len() + self.missing_dependencies@.len()
                + self.invalid_dependencies@.len() <= usize::MAX,
        ensures
            n == self.circular_dependencies@.len() + self.missing_dependencies@.len()
                + self.invalid_dependencies@.len(),
    {
        self.circular_dependencies.len() + self.missing_dependencies.len() + self.invalid_dependencies.len()
    }
}

// ---------------------------------------------------------------------------
// The dependency graph
// ---------------------------------------------------------------------------

/// Names of the recipes.
pub open spec fn recipe_names(recipes: Seq<RecipeInfo>) -> Seq<Seq<char>> {
    recipes.map_values(|r: RecipeInfo| r.name@)
}

/// Line numbers at most three apart, compared as 32-bit integers.
pub open spec fn near(a: usize, b: usize) -> bool {
    -3 <= a - b <= 3
}

/// Line numbers that fit a 32-bit signed integer.
pub open spec fn lines_fit(recipes: Seq<RecipeInfo>, deps: Seq<DependencyInfo>) -> bool {
    &&& forall|i: int| 0 <= i < recipes.len() ==> #[trigger] recipes[i].line_number <= i32::MAX
    &&& forall|i: int| 0 <= i < deps.len() ==> (#[trigger] deps[i].position matches Some((l, _)) ==> l <= i32::MAX)
}

/// Index of the first recipe from `i` on within three lines of `line`.
pub open spec fn owner_from(recipes: Seq<RecipeInfo>, line: usize, i: nat) -> Option<nat>
    decreases recipes.len() - i,
{
    if i >= recipes.len() {
        None
    } else if near(recipes[i as int].line_number, line) {
        Some(i)
    } else {
        owner_from(recipes, line, i + 1)
    }
}

/// Name of the recipe a dependency belongs to: the first one within three
/// lines of the dependency.
pub open spec fn owner_name(recipes: Seq<RecipeInfo>, d: DependencyInfo) -> Option<Seq<char>> {
    match d.position {
        Some((line, _)) => match owner_from(recipes, line, 0) {
            Some(k) => Some(recipes[k as int].name@),
            None => None,
        },
        None => None,
    }
}

/// Names of the first `n` dependencies that belong to recipe `k`, in order.
pub open spec fn edges_upto(recipes: Seq<RecipeInfo>, deps: Seq<DependencyInfo>, n: nat, k: Seq<char>) -> Seq<
    Seq<char>,
>
    decreases n,
{
    if n == 0 {
        seq![]
    } else {
        let rest = edges_upto(recipes, deps, (n - 1) as nat, k);
        if owner_name(recipes, deps[n - 1]) == Some(k) {
            rest.push(deps[n - 1].name@)
        } else {
            rest
        }
    }
}

/// Recipe `b` is a dependency of recipe `a`.
pub open spec fn dep_edge(recipes: Seq<RecipeInfo>, deps: Seq<DependencyInfo>, a: Seq<char>, b: Seq<char>) -> bool {
    edges_upto(recipes, deps, deps.len(), a).contains(b)
}

/// `g` maps each recipe name to the names of its dependencies, in order.
pub open spec fn is_dependency_graph(
    g: Seq<(Seq<char>, Vec<String>)>,
    recipes: Seq<RecipeInfo>,
    deps: Seq<DependencyInfo>,
) -> bool {
    &&& distinct_keys(g)
    &&& forall|k: Seq<char>| has_key(g, k) <==> recipe_names(recipes).contains(k)
    &&& forall|i: int| 0 <= i < g.len() ==> strs(#[trigger] g[i].1@) == edges_upto(recipes, deps, deps.len(), g[i].0)
}

/// `b` is listed under `a` in `g`.
pub open spec fn edge(g: Seq<(Seq<char>, Vec<String>)>, a: Seq<char>, b: Seq<char>) -> bool {
    match lookup(g, a) {
        Some(vs) => strs(vs@).contains(b),
        None => false,
    }
}

/// Each name is followed by one it depends on.
pub open spec fn is_path(g: Seq<(Seq<char>, Vec<String>)>, p: Seq<Seq<char>>) -> bool {
    forall|j: int| 0 <= j < p.len() - 1 ==> #[trigger] edge(g, p[j], p[j + 1])
}

/// A path of at least one step that ends where it starts.
pub open spec fn is_cycle(g: Seq<(Seq<char>, Vec<String>)>, c: Seq<Seq<char>>) -> bool {
    c.len() >= 2 && c[0] == c[c.len() - 1] && is_path(g, c)
}

/// No name occurs twice in `s`.
pub open spec fn no_repeat(s: Seq<Seq<char>>) -> bool {
    forall|i: int, j: int| 0 <= i < j < s.len() ==> #[trigger] s[i] != #[trigger] s[j]
}

/// No recipe occurs twice in the cycle `c` but at its two ends.
pub open spec fn is_simple(c: Seq<Seq<char>>) -> bool {
    no_repeat(c.drop_last())
}

/// The same, over the recipes and dependencies themselves.
pub open spec fn is_dependency_cycle(recipes: Seq<RecipeInfo>, deps: Seq<DependencyInfo>, c: Seq<Seq<char>>) -> bool {
    &&& c.len() >= 2
    &&& c[0] == c[c.len() - 1]
    &&& forall|j: int| 0 <= j < c.len() - 1 ==> #[trigger] dep_edge(recipes, deps, c[j], c[j + 1])
}

/// Every name that occurs in `g`, as key or as dependency.
pub open spec fn names_in(g: Seq<(Seq<char>, Vec<String>)>) -> Seq<Seq<char>>
    decreases g.len(),
{
    if g.len() == 0 {
        seq![]
    } else {
        names_in(g.drop_last()) + seq![g.last().0] + strs(g.last().1@)
    }
}

/// Keys and listed dependencies of `g` are among its names.
proof fn lemma_names_in(g: Seq<(Seq<char>, Vec<String>)>)
    ensures
        forall|i: int| 0 <= i < g.len() ==> names_in(g).contains(#[trigger] g[i].0),
        forall|i: int, b: Seq<char>|
            0 <= i < g.len() && #[trigger] strs(g[i].1@).contains(b) ==> names_in(g).contains(b),
    decreases g.len(),
{
    if g.len() > 0 {
        let h = g.drop_last();
        lemma_names_in(h);
        let n = names_in(g);
        assert(n == names_in(h) + seq![g.last().0] + strs(g.last().1@));
        assert forall|i: int| 0 <= i < g.len() implies n.contains(#[trigger] g[i].0) by {
            if i < h.len() {
                assert(h[i] == g[i]);
                assert(names_in(h).contains(h[i].0));
                let k = choose|k: int| 0 <= k < names_in(h).len() && names_in(h)[k] == g[i].0;
                assert(n[k] == g[i].0);
            } else {
                assert(n[names_in(h).len() as int] == g[i].0);
            }
        }
        assert forall|i: int, b: Seq<char>| 0 <= i < g.len() && #[trigger] strs(g[i].1@).contains(b) implies n.contains(
            b,
        ) by {
            if i < h.len() {
                assert(h[i] == g[i]);
                assert(strs(h[i].1@).contains(b));
                assert(names_in(h).contains(b));
                let m = choose|m: int| 0 <= m < names_in(h).len() && names_in(h)[m] == b;
                assert(n[m] == b);
            } else {
                let m = choose|m: int| 0 <= m < strs(g[i].1@).len() && strs(g[i].1@)[m] == b;
                assert(n[names_in(h).len() + 1 + m] == b);
            }
        }
    }
}

/// A name with an edge out of it, or into it, is among the names of `g`.
proof fn lemma_edge_names(g: Seq<(Seq<char>, Vec<String>)>, a: Seq<char>, b: Seq<char>)
    requires
        edge(g, a, b),
    ensures
        names_in(g).to_set().contains(a),
        names_in(g).to_set().contains(b),
{
    lemma_key_index_from(g, a, 0);
    lemma_names_in(g);
    let i = key_index(g, a)->0 as int;
    assert(g[i].0 == a);
    assert(names_in(g).contains(g[i].0));
    assert(names_in(g).contains(b));
}

/// Edges of a graph built from recipes and dependencies are dependencies.
proof fn lemma_graph_edges(
    g: Seq<(Seq<char>, Vec<String>)>,
    recipes: Seq<RecipeInfo>,
    deps: Seq<DependencyInfo>,
    a: Seq<char>,
    b: Seq<char>,
)
    requires
        is_dependency_graph(g, recipes, deps),
    ensures
        edge(g, a, b) ==> dep_edge(recipes, deps, a, b),
{
    lemma_key_index_from(g, a, 0);
    if edge(g, a, b) {
        let i = key_index(g, a)->0 as int;
        assert(strs(g[i].1@) == edges_upto(recipes, deps, deps.len(), g[i].0));
    }
}

/// A recipe found from index `i` on lies within the recipes.
proof fn lemma_owner_from(recipes: Seq<RecipeInfo>, line: usize, i: nat)
    ensures
        owner_from(recipes, line, i) matches Some(k) ==> i <= k < recipes.len(),
    decreases recipes.len() - i,
{
    if i < recipes.len() && !near(recipes[i as int].line_number, line) {
        lemma_owner_from(recipes, line, i + 1);
    }
}

/// A name with dependencies is the name of a recipe.
proof fn lemma_edges_owner(recipes: Seq<RecipeInfo>, deps: Seq<DependencyInfo>, n: nat, k: Seq<char>)
    requires
        n <= deps.len(),
        edges_upto(recipes, deps, n, k).len() > 0,
    ensures
        recipe_names(recipes).contains(k),
    decreases n,
{
    let rest = edges_upto(recipes, deps, (n - 1) as nat, k);
    if owner_name(recipes, deps[n - 1]) == Some(k) {
        match deps[n - 1].position {
            Some((line, _)) => {
                lemma_owner_from(recipes, line, 0);
                let j = owner_from(recipes, line, 0)->0 as int;
                assert(recipe_names(recipes)[j] == k);
            },
            None => {},
        }
    } else {
        lemma_edges_owner(recipes, deps, (n - 1) as nat, k);
    }
}

/// Dependencies between recipes are edges of the graph built from them.
proof fn lemma_dep_edge_in_graph(
    g: Seq<(Seq<char>, Vec<String>)>,
    recipes: Seq<RecipeInfo>,
    deps: Seq<DependencyInfo>,
    a: Seq<char>,
    b: Seq<char>,
)
    requires
        is_dependency_graph(g, recipes, deps),
        dep_edge(recipes, deps, a, b),
    ensures
        edge(g, a, b),
{
    lemma_edges_owner(recipes, deps, deps.len(), a);
    assert(has_key(g, a));
    lemma_key_index_from(g, a, 0);
    let i = key_index(g, a)->0 as int;
    assert(strs(g[i].1@) == edges_upto(recipes, deps, deps.len(), g[i].0));
}

/// The names visited and no longer on the search path.
pub open spec fn finished(visited: Seq<String>, path: Seq<String>) -> Set<Seq<char>> {
    strs(visited).to_set().difference(strs(path).to_set())
}

/// Every dependency of a name in `f` is in `f`.
pub open spec fn closed_under(g: Seq<(Seq<char>, Vec<String>)>, f: Set<Seq<char>>) -> bool {
    forall|a: Seq<char>, b: Seq<char>| #[trigger] edge(g, a, b) && f.contains(a) ==> f.contains(b)
}

/// No cycle of `g` starts at a name of `f`.
pub open spec fn no_cycle_from(g: Seq<(Seq<char>, Vec<String>)>, f: Set<Seq<char>>) -> bool {
    forall|c: Seq<Seq<char>>| #[trigger] is_cycle(g, c) ==> !f.contains(c[0])
}

/// A path that starts in a set closed under dependencies stays in it.
proof fn lemma_path_stays(g: Seq<(Seq<char>, Vec<String>)>, f: Set<Seq<char>>, p: Seq<Seq<char>>, k: int)
    requires
        closed_under(g, f),
        is_path(g, p),
        p.len() > 0,
        f.contains(p[0]),
        0 <= k < p.len(),
    ensures
        f.contains(p[k]),
    decreases k,
{
    if k > 0 {
        lemma_path_stays(g, f, p, k - 1);
        assert(edge(g, p[k - 1], p[(k - 1) + 1]));
    }
}

/// Adding a name whose dependencies are all in a closed set free of cycles
/// keeps the set closed and free of cycles.
proof fn lemma_finish(g: Seq<(Seq<char>, Vec<String>)>, f: Set<Seq<char>>, u: Seq<char>)
    requires
        closed_under(g, f),
        no_cycle_from(g, f),
        !f.contains(u),
        forall|b: Seq<char>| #[trigger] edge(g, u, b) ==> f.contains(b),
    ensures
        closed_under(g, f.insert(u)),
        no_cycle_from(g, f.insert(u)),
{
    assert forall|a: Seq<char>, b: Seq<char>| #[trigger] edge(g, a, b) && f.insert(u).contains(a) implies f.insert(
        u,
    ).contains(b) by {
        if a != u {
            assert(f.contains(a));
        }
    }
    assert forall|c: Seq<Seq<char>>| #[trigger] is_cycle(g, c) implies !f.insert(u).contains(c[0]) by {
        if c[0] == u {
            assert(edge(g, c[0], c[0int + 1]));
            let rest = c.subrange(1, c.len() as int);
            assert forall|j: int| 0 <= j < rest.len() - 1 implies #[trigger] edge(g, rest[j], rest[j + 1]) by {
                assert(edge(g, c[j + 1], c[(j + 1) + 1]));
            }
            lemma_path_stays(g, f, rest, rest.len() - 1);
            assert(rest[rest.len() - 1] == c[c.len() - 1]);
        }
    }
}

/// Every recipe of `c` is on `path`, or was reached after `v_old` and is in
/// `v_new`.
pub open spec fn on_path_or_new(c: Seq<Seq<char>>, path: Seq<Seq<char>>, v_old: Set<Seq<char>>, v_new: Set<Seq<char>>) -> bool {
    forall|m: int| 0 <= m < c.len() ==> path.contains(#[trigger] c[m]) || (v_new.contains(c[m]) && !v_old.contains(c[m]))
}

/// No recipe lies on two of the cycles.
pub open spec fn cycles_disjoint(cs: Seq<Seq<Seq<char>>>) -> bool {
    forall|i: int, j: int, m: int, n: int|
        0 <= i < j < cs.len() && 0 <= m < cs[i].len() && 0 <= n < cs[j].len() ==> #[trigger] cs[i][m] != #[trigger] cs[j][n]
}

/// The recipes of cycles, as text.
pub open spec fn cycle_texts(cs: Seq<Vec<String>>) -> Seq<Seq<Seq<char>>> {
    cs.map_values(|c: Vec<String>| strs(c@))
}

/// When every dependency cycle passes through one recipe, reported cycles
/// that are cycles and share no recipe number at most one; with the
/// completeness of `validate_all_dependencies`, exactly one is reported
/// when there is any cycle.
pub proof fn lemma_cycles_through_one_recipe(
    recipes: Seq<RecipeInfo>,
    deps: Seq<DependencyInfo>,
    cs: Seq<Seq<Seq<char>>>,
    x: Seq<char>,
)
    requires
        forall|i: int| 0 <= i < cs.len() ==> is_dependency_cycle(recipes, deps, #[trigger] cs[i]),
        cycles_disjoint(cs),
        forall|c: Seq<Seq<char>>| is_dependency_cycle(recipes, deps, c) ==> c.contains(x),
    ensures
        cs.len() <= 1,
{
    if cs.len() >= 2 {
        assert(is_dependency_cycle(recipes, deps, cs[0]));
        assert(is_dependency_cycle(recipes, deps, cs[1]));
        assert(cs[0].contains(x));
        assert(cs[1].contains(x));
        let m = choose|m: int| 0 <= m < cs[0].len() && cs[0][m] == x;
        let n = choose|n: int| 0 <= n < cs[1].len() && cs[1][n] == x;
        assert(cs[0][m] == cs[1][n]);
        assert(0 <= 0int < 1int < cs.len() && 0 <= m < cs[0].len() && 0 <= n < cs[1].len());
    }
}

impl DependencyValidator {
    /// Finds cycles, dependencies on missing recipes and malformed
    /// dependencies. A dependency belongs to the first recipe within three
    /// lines of it. Every reported cycle is a cycle in which no recipe
    /// occurs twice but at its two ends, none is reported only when there is
    /// none, and no recipe lies on two reported cycles.
    pub fn validate_all_dependencies(recipes: &[RecipeInfo], dependencies: &[DependencyInfo]) -> (r:
        DependencyValidationResult)
        requires
            lines_fit(recipes@, dependencies@),
        ensures
            forall|i: int|
                0 <= i < r.circular_dependencies@.len() ==> is_dependency_cycle(
                    recipes@,
                    dependencies@,
                    strs(#[trigger] r.circular_dependencies@[i]@),
                ),
            forall|i: int| 0 <= i < r.circular_dependencies@.len() ==> is_simple(strs(#[trigger] r.circular_dependencies@[i]@)),
            r.circular_dependencies@.len() == 0 ==> forall|c: Seq<Seq<char>>|
                !is_dependency_cycle(recipes@, dependencies@, c),
            cycles_disjoint(cycle_texts(r.circular_dependencies@)),
            strs(r.missing_dependencies@) == spec_missing(recipes@, dependencies@, dependencies@.len() as nat),
            r.invalid_dependencies@.map_values(|e: DependencyValidationError| error_view(e)) == spec_invalid(
                dependencies@,
                dependencies@.len() as nat,
            ),
    {
        let mut result = DependencyValidationResult::new();
        let graph = Self::build_dependency_graph(recipes, dependencies);
        let cycles = Self::detect_circular_dependencies(&graph);
        proof {
            assert forall|i: int| 0 <= i < cycles@.len() implies is_dependency_cycle(
                recipes@,
                dependencies@,
                strs(#[trigger] cycles@[i]@),
            ) by {
                let c = strs(cycles@[i]@);
                assert forall|j: int| 0 <= j < c.len() - 1 implies #[trigger] dep_edge(
                    recipes@,
                    dependencies@,
                    c[j],
                    c[j + 1],
                ) by {
                    assert(edge(graph@, c[j], c[j + 1]));
                    lemma_graph_edges(graph@, recipes@, dependencies@, c[j], c[j + 1]);
                }
            }
        }
        proof {
            if cycles@.len() == 0 {
                assert forall|c: Seq<Seq<char>>| !is_dependency_cycle(recipes@, dependencies@, c) by {
                    if is_dependency_cycle(recipes@, dependencies@, c) {
                        assert forall|j: int| 0 <= j < c.len() - 1 implies #[trigger] edge(graph@, c[j], c[j + 1]) by {
                            assert(dep_edge(recipes@, dependencies@, c[j], c[j + 1]));
                            lemma_dep_edge_in_graph(graph@, recipes@, dependencies@, c[j], c[j + 1]);
                        }
                        assert(is_cycle(graph@, c));
                    }
                }
            }
        }
        result.circular_dependencies = cycles;
        result.missing_dependencies = Self::find_missing_dependencies(recipes, dependencies);
        let mut i: usize = 0;
        while i < dependencies.len()
            invariant
                i <= dependencies@.len(),
                result.invalid_dependencies@.map_values(|e: DependencyValidationError| error_view(e))
                    == spec_invalid(dependencies@, i as nat),
                forall|k: int|
                    0 <= k < result.circular_dependencies@.len() ==> is_dependency_cycle(
                        recipes@,
                        dependencies@,
                        strs(#[trigger] result.circular_dependencies@[k]@),
                    ),
                strs(result.missing_dependencies@) == spec_missing(
                    recipes@,
                    dependencies@,
                    dependencies@.len() as nat,
                ),
                forall|k: int| 0 <= k < result.circular_dependencies@.len() ==> is_simple(strs(#[trigger] result.circular_dependencies@[k]@)),
                result.circular_dependencies@.len() == 0 ==> forall|c: Seq<Seq<char>>|
                    !is_dependency_cycle(recipes@, dependencies@, c),
                cycles_disjoint(cycle_texts(result.circular_dependencies@)),
            decreases dependencies.len() - i,
        {
            let d = &dependencies[i];
            let ghost before = result.invalid_dependencies@.map_values(
                |e: DependencyValidationError| error_view(e),
            );
            if !d.is_valid() {
                let e = DependencyValidationError {
                    dependency_name: d.name.clone(),
                    error_type: DependencyErrorType::InvalidStructure,
                    message: owned("Dependency has invalid structure"),
                    position: d.position,
                };
                result.invalid_dependencies.push(e);
            }
            assert(result.invalid_dependencies@.map_values(|e: DependencyValidationError| error_view(e))
                =~= spec_invalid(dependencies@, (i + 1) as nat));
            i = i + 1;
        }
        result
    }

    /// Each recipe name mapped to the names of the dependencies that
    /// belong to it.
    fn build_dependency_graph(recipes: &[RecipeInfo], dependencies: &[DependencyInfo]) -> (g: StrMap<Vec<String>>)
        requires
            lines_fit(recipes@, dependencies@),
        ensures
            is_dependency_graph(g@, recipes@, dependencies@),
    {
        let mut graph: StrMap<Vec<String>> = StrMap::new();
        let mut i: usize = 0;
        while i < recipes.len()
            invariant
                i <= recipes@.len(),
                distinct_keys(graph@),
                forall|k: Seq<char>| has_key(graph@, k) <==> recipe_names(recipes@).take(i as int).contains(k),
                forall|j: int| 0 <= j < graph@.len() ==> (#[trigger] graph@[j].1)@.len() == 0,
            decreases recipes.len() - i,
        {
            let ghost g0 = graph@;
            let ghost name = recipes@[i as int].name@;
            proof {
                lemma_key_index_from(g0, name, 0);
            }
            graph.insert(recipes[i].name.clone(), Vec::new());
            proof {
                assert(recipe_names(recipes@).take(i + 1) =~= recipe_names(recipes@).take(i as int).push(name));
                assert forall|k: Seq<char>| has_key(graph@, k) <==> recipe_names(recipes@).take(
                    i + 1,
                ).contains(k) by {
                    lemma_key_index_from(g0, k, 0);
                    lemma_key_index_from(graph@, k, 0);
                    if k == name {
                        assert(recipe_names(recipes@).take(i + 1)[i as int] == k);
                        match key_index(g0, name) {
                            Some(x) => {
                                assert(graph@[x as int].0 == k);
                            },
                            None => {
                                assert(graph@[g0.len() as int].0 == k);
                            },
                        }
                    } else {
                        if has_key(g0, k) {
                            let x = key_index(g0, k)->0 as int;
                            assert(graph@[x].0 == k);
                        }
                        if has_key(graph@, k) {
                            let x = key_index(graph@, k)->0 as int;
                            assert(x < g0.len());
                            assert(g0[x].0 == k);
                        }
                        if recipe_names(recipes@).take(i + 1).contains(k) {
                            let x = choose|x: int|
                                0 <= x < i + 1 && #[trigger] recipe_names(recipes@).take(i + 1)[x] == k;
                            assert(recipe_names(recipes@).take(i as int)[x] == k);
                        }
                    }
                }
            }
            i = i + 1;
        }
        assert(recipe_names(recipes@).take(recipes@.len() as int) =~= recipe_names(recipes@));
        assert forall|x: int| 0 <= x < graph@.len() implies strs(#[trigger] graph@[x].1@) == edges_upto(
            recipes@,
            dependencies@,
            0,
            graph@[x].0,
        ) by {
            assert(strs(graph@[x].1@) =~= Seq::<Seq<char>>::empty());
        }
        let mut j: usize = 0;
        while j < dependencies.len()
            invariant
                j <= dependencies@.len(),
                lines_fit(recipes@, dependencies@),
                distinct_keys(graph@),
                forall|k: Seq<char>| has_key(graph@, k) <==> recipe_names(recipes@).contains(k),
                forall|x: int|
                    0 <= x < graph@.len() ==> strs(#[trigger] graph@[x].1@) == edges_upto(
                        recipes@,
                        dependencies@,
                        j as nat,
                        graph@[x].0,
                    ),
            decreases dependencies.len() - j,
        {
            let d = &dependencies[j];
            let ghost g0 = graph@;
            let owner = Self::owning_recipe(recipes, d);
            match owner {
                Some(k) => {
                    let name = recipes[k].name.as_str();
                    assert(recipe_names(recipes@)[k as int] == name@);
                    proof {
                        lemma_key_index_from(graph@, name@, 0);
                    }
                    match graph.index_of(name) {
                        Some(x) => {
                            let mut targets = graph.replace_value_at(x, Vec::new());
                            targets.push(d.name.clone());
                            graph.replace_value_at(x, targets);
                            proof {
                                assert forall|y: int| 0 <= y < graph@.len() implies strs(
                                    #[trigger] graph@[y].1@,
                                ) == edges_upto(recipes@, dependencies@, (j + 1) as nat, graph@[y].0) by {
                                    if y == x {
                                        assert(strs(graph@[y].1@) =~= strs(g0[y].1@).push(d.name@));
                                    } else {
                                        assert(graph@[y] == g0[y]);
                                        assert(g0[y].0 != name@);
                                    }
                                }
                                assert forall|kk: Seq<char>| has_key(graph@, kk) <==> recipe_names(recipes@).contains(kk) by {
                                    assert(has_key(g0, kk) <==> recipe_names(recipes@).contains(kk));
                                    lemma_key_index_from(g0, kk, 0);
                                    lemma_key_index_from(graph@, kk, 0);
                                    if has_key(g0, kk) {
                                        let z = key_index(g0, kk)->0 as int;
                                        assert(graph@[z].0 == kk);
                                    }
                                    if has_key(graph@, kk) {
                                        let z = key_index(graph@, kk)->0 as int;
                                        assert(g0[z].0 == kk);
                                    }
                                }
                            }
                        },
                        None => {
                            assert(recipe_names(recipes@).contains(name@));
                        },
                    }
                },
                None => {
                    proof {
                        assert forall|y: int| 0 <= y < graph@.len() implies strs(#[trigger] graph@[y].1@)
                            == edges_upto(recipes@, dependencies@, (j + 1) as nat, graph@[y].0) by {}
                    }
                },
            }
            j = j + 1;
        }
        graph
    }

    /// Index of the recipe that dependency `d` belongs to.
    fn owning_recipe(recipes: &[RecipeInfo], d: &DependencyInfo) -> (r: Option<usize>)
        requires
            forall|i: int| 0 <= i < recipes@.len() ==> #[trigger] recipes@[i].line_number <= i32::MAX,
            d.position matches Some((l, _)) ==> l <= i32::MAX,
        ensures
            r matches Some(k) ==> k < recipes@.len() && owner_name(recipes@, *d) == Some(recipes@[k as int].name@),
            r is None ==> owner_name(recipes@, *d) is None,
    {
        match d.position {
            Some((line, col)) => {
                let mut i: usize = 0;
                while i < recipes.len()
                    invariant
                        i <= recipes@.len(),
                        d.position == Some((line, col)),
                        owner_from(recipes@, line, 0) == owner_from(recipes@, line, i as nat),
                    decreases recipes.len() - i,
                {
                    let rl = recipes[i].line_number;
                    let close = if rl >= line {
                        rl - line <= 3
                    } else {
                        line - rl <= 3
                    };
                    if close {
                        return Some(i);
                    }
                    i = i + 1;
                }
                None
            },
            None => None,
        }
    }

    /// Cycles among the recipes of `graph`, at most one found from each
    /// recipe not reached before.
    fn detect_circular_dependencies(graph: &StrMap<Vec<String>>) -> (r: Vec<Vec<String>>)
        ensures
            forall|i: int| 0 <= i < r@.len() ==> is_cycle(graph@, strs(#[trigger] r@[i]@)),
            forall|i: int| 0 <= i < r@.len() ==> is_simple(strs(#[trigger] r@[i]@)),
            cycles_disjoint(cycle_texts(r@)),
            r@.len() == 0 ==> forall|c: Seq<Seq<char>>| !is_cycle(graph@, c),
    {
        let mut cycles: Vec<Vec<String>> = Vec::new();
        let mut visited: Vec<String> = Vec::new();
        let mut i: usize = 0;
        proof {
            lemma_names_in(graph@);
        }
        while i < graph.len()
            invariant
                i <= graph@.len(),
                strs(visited@).to_set().subset_of(names_in(graph@).to_set()),
                forall|k: int| 0 <= k < cycles@.len() ==> is_cycle(graph@, strs(#[trigger] cycles@[k]@)),
                forall|k: int| 0 <= k < cycles@.len() ==> is_simple(strs(#[trigger] cycles@[k]@)),
                cycles_disjoint(cycle_texts(cycles@)),
                forall|k: int, m: int|
                    0 <= k < cycles@.len() && 0 <= m < cycle_texts(cycles@)[k].len() ==> strs(visited@).to_set().contains(
                        #[trigger] cycle_texts(cycles@)[k][m],
                    ),
                cycles@.len() == 0 ==> {
                    &&& closed_under(graph@, strs(visited@).to_set())
                    &&& no_cycle_from(graph@, strs(visited@).to_set())
                    &&& forall|k: int| 0 <= k < i ==> strs(visited@).to_set().contains(#[trigger] graph@[k].0)
                },
            decreases graph@.len() - i,
        {
            let key = graph.key_at(i);
            let ghost v_before = strs(visited@).to_set();
            if !strings_contain(visited.as_slice(), key.as_str()) {
                let mut path: Vec<String> = Vec::new();
                proof {
                    lemma_names_in(graph@);
                    assert(names_in(graph@).contains(graph@[i as int].0));
                    assert(strs(path@).to_set() =~= Set::<Seq<char>>::empty());
                    assert(finished(visited@, path@) =~= strs(visited@).to_set());
                }
                let ghost old_cycles = cycle_texts(cycles@);
                match Self::dfs_detect_cycle(graph, key.as_str(), &mut visited, &mut path) {
                    Some(c) => {
                        let ghost cv = strs(c@);
                        cycles.push(c);
                        proof {
                            let cs = cycle_texts(cycles@);
                            assert(cs =~= old_cycles.push(cv));
                            assert(strs(Seq::<String>::empty()) =~= Seq::<Seq<char>>::empty());
                            assert forall|i: int, j: int, m: int, n: int|
                                0 <= i < j < cs.len() && 0 <= m < cs[i].len() && 0 <= n < cs[j].len() implies #[trigger] cs[i][m]
                                    != #[trigger] cs[j][n] by {
                                if j == cs.len() - 1 {
                                    assert(v_before.contains(old_cycles[i][m]));
                                    assert(cs[j][n] == cv[n]);
                                    assert(!Seq::<Seq<char>>::empty().contains(cv[n]));
                                } else {
                                    assert(cs[i][m] == old_cycles[i][m] && cs[j][n] == old_cycles[j][n]);
                                }
                            }
                            assert forall|k: int, m: int|
                                0 <= k < cs.len() && 0 <= m < cs[k].len() implies strs(visited@).to_set().contains(
                                    #[trigger] cs[k][m],
                                ) by {
                                if k == cs.len() - 1 {
                                    assert(cs[k][m] == cv[m]);
                                    assert(!Seq::<Seq<char>>::empty().contains(cv[m]));
                                } else {
                                    assert(cs[k][m] == old_cycles[k][m]);
                                    assert(v_before.contains(old_cycles[k][m]));
                                }
                            }
                        }
                    },
                    None => {
                        proof {
                            assert(strs(path@).to_set() =~= Set::<Seq<char>>::empty());
                            assert(finished(visited@, path@) =~= strs(visited@).to_set());
                        }
                    },
                }
            } else {
                assert(strs(visited@) =~= visited@.map_values(|x: String| x@));
            }
            proof {
                if cycles@.len() == 0 {
                    assert forall|k: int| 0 <= k < i + 1 implies strs(visited@).to_set().contains(
                        #[trigger] graph@[k].0,
                    ) by {
                        if k < i {
                            assert(v_before.contains(graph@[k].0));
                        }
                    }
                }
            }
            i = i + 1;
        }
        proof {
            if cycles@.len() == 0 {
                assert forall|c: Seq<Seq<char>>| !is_cycle(graph@, c) by {
                    if is_cycle(graph@, c) {
                        assert(edge(graph@, c[0], c[0int + 1]));
                        lemma_key_index_from(graph@, c[0], 0);
                        let k = key_index(graph@, c[0])->0 as int;
                        assert(graph@[k].0 == c[0]);
                        assert(strs(visited@).to_set().contains(graph@[k].0));
                    }
                }
            }
        }
        cycles
    }

    /// Depth-first search from `node` along `path`; the first cycle met.
    fn dfs_detect_cycle(
        graph: &StrMap<Vec<String>>,
        node: &str,
        visited: &mut Vec<String>,
        path: &mut Vec<String>,
    ) -> (r: Option<Vec<String>>)
        requires
            names_in(graph@).to_set().contains(node@),
            strs(old(visited)@).to_set().subset_of(names_in(graph@).to_set()),
            !strs(old(visited)@).contains(node@),
            is_path(graph@, strs(old(path)@)),
            old(path)@.len() > 0 ==> edge(graph@, old(path)@.last()@, node@),
            strs(old(path)@).to_set().subset_of(strs(old(visited)@).to_set()),
            no_repeat(strs(old(path)@)),
        ensures
            strs(old(visited)@).to_set().subset_of(strs(final(visited)@).to_set()),
            strs(final(visited)@).to_set().subset_of(names_in(graph@).to_set()),
            r is None ==> final(path)@ == old(path)@,
            r matches Some(c) ==> is_cycle(graph@, strs(c@)),
            r matches Some(c) ==> is_simple(strs(c@)),
            r matches Some(c) ==> on_path_or_new(
                strs(c@),
                strs(old(path)@),
                strs(old(visited)@).to_set(),
                strs(final(visited)@).to_set(),
            ),
            r is None && closed_under(graph@, finished(old(visited)@, old(path)@)) && no_cycle_from(
                graph@,
                finished(old(visited)@, old(path)@),
            ) ==> {
                &&& closed_under(graph@, finished(final(visited)@, old(path)@))
                &&& no_cycle_from(graph@, finished(final(visited)@, old(path)@))
                &&& finished(final(visited)@, old(path)@).contains(node@)
            },
        decreases names_in(graph@).to_set().len() - strs(old(visited)@).to_set().len(),
    {
        let ghost u = names_in(graph@).to_set();
        let ghost v0 = strs(visited@).to_set();
        let ghost f0 = finished(old(visited)@, old(path)@);
        let ghost good = closed_under(graph@, f0) && no_cycle_from(graph@, f0);
        visited.push(owned(node));
        path.push(owned(node));
        proof {
            assert(strs(visited@) =~= strs(old(visited)@).push(node@));
            lemma_push_to_set(strs(old(visited)@), node@);
            assert(strs(visited@).to_set() =~= v0.insert(node@));
            assert(strs(path@) =~= strs(old(path)@).push(node@));
            lemma_push_to_set(strs(old(path)@), node@);
            lemma_len_subset(v0.insert(node@), u);
            assert(finished(visited@, path@) =~= f0);
            assert forall|a: int, b: int| 0 <= a < b < strs(path@).len() implies #[trigger] strs(path@)[a] != #[trigger] strs(path@)[b] by {
                if b == strs(path@).len() - 1 {
                    assert(strs(old(path)@).to_set().contains(strs(old(path)@)[a]));
                } else {
                    assert(strs(path@)[a] == strs(old(path)@)[a]);
                    assert(strs(path@)[b] == strs(old(path)@)[b]);
                }
            }
        }
        let ghost p1 = path@;
        match graph.get(node) {
            Some(targets) => {
                let mut j: usize = 0;
                while j < targets.len()
                    invariant
                        j <= targets@.len(),
                        lookup(graph@, node@) == Some(*targets),
                        u == names_in(graph@).to_set(),
                        u.finite(),
                        v0 == strs(old(visited)@).to_set(),
                        !v0.contains(node@),
                        v0.insert(node@).subset_of(strs(visited@).to_set()),
                        strs(visited@).to_set().subset_of(u),
                        path@ == p1,
                        strs(p1) == strs(old(path)@).push(node@),
                        is_path(graph@, strs(p1)),
                        no_repeat(strs(p1)),
                        strs(p1).to_set().subset_of(strs(visited@).to_set()),
                        f0 == finished(old(visited)@, old(path)@),
                        good == (closed_under(graph@, f0) && no_cycle_from(graph@, f0)),
                        good ==> {
                            &&& closed_under(graph@, finished(visited@, p1))
                            &&& no_cycle_from(graph@, finished(visited@, p1))
                            &&& forall|m: int| 0 <= m < j ==> finished(visited@, p1).contains(#[trigger] strs(targets@)[m])
                        },
                    decreases targets.len() - j,
                {
                    let ghost fin_before = finished(visited@, p1);
                    let dep = targets[j].as_str();
                    assert(strs(targets@)[j as int] == dep@);
                    assert(edge(graph@, node@, dep@));
                    if !strings_contain(visited.as_slice(), dep) {
                        proof {
                            lemma_edge_names(graph@, node@, dep@);
                            lemma_len_subset(v0.insert(node@), strs(visited@).to_set());
                            lemma_len_subset(strs(visited@).to_set(), u);
                            assert(strs(path@).last() == node@);
                        }
                        let found = Self::dfs_detect_cycle(graph, dep, visited, path);
                        if found.is_some() {
                            return found;
                        }
                        proof {
                            if good {
                                assert forall|m: int| 0 <= m < j + 1 implies finished(visited@, p1).contains(
                                    #[trigger] strs(targets@)[m],
                                ) by {
                                    if m < j {
                                        assert(fin_before.contains(strs(targets@)[m]));
                                    }
                                }
                            }
                        }
                    } else {
                        match string_position(path, dep) {
                            Some(p) => {
                                let mut cycle: Vec<String> = Vec::new();
                                let mut k: usize = p;
                                while k < path.len()
                                    invariant
                                        p <= k <= path@.len(),
                                        path@ == p1,
                                        p1[p as int]@ == dep@,
                                        is_path(graph@, strs(p1)),
                                        no_repeat(strs(p1)),
                                        cycle@.len() == k - p,
                                        forall|m: int| 0 <= m < k - p ==> #[trigger] cycle@[m]@ == p1[p + m]@,
                                    decreases path.len() - k,
                                {
                                    cycle.push(path[k].clone());
                                    k = k + 1;
                                }
                                cycle.push(owned(dep));
                                proof {
                                    let c = strs(cycle@);
                                    let sp = strs(p1);
                                    assert forall|m: int| 0 <= m < c.len() - 1 implies c[m] == sp[p + m] by {
                                        assert(cycle@[m]@ == p1[p + m]@);
                                    }
                                    assert(c[c.len() - 1] == dep@);
                                    assert(c[0] == sp[p as int]);
                                    assert(sp.last() == node@);
                                    assert forall|m: int| 0 <= m < c.len() - 1 implies #[trigger] edge(
                                        graph@,
                                        c[m],
                                        c[m + 1],
                                    ) by {
                                        if m + 1 < c.len() - 1 {
                                            assert(c[m] == sp[p + m]);
                                            assert(c[m + 1] == sp[p + m + 1]);
                                            assert(edge(graph@, sp[p + m], sp[p + m + 1]));
                                        } else {
                                            assert(c[m] == sp[sp.len() - 1]);
                                        }
                                    }
                                    assert forall|a: int, b: int| 0 <= a < b < c.drop_last().len() implies #[trigger] c.drop_last()[a]
                                        != #[trigger] c.drop_last()[b] by {
                                        assert(c.drop_last()[a] == sp[p + a]);
                                        assert(c.drop_last()[b] == sp[p + b]);
                                    }
                                }
                                return Some(cycle);
                            },
                            None => {
                                proof {
                                    assert(strs(path@) =~= path@.map_values(|x: String| x@));
                                    assert(strs(visited@) =~= visited@.map_values(|x: String| x@));
                                    assert(finished(visited@, p1).contains(dep@));
                                }
                            },
                        }
                    }
                    j = j + 1;
                }
                proof {
                    if good {
                        assert forall|b: Seq<char>| #[trigger] edge(graph@, node@, b) implies finished(visited@, p1).contains(
                            b,
                        ) by {
                            let m = choose|m: int| 0 <= m < strs(targets@).len() && strs(targets@)[m] == b;
                            assert(finished(visited@, p1).contains(strs(targets@)[m]));
                        }
                    }
                }
            },
            None => {},
        }
        proof {
            if good {
                assert(!finished(visited@, p1).contains(node@)) by {
                    assert(strs(p1)[strs(p1).len() - 1] == node@);
                }
                lemma_finish(graph@, finished(visited@, p1), node@);
                assert(!strs(old(path)@).to_set().contains(node@));
                assert(finished(visited@, old(path)@) =~= finished(visited@, p1).insert(node@));
            }
        }
        path.pop();
        proof {
            assert(path@ =~= old(path)@);
        }
        None
    }

    /// Names of the dependencies on recipes that do not exist, in order.
    fn find_missing_dependencies(recipes: &[RecipeInfo], dependencies: &[DependencyInfo]) -> (r: Vec<String>)
        ensures
            strs(r@) == spec_missing(recipes@, dependencies@, dependencies@.len() as nat),
    {
        let mut names: Vec<String> = Vec::new();
        let mut i: usize = 0;
        while i < recipes.len()
            invariant
                i <= recipes@.len(),
                names@.len() == i,
                forall|j: int| 0 <= j < i ==> #[trigger] names@[j]@ == recipes@[j].name@,
            decreases recipes.len() - i,
        {
            names.push(recipes[i].name.clone());
            i = i + 1;
        }
        assert(strs(names@) =~= recipe_names(recipes@));
        let mut out: Vec<String> = Vec::new();
        let mut j: usize = 0;
        while j < dependencies.len()
            invariant
                j <= dependencies@.len(),
                strs(names@) == recipe_names(recipes@),
                strs(out@) == spec_missing(recipes@, dependencies@, j as nat),
            decreases dependencies.len() - j,
        {
            let d = &dependencies[j];
            if !strings_contain(names.as_slice(), d.name.as_str()) {
                out.push(d.name.clone());
                assert(strs(out@) =~= spec_missing(recipes@, dependencies@, (j + 1) as nat));
            }
            j = j + 1;
        }
        out
    }

    /// Problems with one dependency, given the recipes that exist.
    pub fn validate_dependency(dependency: &DependencyInfo, available_recipes: &[String]) -> (r: Vec<
        DependencyValidationError,
    >)
        ensures
            r@.map_values(|e: DependencyValidationError| error_view(e)) == spec_dependency_errors(
                *dependency,
                strs(available_recipes@),
            ),
    {
        let mut errors: Vec<DependencyValidationError> = Vec::new();
        let ghost d = *dependency;
        if dependency.name.as_str().is_empty() {
            errors.push(
                DependencyValidationError {
                    dependency_name: dependency.name.clone(),
                    error_type: DependencyErrorType::InvalidName,
                    message: owned("Dependency name cannot be empty"),
                    position: dependency.position,
                },
            );
        }
        if !strings_contain(available_recipes, dependency.name.as_str()) {
            let mut msg = owned("Recipe '");
            push_str(&mut msg, dependency.name.as_str());
            push_str(&mut msg, "' does not exist");
            errors.push(
                DependencyValidationError {
                    dependency_name: dependency.name.clone(),
                    error_type: DependencyErrorType::MissingTarget,
                    message: msg,
                    position: dependency.position,
                },
            );
        }
        let ghost head = errors@.map_values(|e: DependencyValidationError| error_view(e));
        assert(head =~= name_errors(d, strs(available_recipes@)));
        let mut i: usize = 0;
        while i < dependency.arguments.len()
            invariant
                i <= dependency.arguments@.len(),
                d == *dependency,
                errors@.map_values(|e: DependencyValidationError| error_view(e)) == head + argument_errors(
                    d,
                    i as nat,
                ),
            decreases dependency.arguments.len() - i,
        {
            let ghost before = errors@.map_values(|e: DependencyValidationError| error_view(e));
            if dependency.arguments[i].as_str().is_empty() {
                let mut msg = owned("Argument ");
                let n = usize_to_string(i + 1);
                push_str(&mut msg, n.as_str());
                push_str(&mut msg, " is empty");
                assert(msg@ == "Argument "@ + crate::text::decimal((i + 1) as nat) + " is empty"@);
                errors.push(
                    DependencyValidationError {
                        dependency_name: dependency.name.clone(),
                        error_type: DependencyErrorType::InvalidArgument,
                        message: msg,
                        position: dependency.position,
                    },
                );
            }
            assert(errors@.map_values(|e: DependencyValidationError| error_view(e)) =~= before
                + argument_errors(d, (i + 1) as nat).subrange(argument_errors(d, i as nat).len() as int, argument_errors(d, (i + 1) as nat).len() as int));
            assert(errors@.map_values(|e: DependencyValidationError| error_view(e)) =~= head
                + argument_errors(d, (i + 1) as nat));
            i = i + 1;
        }
        let ghost mid = errors@.map_values(|e: DependencyValidationError| error_view(e));
        match &dependency.condition {
            Some(c) => {
                if is_blank(c.as_str()) {
                    errors.push(
                        DependencyValidationError {
                            dependency_name: dependency.name.clone(),
                            error_type: DependencyErrorType::InvalidCondition,
                            message: owned("Condition cannot be empty"),
                            position: dependency.position,
                        },
                    );
                }
            },
            None => {},
        }
        assert(errors@.map_values(|e: DependencyValidationError| error_view(e)) =~= mid + condition_errors(d));
        errors
    }
}

/// Names of the first `n` dependencies whose recipe does not exist.
pub open spec fn spec_missing(recipes: Seq<RecipeInfo>, deps: Seq<DependencyInfo>, n: nat) -> Seq<Seq<char>>
    decreases n,
{
    if n == 0 {
        seq![]
    } else {
        let rest = spec_missing(recipes, deps, (n - 1) as nat);
        if recipe_names(recipes).contains(deps[n - 1].name@) {
            rest
        } else {
            rest.push(deps[n - 1].name@)
        }
    }
}

/// The missing dependencies are exactly the dependencies that name no
/// recipe: every dependency whose name is not a recipe's name is listed,
/// every listed name is the name of such a dependency, and they are listed
/// as often as such dependencies occur.
pub proof fn lemma_missing_are_unknown_targets(recipes: Seq<RecipeInfo>, deps: Seq<DependencyInfo>, n: nat)
    requires
        n <= deps.len(),
    ensures
        forall|i: int|
            0 <= i < n && !recipe_names(recipes).contains(#[trigger] deps[i].name@) ==> spec_missing(
                recipes,
                deps,
                n,
            ).contains(deps[i].name@),
        forall|k: int|
            0 <= k < spec_missing(recipes, deps, n).len() ==> !recipe_names(recipes).contains(
                #[trigger] spec_missing(recipes, deps, n)[k],
            ) && exists|i: int| 0 <= i < n && deps[i].name@ == spec_missing(recipes, deps, n)[k],
        spec_missing(recipes, deps, n).len() == n - (Seq::new(n, |i: int| deps[i].name@).filter(
            |x: Seq<char>| recipe_names(recipes).contains(x),
        ).len()),
    decreases n,
{
    let names = |x: Seq<char>| recipe_names(recipes).contains(x);
    if n == 0 {
        assert(Seq::new(0, |i: int| deps[i].name@) =~= Seq::<Seq<char>>::empty());
    } else {
        lemma_missing_are_unknown_targets(recipes, deps, (n - 1) as nat);
        let rest = spec_missing(recipes, deps, (n - 1) as nat);
        let m = spec_missing(recipes, deps, n);
        let all = Seq::new(n, |i: int| deps[i].name@);
        let init = Seq::new((n - 1) as nat, |i: int| deps[i].name@);
        assert(all.drop_last() =~= init);
        assert(all.last() == deps[n - 1].name@);
        init.lemma_filter_push(deps[n - 1].name@, names);
        assert(all =~= init.push(deps[n - 1].name@));
        assert forall|i: int|
            0 <= i < n && !recipe_names(recipes).contains(#[trigger] deps[i].name@) implies m.contains(deps[i].name@) by {
            if i < n - 1 {
                assert(rest.contains(deps[i].name@));
                let k = choose|k: int| 0 <= k < rest.len() && rest[k] == deps[i].name@;
                assert(m[k] == rest[k]);
            } else {
                assert(m[m.len() - 1] == deps[i].name@);
            }
        }
        assert forall|k: int| 0 <= k < m.len() implies !recipe_names(recipes).contains(#[trigger] m[k]) && exists|i: int|
            0 <= i < n && deps[i].name@ == m[k] by {
            if k < rest.len() {
                assert(m[k] == rest[k]);
                assert(!recipe_names(recipes).contains(rest[k]));
                let i = choose|i: int| 0 <= i < n - 1 && deps[i].name@ == rest[k];
                assert(0 <= i < n && deps[i].name@ == m[k]);
            } else {
                assert(m[k] == deps[n - 1].name@);
            }
        }
    }
}

/// Errors for the malformed ones among the first `n` dependencies.
pub open spec fn spec_invalid(deps: Seq<DependencyInfo>, n: nat) -> Seq<
    (Seq<char>, DependencyErrorType, Seq<char>, Option<(usize, usize)>),
>
    decreases n,
{
    if n == 0 {
        seq![]
    } else {
        let rest = spec_invalid(deps, (n - 1) as nat);
        let d = deps[n - 1];
        if d.name@.len() > 0 && (!d.is_conditional || d.condition is Some) {
            rest
        } else {
            rest.push(
                (d.name@, DependencyErrorType::InvalidStructure, "Dependency has invalid structure"@, d.position),
            )
        }
    }
}

/// Errors for an empty name and for a recipe that does not exist.
pub open spec fn name_errors(d: DependencyInfo, available: Seq<Seq<char>>) -> Seq<
    (Seq<char>, DependencyErrorType, Seq<char>, Option<(usize, usize)>),
> {
    let empty: Seq<(Seq<char>, DependencyErrorType, Seq<char>, Option<(usize, usize)>)> = if d.name@.len() == 0 {
        seq![(d.name@, DependencyErrorType::InvalidName, "Dependency name cannot be empty"@, d.position)]
    } else {
        seq![]
    };
    let missing: Seq<(Seq<char>, DependencyErrorType, Seq<char>, Option<(usize, usize)>)> = if available.contains(
        d.name@,
    ) {
        seq![]
    } else {
        seq![
            (
                d.name@,
                DependencyErrorType::MissingTarget,
                "Recipe '"@ + d.name@ + "' does not exist"@,
                d.position,
            ),
        ]
    };
    empty + missing
}

/// Errors for the empty ones among the first `n` arguments, numbered from one.
pub open spec fn argument_errors(d: DependencyInfo, n: nat) -> Seq<
    (Seq<char>, DependencyErrorType, Seq<char>, Option<(usize, usize)>),
>
    decreases n,
{
    if n == 0 {
        seq![]
    } else {
        let rest = argument_errors(d, (n - 1) as nat);
        if d.arguments@[n - 1]@.len() == 0 {
            rest.push(
                (
                    d.name@,
                    DependencyErrorType::InvalidArgument,
                    "Argument "@ + crate::text::decimal(n) + " is empty"@,
                    d.position,
                ),
            )
        } else {
            rest
        }
    }
}

/// Error for a condition that is blank.
pub open spec fn condition_errors(d: DependencyInfo) -> Seq<
    (Seq<char>, DependencyErrorType, Seq<char>, Option<(usize, usize)>),
> {
    match d.condition {
        Some(c) => if trim(c@).len() == 0 {
            seq![(d.name@, DependencyErrorType::InvalidCondition, "Condition cannot be empty"@, d.position)]
        } else {
            seq![]
        },
        None => seq![],
    }
}

/// All errors of one dependency, in the order they are checked.
pub open spec fn spec_dependency_errors(d: DependencyInfo, available: Seq<Seq<char>>) -> Seq<
    (Seq<char>, DependencyErrorType, Seq<char>, Option<(usize, usize)>),
> {
    name_errors(d, available) + argument_errors(d, d.arguments@.len()) + condition_errors(d)
}

} // verus!

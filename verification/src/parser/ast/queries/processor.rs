//! Conversion of raw query results into recipe, parameter, dependency,
//! comment and attribute records.
use vstd::prelude::*;
use crate::text::{owned, push_str, join_strings, trim, drop_leading, drop_leading_exec, str_trim, str_starts_with, str_contains, starts_with, contains, join};
use crate::strmap::{StrMap, lookup, has_key, key_index, lemma_key_index_from, distinct_keys};
use crate::parser::ast::queries::results::{
    QueryResult, QueryResultType, CaptureSeq, capture_any, text_any, lemma_capture_any_in,
};
use crate::parser::ast::queries::info::{
    RecipeInfo, ParameterInfo, ParameterType, DependencyInfo, DependencyType, CommentInfo, strs, opt_str,
    spec_type_from_default, spec_type_from_name,
};
use crate::parser::ast::queries::attributes::{
    AttributeInfo, AttributeType, is_kind_of_name, is_flag_kind, is_platform_kind, spec_kind_text,
    spec_attribute_errors,
};
use crate::parser::ast::queries::arguments::{
    lone_quote, spec_clean, spec_arguments_from_text, arguments_text_safe, spec_parse_attribute_arguments,
    parse_attribute_arguments,
};
use crate::parser::ast::queries::evaluator::{ExpressionEvaluator, lone_delimiter, spec_evaluate_default};
use crate::parser::ast::queries::comments::{CommentAssociator, spec_parameter_description};

verus! {

/// Turns query results into recipe, parameter, dependency and other records.
pub struct QueryResultProcessor;

/// Filtering the first `i + 1` items adds item `i` when it passes.
pub proof fn lemma_filter_take<A>(s: Seq<A>, p: spec_fn(A) -> bool, i: int)
    requires
        0 <= i < s.len(),
    ensures
        s.take(i + 1).filter(p) == (if p(s[i]) {
            s.take(i).filter(p).push(s[i])
        } else {
            s.take(i).filter(p)
        }),
{
    reveal(Seq::filter);
    assert(s.take(i + 1).drop_last() =~= s.take(i));
    assert(s.take(i + 1).last() == s[i]);
}

/// Every capture starts on a row below the largest `usize`, so that its
/// one-based line number can be formed.
pub open spec fn rows_fit(results: Seq<QueryResult>) -> bool {
    forall|i: int, j: int|
        0 <= i < results.len() && 0 <= j < results[i].captures@.len() ==> (
        #[trigger] results[i].captures@[j]).1.start_position.0 < usize::MAX
}

/// Text of the capture named `k`.
pub open spec fn text_of(m: CaptureSeq, k: Seq<char>) -> Option<Seq<char>> {
    match lookup(m, k) {
        Some(c) => Some(c.text@),
        None => None,
    }
}

// ---------------------------------------------------------------------------
// Recipes
// ---------------------------------------------------------------------------

/// Captures naming a recipe, in the order they are tried.
pub open spec fn recipe_name_keys() -> Seq<Seq<char>> {
    seq!["recipe.name"@, "simple.recipe.name"@]
}

/// Results that give a recipe.
pub open spec fn gives_recipe(q: QueryResult) -> bool {
    (q.result_type == QueryResultType::Recipe || q.result_type == QueryResultType::SimpleRecipe)
        && capture_any(q.captures@, recipe_name_keys()) is Some
}

/// `x` is the recipe read from `q`: named by its name capture, on the
/// one-based line where that capture starts.
pub open spec fn is_recipe_from(x: RecipeInfo, q: QueryResult) -> bool {
    let m = q.captures@;
    match capture_any(m, recipe_name_keys()) {
        Some(c) => {
            &&& x.name@ == c.text@
            &&& x.line_number == c.start_position.0 + 1
            &&& x.has_parameters == has_key(m, "recipe.parameters"@)
            &&& x.has_dependencies == has_key(m, "recipe.dependencies"@)
            &&& x.has_body == has_key(m, "recipe.body"@)
        },
        None => false,
    }
}

// ---------------------------------------------------------------------------
// Parameters
// ---------------------------------------------------------------------------

/// Captures naming a parameter.
pub open spec fn parameter_name_keys() -> Seq<Seq<char>> {
    seq!["parameter.name"@, "variadic.parameter.name"@, "parameter.variadic.name"@, "parameter.space.name"@]
}

/// Captures holding a parameter's default.
pub open spec fn parameter_default_keys() -> Seq<Seq<char>> {
    seq!["parameter.default"@, "parameter.space.default"@, "parameter.default.expression"@]
}

/// Results that give a parameter.
pub open spec fn gives_parameter(q: QueryResult) -> bool {
    (q.result_type == QueryResultType::Parameter || q.result_type == QueryResultType::VariadicParameter)
        && capture_any(q.captures@, parameter_name_keys()) is Some
}

/// No parameter default is a lone quote or backtick (evaluating one is refused).
pub open spec fn defaults_safe(results: Seq<QueryResult>) -> bool {
    forall|i: int|
        0 <= i < results.len() ==> match #[trigger] text_any(results[i].captures@, parameter_default_keys()) {
            Some(d) => !lone_delimiter(trim(d)),
            None => true,
        }
}

/// Whether `q` describes a variadic parameter.
pub open spec fn spec_is_variadic(q: QueryResult) -> bool {
    q.result_type == QueryResultType::VariadicParameter || has_key(q.captures@, "parameter.variadic.plus"@)
        || has_key(q.captures@, "parameter.variadic.star"@)
}

/// `p` is the parameter read from `q`, with description `desc`: its default
/// evaluated, its type inferred from the default, else `Array` when
/// variadic, else from the name.
pub open spec fn is_parameter_described(p: ParameterInfo, q: QueryResult, desc: Option<Seq<char>>) -> bool {
    let m = q.captures@;
    let d = text_any(m, parameter_default_keys());
    let variadic = spec_is_variadic(q);
    match capture_any(m, parameter_name_keys()) {
        Some(c) => {
            &&& p.name@ == c.text@
            &&& opt_str(p.default_value) == (match d {
                Some(x) => Some(spec_evaluate_default(x)),
                None => None,
            })
            &&& opt_str(p.raw_default) == d
            &&& p.is_variadic == variadic
            &&& p.is_required == (d is None && !variadic)
            &&& opt_str(p.description) == desc
            &&& p.parameter_type == (match d {
                Some(x) => spec_type_from_default(x),
                None => if variadic {
                    ParameterType::Array
                } else {
                    spec_type_from_name(c.text@)
                },
            })
            &&& p.position == Some(c.start_position)
        },
        None => false,
    }
}

/// `p` is the parameter read from `q`, with no description yet.
pub open spec fn is_parameter_from(p: ParameterInfo, q: QueryResult) -> bool {
    is_parameter_described(p, q, None)
}

/// Name of the parameter that `q` gives.
pub open spec fn parameter_name_of(q: QueryResult) -> Seq<char> {
    capture_any(q.captures@, parameter_name_keys())->0.text@
}

/// Position of the parameter that `q` gives.
pub open spec fn parameter_position_of(q: QueryResult) -> Option<(usize, usize)> {
    Some(capture_any(q.captures@, parameter_name_keys())->0.start_position)
}

// ---------------------------------------------------------------------------
// Dependencies
// ---------------------------------------------------------------------------

/// Captures naming a dependency.
pub open spec fn dependency_name_keys() -> Seq<Seq<char>> {
    seq!["dependency.name"@, "dependency.expr.name"@, "dependency"@]
}

/// Captures holding a dependency's condition.
pub open spec fn condition_keys() -> Seq<Seq<char>> {
    seq!["dependency.condition"@, "condition"@]
}

/// Captures holding a dependency's full text.
pub open spec fn dependency_text_keys() -> Seq<Seq<char>> {
    seq!["dependency.full"@, "dependency"@]
}

/// A capture name that holds a dependency argument.
pub open spec fn is_argument_name(k: Seq<char>) -> bool {
    starts_with(k, "dependency.arg"@) || contains(k, "argument"@)
}

/// Cleaned, non-empty argument captures among the first `n`, in capture order.
pub open spec fn argument_captures(m: CaptureSeq, n: nat) -> Seq<Seq<char>>
    decreases n,
{
    if n == 0 {
        seq![]
    } else {
        let rest = argument_captures(m, (n - 1) as nat);
        let e = m[n - 1];
        if is_argument_name(e.0) && spec_clean(e.1.text@).len() > 0 {
            rest.push(spec_clean(e.1.text@))
        } else {
            rest
        }
    }
}

/// Arguments of a dependency: its argument captures, or else those written
/// in its full text.
pub open spec fn spec_dependency_arguments(m: CaptureSeq) -> Seq<Seq<char>> {
    let found = argument_captures(m, m.len());
    if found.len() > 0 {
        found
    } else {
        match text_any(m, dependency_text_keys()) {
            Some(t) => spec_arguments_from_text(t),
            None => seq![],
        }
    }
}

/// Reading the arguments of `m` slices no text backwards and cleans no lone quote.
pub open spec fn arguments_safe(m: CaptureSeq) -> bool {
    &&& forall|j: int|
        0 <= j < m.len() && is_argument_name(#[trigger] m[j].0) ==> !lone_quote(trim(m[j].1.text@))
    &&& (argument_captures(m, m.len()).len() == 0 ==> match text_any(m, dependency_text_keys()) {
        Some(t) => arguments_text_safe(t),
        None => true,
    })
}

/// Kind of a dependency from whether it has arguments and a condition.
pub open spec fn spec_dependency_type(has_arguments: bool, conditional: bool) -> DependencyType {
    if !has_arguments && !conditional {
        DependencyType::Simple
    } else if !conditional {
        DependencyType::Parameterized
    } else if !has_arguments {
        DependencyType::Conditional
    } else {
        DependencyType::Complex
    }
}

/// Results that give a dependency.
pub open spec fn gives_dependency(q: QueryResult) -> bool {
    q.result_type == QueryResultType::Dependency && capture_any(q.captures@, dependency_name_keys()) is Some
}

/// `d` is the dependency read from `q`.
pub open spec fn is_dependency_from(d: DependencyInfo, q: QueryResult) -> bool {
    let m = q.captures@;
    let args = spec_dependency_arguments(m);
    let cond = text_any(m, condition_keys());
    match capture_any(m, dependency_name_keys()) {
        Some(c) => {
            &&& d.name@ == c.text@
            &&& d.position == Some(c.start_position)
            &&& strs(d.arguments@) == args
            &&& opt_str(d.condition) == cond
            &&& d.is_conditional == cond is Some
            &&& d.dependency_type == spec_dependency_type(args.len() > 0, cond is Some)
        },
        None => false,
    }
}

// ---------------------------------------------------------------------------
// Comments
// ---------------------------------------------------------------------------

/// Captures holding a comment.
pub open spec fn comment_keys() -> Seq<Seq<char>> {
    seq!["comment.line"@, "comment.doc"@, "comment"@]
}

/// Results that give a comment.
pub open spec fn gives_comment(q: QueryResult) -> bool {
    q.result_type == QueryResultType::Comment && text_any(q.captures@, comment_keys()) is Some
}

/// `c` is the comment read from `q`: its text without leading `#` and
/// trimmed, on the line where the first capture starts.
pub open spec fn is_comment_from(c: CommentInfo, q: QueryResult) -> bool {
    let m = q.captures@;
    match text_any(m, comment_keys()) {
        Some(t) => {
            &&& m.len() > 0
            &&& c.text@ == trim(drop_leading(t, '#'))
            &&& c.line_number == m[0].1.start_position.0 + 1
        },
        None => false,
    }
}

// ---------------------------------------------------------------------------
// Attributes
// ---------------------------------------------------------------------------

/// Captures naming an attribute.
pub open spec fn attribute_keys() -> Seq<Seq<char>> {
    seq!["attribute.name"@, "attribute"@]
}

/// Results that give an attribute.
pub open spec fn gives_attribute(q: QueryResult) -> bool {
    q.result_type == QueryResultType::Attribute && text_any(q.captures@, attribute_keys()) is Some
}

/// No attribute value is a lone quote (parsing one is refused).
pub open spec fn values_safe(results: Seq<QueryResult>) -> bool {
    forall|i: int|
        0 <= i < results.len() ==> match #[trigger] text_of(results[i].captures@, "attribute.value"@) {
            Some(v) => !lone_quote(trim(v)),
            None => true,
        }
}

/// `a` is the attribute read from `q`: its arguments parsed from its value,
/// on the line where the first capture starts.
pub open spec fn is_attribute_from(a: AttributeInfo, q: QueryResult) -> bool {
    let m = q.captures@;
    let v = text_of(m, "attribute.value"@);
    let args = match v {
        Some(x) => spec_parse_attribute_arguments(x),
        None => seq![],
    };
    match text_any(m, attribute_keys()) {
        Some(n) => {
            &&& m.len() > 0
            &&& a.name@ == n
            &&& a.line_number == m[0].1.start_position.0 + 1
            &&& a.position == Some(m[0].1.start_position)
            &&& is_kind_of_name(a.attribute_type, n)
            &&& if args.len() > 0 {
                strs(a.arguments@) == args && opt_str(a.value) == Some(args[0]) && !a.is_boolean
            } else {
                match v {
                    Some(x) => strs(a.arguments@) == seq![x] && opt_str(a.value) == Some(x) && !a.is_boolean,
                    None => a.arguments@.len() == 0 && a.value is None && a.is_boolean == is_flag_kind(
                        a.attribute_type,
                    ),
                }
            }
        },
        None => false,
    }
}

/// Number of attributes of kind `Group`.
pub open spec fn group_count(all: Seq<AttributeInfo>) -> nat {
    all.filter(|a: AttributeInfo| a.attribute_type is Group).len()
}

/// Names of the platform attributes, in order.
pub open spec fn platform_names(all: Seq<AttributeInfo>) -> Seq<Seq<char>> {
    all.filter(|a: AttributeInfo| is_platform_kind(a.attribute_type)).map_values(
        |a: AttributeInfo| spec_kind_text(a.attribute_type),
    )
}

/// Messages for attribute `a` among `all`: its own problems, then conflicts.
pub open spec fn attribute_messages(all: Seq<AttributeInfo>, a: AttributeInfo) -> Seq<Seq<char>> {
    let own = spec_attribute_errors(a);
    let private: Seq<Seq<char>> = if (a.attribute_type is Private) && exists|k: int|
        0 <= k < all.len() && (#[trigger] all[k]).attribute_type is Confirm {
        seq!["Private recipe has confirm attribute, which is unnecessary"@]
    } else {
        seq![]
    };
    let group: Seq<Seq<char>> = if (a.attribute_type is Group) && group_count(all) > 1 {
        seq!["Recipe has multiple group attributes, only one is allowed"@]
    } else {
        seq![]
    };
    let platform: Seq<Seq<char>> = if is_platform_kind(a.attribute_type) && platform_names(all).len() > 1 {
        seq!["Recipe has conflicting platform attributes: "@ + join(platform_names(all), ", "@)]
    } else {
        seq![]
    };
    own + private + group + platform
}

/// Messages for the first `n` attributes of `all`.
pub open spec fn spec_validate_attributes(all: Seq<AttributeInfo>, n: nat) -> Seq<Seq<char>>
    decreases n,
{
    if n == 0 || n > all.len() {
        seq![]
    } else {
        spec_validate_attributes(all, (n - 1) as nat) + attribute_messages(all, all[n - 1])
    }
}

// ---------------------------------------------------------------------------
// Grouping
// ---------------------------------------------------------------------------

/// The recipe a result belongs to by its name capture, or `unknown`.
pub open spec fn group_key(q: QueryResult) -> Seq<char> {
    match text_of(q.captures@, "recipe.name"@) {
        Some(n) => n,
        None => match text_of(q.captures@, "simple.recipe.name"@) {
            Some(n) => n,
            None => "unknown"@,
        },
    }
}

/// What a copy of a result keeps: kind, captures and pattern.
pub open spec fn result_view(q: QueryResult) -> (QueryResultType, CaptureSeq, usize) {
    (q.result_type, q.captures@, q.pattern_index)
}

/// The results, in order, that belong to recipe `k`.
pub open spec fn group_of(results: Seq<QueryResult>, k: Seq<char>) -> Seq<(QueryResultType, CaptureSeq, usize)> {
    results.filter(|q: QueryResult| group_key(q) == k).map_values(|q: QueryResult| result_view(q))
}

/// The results that give recipes, in order.
pub open spec fn recipe_results(rs: Seq<QueryResult>) -> Seq<QueryResult> {
    rs.filter(|q: QueryResult| gives_recipe(q))
}

/// The results that give parameters, in order.
pub open spec fn parameter_results(rs: Seq<QueryResult>) -> Seq<QueryResult> {
    rs.filter(|q: QueryResult| gives_parameter(q))
}

/// The results that give dependencies, in order.
pub open spec fn dependency_results(rs: Seq<QueryResult>) -> Seq<QueryResult> {
    rs.filter(|q: QueryResult| gives_dependency(q))
}

/// The results that give comments, in order.
pub open spec fn comment_results(rs: Seq<QueryResult>) -> Seq<QueryResult> {
    rs.filter(|q: QueryResult| gives_comment(q))
}

/// The results that give attributes, in order.
pub open spec fn attribute_results(rs: Seq<QueryResult>) -> Seq<QueryResult> {
    rs.filter(|q: QueryResult| gives_attribute(q))
}

/// Every capture of `q` starts on a row below the largest `usize`.
pub open spec fn result_rows_fit(q: QueryResult) -> bool {
    forall|j: int| 0 <= j < q.captures@.len() ==> (#[trigger] q.captures@[j]).1.start_position.0 < usize::MAX
}

/// Reading the arguments of every dependency result is safe.
pub open spec fn all_arguments_safe(results: Seq<QueryResult>) -> bool {
    forall|i: int| 0 <= i < results.len() ==> arguments_safe(#[trigger] results[i].captures@)
}

/// `cs` are the comments read from the comment results, in order.
pub open spec fn comments_read_from(cs: Seq<CommentInfo>, results: Seq<QueryResult>) -> bool {
    &&& cs.len() == comment_results(results).len()
    &&& forall|k: int| 0 <= k < cs.len() ==> is_comment_from(#[trigger] cs[k], comment_results(results)[k])
}

/// `ps` are the parameters read from the parameter results, each described
/// by the comments `cs`.
pub open spec fn parameters_described(ps: Seq<ParameterInfo>, results: Seq<QueryResult>, cs: Seq<CommentInfo>) -> bool {
    &&& ps.len() == parameter_results(results).len()
    &&& forall|k: int|
        0 <= k < ps.len() ==> is_parameter_described(
            #[trigger] ps[k],
            parameter_results(results)[k],
            spec_parameter_description(
                cs,
                parameter_name_of(parameter_results(results)[k]),
                parameter_position_of(parameter_results(results)[k]),
            ),
        )
}

impl QueryResultProcessor {
    /// The recipes given by the recipe results, in order.
    pub fn extract_recipes(results: &[QueryResult]) -> (r: Vec<RecipeInfo>)
        requires
            rows_fit(results@),
        ensures
            r@.len() == recipe_results(results@).len(),
            forall|k: int| 0 <= k < r@.len() ==> is_recipe_from(#[trigger] r@[k], recipe_results(results@)[k]),
    {
        let mut out: Vec<RecipeInfo> = Vec::new();
        let mut i: usize = 0;
        while i < results.len()
            invariant
                i <= results@.len(),
                rows_fit(results@),
                out@.len() == recipe_results(results@.take(i as int)).len(),
                forall|k: int|
                    0 <= k < out@.len() ==> is_recipe_from(#[trigger] out@[k], recipe_results(results@.take(i as int))[k]),
            decreases results.len() - i,
        {
            let q = &results[i];
            proof {
                lemma_filter_take(results@, |q: QueryResult| gives_recipe(q), i as int);
                assert(result_rows_fit(results@[i as int])) by {
                    assert forall|j: int| 0 <= j < q.captures@.len() implies (#[trigger] q.captures@[j]).1.start_position.0
                        < usize::MAX by {
                        assert(results@[i as int].captures@[j] == q.captures@[j]);
                    }
                }
            }
            let kind = match q.result_type {
                QueryResultType::Recipe => true,
                QueryResultType::SimpleRecipe => true,
                _ => false,
            };
            if kind {
                match Self::result_to_recipe(q) {
                    Some(x) => {
                        out.push(x);
                    },
                    None => {},
                }
            }
            i = i + 1;
        }
        assert(results@.take(results@.len() as int) =~= results@);
        out
    }

    /// The recipe read from one result.
    fn result_to_recipe(result: &QueryResult) -> (r: Option<RecipeInfo>)
        requires
            result_rows_fit(*result),
        ensures
            match r {
                Some(x) => is_recipe_from(x, *result),
                None => capture_any(result.captures@, recipe_name_keys()) is None,
            },
    {
        match result.capture2("recipe.name", "simple.recipe.name") {
            Some(c) => {
                proof {
                    lemma_capture_any_in(result.captures@, recipe_name_keys());
                    let j = choose|j: int| 0 <= j < result.captures@.len() && #[trigger] result.captures@[j].1 == *c;
                    assert(result.captures@[j].1.start_position.0 < usize::MAX);
                }
                Some(
                    RecipeInfo {
                        name: c.text.clone(),
                        line_number: c.start_position.0 + 1,
                        has_parameters: result.has_capture("recipe.parameters"),
                        has_dependencies: result.has_capture("recipe.dependencies"),
                        has_body: result.has_capture("recipe.body"),
                    },
                )
            },
            None => None,
        }
    }

    /// The parameters given by the parameter results, in order.
    pub fn extract_parameters(results: &[QueryResult]) -> (r: Vec<ParameterInfo>)
        requires
            defaults_safe(results@),
        ensures
            r@.len() == parameter_results(results@).len(),
            forall|k: int| 0 <= k < r@.len() ==> is_parameter_from(#[trigger] r@[k], parameter_results(results@)[k]),
    {
        let mut out: Vec<ParameterInfo> = Vec::new();
        let mut i: usize = 0;
        while i < results.len()
            invariant
                i <= results@.len(),
                defaults_safe(results@),
                out@.len() == parameter_results(results@.take(i as int)).len(),
                forall|k: int|
                    0 <= k < out@.len() ==> is_parameter_from(
                        #[trigger] out@[k],
                        parameter_results(results@.take(i as int))[k],
                    ),
            decreases results.len() - i,
        {
            let q = &results[i];
            proof {
                lemma_filter_take(results@, |q: QueryResult| gives_parameter(q), i as int);
                assert(match text_any(results@[i as int].captures@, parameter_default_keys()) {
                    Some(d) => !lone_delimiter(trim(d)),
                    None => true,
                });
            }
            let kind = match q.result_type {
                QueryResultType::Parameter => true,
                QueryResultType::VariadicParameter => true,
                _ => false,
            };
            if kind {
                match Self::result_to_parameter(q) {
                    Some(x) => {
                        out.push(x);
                    },
                    None => {},
                }
            }
            i = i + 1;
        }
        assert(results@.take(results@.len() as int) =~= results@);
        out
    }

    /// The parameter read from one result.
    fn result_to_parameter(result: &QueryResult) -> (r: Option<ParameterInfo>)
        requires
            match text_any(result.captures@, parameter_default_keys()) {
                Some(d) => !lone_delimiter(trim(d)),
                None => true,
            },
        ensures
            match r {
                Some(p) => is_parameter_from(p, *result),
                None => capture_any(result.captures@, parameter_name_keys()) is None,
            },
    {
        match result.capture4("parameter.name", "variadic.parameter.name", "parameter.variadic.name", "parameter.space.name") {
            None => None,
            Some(c) => {
                let name = c.text.clone();
                let variadic_kind = match result.result_type {
                    QueryResultType::VariadicParameter => true,
                    _ => false,
                };
                let is_variadic = variadic_kind || result.has_capture("parameter.variadic.plus") || result.has_capture(
                    "parameter.variadic.star",
                );
                match result.capture3("parameter.default", "parameter.space.default", "parameter.default.expression") {
                    Some(dc) => {
                        let d = dc.text.as_str();
                        let parameter_type = ParameterType::infer_from_default(d);
                        let cleaned = ExpressionEvaluator::evaluate_default_expression(d);
                        Some(
                            ParameterInfo {
                                name,
                                default_value: Some(cleaned),
                                is_variadic,
                                is_required: false,
                                description: None,
                                parameter_type,
                                raw_default: Some(dc.text.clone()),
                                position: Some(c.start_position),
                            },
                        )
                    },
                    None => {
                        let parameter_type = if is_variadic {
                            ParameterType::Array
                        } else {
                            ParameterType::infer_from_name(name.as_str())
                        };
                        Some(
                            ParameterInfo {
                                name,
                                default_value: None,
                                is_variadic,
                                is_required: !is_variadic,
                                description: None,
                                parameter_type,
                                raw_default: None,
                                position: Some(c.start_position),
                            },
                        )
                    },
                }
            },
        }
    }

    /// Parameters with their descriptions taken from the comments.
    pub fn extract_parameters_with_descriptions(parameter_results: &[QueryResult], comment_results: &[QueryResult]) -> (r:
        Vec<ParameterInfo>)
        requires
            defaults_safe(parameter_results@),
            rows_fit(comment_results@),
        ensures
            r@.len() == crate::parser::ast::queries::processor::parameter_results(parameter_results@).len(),
            exists|cs: Seq<CommentInfo>|
                #[trigger] comments_read_from(cs, comment_results@) && parameters_described(
                    r@,
                    parameter_results@,
                    cs,
                ),
    {
        let mut parameters = Self::extract_parameters(parameter_results);
        let comments = Self::extract_comments(comment_results);
        let ghost before = parameters@;
        CommentAssociator::associate_parameter_descriptions(&mut parameters, &comments);
        proof {
            let pr = crate::parser::ast::queries::processor::parameter_results(parameter_results@);
            assert forall|k: int| 0 <= k < parameters@.len() implies is_parameter_described(
                #[trigger] parameters@[k],
                pr[k],
                spec_parameter_description(comments@, parameter_name_of(pr[k]), parameter_position_of(pr[k])),
            ) by {
                assert(is_parameter_from(before[k], pr[k]));
            }
            assert(comments_read_from(comments@, comment_results@));
            assert(parameters_described(parameters@, parameter_results@, comments@));
        }
        parameters
    }

    /// The dependencies given by the dependency results, in order.
    pub fn extract_dependencies(results: &[QueryResult]) -> (r: Vec<DependencyInfo>)
        requires
            all_arguments_safe(results@),
        ensures
            r@.len() == dependency_results(results@).len(),
            forall|k: int| 0 <= k < r@.len() ==> is_dependency_from(#[trigger] r@[k], dependency_results(results@)[k]),
    {
        let mut out: Vec<DependencyInfo> = Vec::new();
        let mut i: usize = 0;
        while i < results.len()
            invariant
                i <= results@.len(),
                all_arguments_safe(results@),
                out@.len() == dependency_results(results@.take(i as int)).len(),
                forall|k: int|
                    0 <= k < out@.len() ==> is_dependency_from(
                        #[trigger] out@[k],
                        dependency_results(results@.take(i as int))[k],
                    ),
            decreases results.len() - i,
        {
            let q = &results[i];
            proof {
                lemma_filter_take(results@, |q: QueryResult| gives_dependency(q), i as int);
                assert(arguments_safe(results@[i as int].captures@));
            }
            let kind = match q.result_type {
                QueryResultType::Dependency => true,
                _ => false,
            };
            if kind {
                match Self::result_to_dependency(q) {
                    Some(x) => {
                        out.push(x);
                    },
                    None => {},
                }
            }
            i = i + 1;
        }
        assert(results@.take(results@.len() as int) =~= results@);
        out
    }

    /// The dependency read from one result.
    fn result_to_dependency(result: &QueryResult) -> (r: Option<DependencyInfo>)
        requires
            arguments_safe(result.captures@),
        ensures
            match r {
                Some(d) => is_dependency_from(d, *result),
                None => capture_any(result.captures@, dependency_name_keys()) is None,
            },
    {
        match result.capture3("dependency.name", "dependency.expr.name", "dependency") {
            None => None,
            Some(c) => {
                let arguments = Self::parse_dependency_arguments(result);
                let condition = match result.capture2("dependency.condition", "condition") {
                    Some(cc) => Some(cc.text.clone()),
                    None => None,
                };
                let is_conditional = condition.is_some();
                let has_arguments = arguments.len() > 0;
                let dependency_type = if !has_arguments && !is_conditional {
                    DependencyType::Simple
                } else if !is_conditional {
                    DependencyType::Parameterized
                } else if !has_arguments {
                    DependencyType::Conditional
                } else {
                    DependencyType::Complex
                };
                Some(
                    DependencyInfo {
                        name: c.text.clone(),
                        arguments,
                        is_conditional,
                        condition,
                        position: Some(c.start_position),
                        dependency_type,
                    },
                )
            },
        }
    }

    /// Arguments of a dependency: from its argument captures, or else from
    /// its full text.
    fn parse_dependency_arguments(result: &QueryResult) -> (r: Vec<String>)
        requires
            arguments_safe(result.captures@),
        ensures
            strs(r@) == spec_dependency_arguments(result.captures@),
    {
        let ghost m = result.captures@;
        let mut arguments: Vec<String> = Vec::new();
        let n = result.captures.len();
        let mut i: usize = 0;
        while i < n
            invariant
                i <= n,
                n == m.len(),
                m == result.captures@,
                arguments_safe(m),
                strs(arguments@) == argument_captures(m, i as nat),
            decreases n - i,
        {
            let k = result.captures.key_at(i);
            let c = result.captures.value_at(i);
            if str_starts_with(k.as_str(), "dependency.arg") || str_contains(k.as_str(), "argument") {
                assert(is_argument_name(m[i as int].0));
                let cleaned = Self::clean_argument_text(c.text.as_str());
                if !cleaned.as_str().is_empty() {
                    let ghost prev = arguments@;
                    arguments.push(cleaned);
                    assert(strs(arguments@) =~= strs(prev).push(cleaned@));
                }
            }
            i = i + 1;
        }
        if arguments.len() == 0 {
            match result.capture2("dependency.full", "dependency") {
                Some(c) => {
                    arguments = Self::parse_arguments_from_text(c.text.as_str());
                },
                None => {},
            }
        }
        arguments
    }

    /// The comments given by the comment results, in order.
    pub fn extract_comments(results: &[QueryResult]) -> (r: Vec<CommentInfo>)
        requires
            rows_fit(results@),
        ensures
            r@.len() == comment_results(results@).len(),
            forall|k: int| 0 <= k < r@.len() ==> is_comment_from(#[trigger] r@[k], comment_results(results@)[k]),
    {
        let mut out: Vec<CommentInfo> = Vec::new();
        let mut i: usize = 0;
        while i < results.len()
            invariant
                i <= results@.len(),
                rows_fit(results@),
                out@.len() == comment_results(results@.take(i as int)).len(),
                forall|k: int|
                    0 <= k < out@.len() ==> is_comment_from(#[trigger] out@[k], comment_results(results@.take(i as int))[k]),
            decreases results.len() - i,
        {
            let q = &results[i];
            proof {
                lemma_filter_take(results@, |q: QueryResult| gives_comment(q), i as int);
                assert(result_rows_fit(results@[i as int])) by {
                    assert forall|j: int| 0 <= j < q.captures@.len() implies (#[trigger] q.captures@[j]).1.start_position.0
                        < usize::MAX by {
                        assert(results@[i as int].captures@[j] == q.captures@[j]);
                    }
                }
            }
            let kind = match q.result_type {
                QueryResultType::Comment => true,
                _ => false,
            };
            if kind {
                match Self::result_to_comment(q) {
                    Some(x) => {
                        out.push(x);
                    },
                    None => {},
                }
            }
            i = i + 1;
        }
        assert(results@.take(results@.len() as int) =~= results@);
        out
    }

    /// The comment read from one result.
    fn result_to_comment(result: &QueryResult) -> (r: Option<CommentInfo>)
        requires
            result_rows_fit(*result),
        ensures
            match r {
                Some(c) => is_comment_from(c, *result),
                None => text_any(result.captures@, comment_keys()) is None,
            },
    {
        match result.capture3("comment.line", "comment.doc", "comment") {
            None => None,
            Some(t) => {
                proof {
                    lemma_capture_any_in(result.captures@, comment_keys());
                }
                match result.first_capture() {
                    None => None,
                    Some(f) => {
                        assert(result.captures@[0].1.start_position.0 < usize::MAX);
                        let stripped = drop_leading_exec(t.text.as_str(), '#');
                        let text = str_trim(stripped.as_str());
                        Some(CommentInfo { text, line_number: f.start_position.0 + 1 })
                    },
                }
            },
        }
    }

    /// The attributes given by the attribute results, in order.
    pub fn extract_attributes(results: &[QueryResult]) -> (r: Vec<AttributeInfo>)
        requires
            rows_fit(results@),
            values_safe(results@),
        ensures
            r@.len() == attribute_results(results@).len(),
            forall|k: int| 0 <= k < r@.len() ==> is_attribute_from(#[trigger] r@[k], attribute_results(results@)[k]),
    {
        let mut out: Vec<AttributeInfo> = Vec::new();
        let mut i: usize = 0;
        while i < results.len()
            invariant
                i <= results@.len(),
                rows_fit(results@),
                values_safe(results@),
                out@.len() == attribute_results(results@.take(i as int)).len(),
                forall|k: int|
                    0 <= k < out@.len() ==> is_attribute_from(
                        #[trigger] out@[k],
                        attribute_results(results@.take(i as int))[k],
                    ),
            decreases results.len() - i,
        {
            let q = &results[i];
            proof {
                lemma_filter_take(results@, |q: QueryResult| gives_attribute(q), i as int);
                assert(result_rows_fit(results@[i as int])) by {
                    assert forall|j: int| 0 <= j < q.captures@.len() implies (#[trigger] q.captures@[j]).1.start_position.0
                        < usize::MAX by {
                        assert(results@[i as int].captures@[j] == q.captures@[j]);
                    }
                }
                assert(match text_of(results@[i as int].captures@, "attribute.value"@) {
                    Some(v) => !lone_quote(trim(v)),
                    None => true,
                });
            }
            let kind = match q.result_type {
                QueryResultType::Attribute => true,
                _ => false,
            };
            if kind {
                match Self::result_to_attribute(q) {
                    Some(x) => {
                        out.push(x);
                    },
                    None => {},
                }
            }
            i = i + 1;
        }
        assert(results@.take(results@.len() as int) =~= results@);
        out
    }

    /// The attribute read from one result.
    fn result_to_attribute(result: &QueryResult) -> (r: Option<AttributeInfo>)
        requires
            result_rows_fit(*result),
            match text_of(result.captures@, "attribute.value"@) {
                Some(v) => !lone_quote(trim(v)),
                None => true,
            },
        ensures
            match r {
                Some(a) => is_attribute_from(a, *result),
                None => text_any(result.captures@, attribute_keys()) is None,
            },
    {
        match result.capture2("attribute.name", "attribute") {
            None => None,
            Some(nc) => {
                proof {
                    lemma_capture_any_in(result.captures@, attribute_keys());
                }
                match result.first_capture() {
                    None => None,
                    Some(f) => {
                        assert(result.captures@[0].1.start_position.0 < usize::MAX);
                        let position = f.start_position;
                        let line_number = position.0 + 1;
                        let name = nc.text.clone();
                        let mut info = match result.get_capture("attribute.value") {
                            Some(vc) => {
                                let arguments = parse_attribute_arguments(vc.text.as_str());
                                if arguments.len() > 0 {
                                    AttributeInfo::with_arguments(name, arguments, line_number)
                                } else {
                                    let a = AttributeInfo::with_value(name, vc.text.clone(), line_number);
                                    assert(strs(a.arguments@) =~= seq![vc.text@]);
                                    a
                                }
                            },
                            None => AttributeInfo::new(name, line_number),
                        };
                        info.position = Some(position);
                        Some(info)
                    },
                }
            },
        }
    }

    /// Whether some attribute is a `confirm`.
    fn has_confirm(attributes: &[AttributeInfo]) -> (b: bool)
        ensures
            b == exists|k: int| 0 <= k < attributes@.len() && (#[trigger] attributes@[k]).attribute_type is Confirm,
    {
        let mut i: usize = 0;
        while i < attributes.len()
            invariant
                i <= attributes@.len(),
                forall|k: int| 0 <= k < i ==> !((#[trigger] attributes@[k]).attribute_type is Confirm),
            decreases attributes.len() - i,
        {
            match &attributes[i].attribute_type {
                AttributeType::Confirm => {
                    return true;
                },
                _ => {},
            }
            i = i + 1;
        }
        false
    }

    /// Number of `group` attributes.
    fn count_groups(attributes: &[AttributeInfo]) -> (n: usize)
        ensures
            n == group_count(attributes@),
    {
        let mut n: usize = 0;
        let mut i: usize = 0;
        while i < attributes.len()
            invariant
                i <= attributes@.len(),
                n == attributes@.take(i as int).filter(|a: AttributeInfo| a.attribute_type is Group).len(),
                n <= i,
            decreases attributes.len() - i,
        {
            proof {
                lemma_filter_take(attributes@, |a: AttributeInfo| a.attribute_type is Group, i as int);
            }
            match &attributes[i].attribute_type {
                AttributeType::Group => {
                    n = n + 1;
                },
                _ => {},
            }
            i = i + 1;
        }
        assert(attributes@.take(attributes@.len() as int) =~= attributes@);
        n
    }

    /// Names of the platform attributes, in order.
    fn platform_attribute_names(attributes: &[AttributeInfo]) -> (v: Vec<String>)
        ensures
            strs(v@) == platform_names(attributes@),
    {
        let mut v: Vec<String> = Vec::new();
        let mut i: usize = 0;
        while i < attributes.len()
            invariant
                i <= attributes@.len(),
                strs(v@) == platform_names(attributes@.take(i as int)),
            decreases attributes.len() - i,
        {
            proof {
                lemma_filter_take(attributes@, |a: AttributeInfo| is_platform_kind(a.attribute_type), i as int);
            }
            let a = &attributes[i];
            if a.attribute_type.is_platform_specific() {
                let ghost prev = v@;
                v.push(a.attribute_type.to_string());
                assert(strs(v@) =~= strs(prev).push(spec_kind_text(a.attribute_type)));
            }
            assert(strs(v@) =~= platform_names(attributes@.take(i + 1)));
            i = i + 1;
        }
        assert(attributes@.take(attributes@.len() as int) =~= attributes@);
        v
    }

    /// Problems of each attribute, followed by its conflicts with the others.
    pub fn validate_attributes(attributes: &[AttributeInfo]) -> (r: Vec<String>)
        ensures
            strs(r@) == spec_validate_attributes(attributes@, attributes@.len() as nat),
    {
        let mut errors: Vec<String> = Vec::new();
        let mut i: usize = 0;
        while i < attributes.len()
            invariant
                i <= attributes@.len(),
                strs(errors@) == spec_validate_attributes(attributes@, i as nat),
            decreases attributes.len() - i,
        {
            let a = &attributes[i];
            let ghost before = strs(errors@);
            let mut own = a.validation_errors();
            let ghost own_v = strs(own@);
            errors.append(&mut own);
            assert(strs(errors@) =~= before + own_v);
            let ghost after_own = strs(errors@);
            let mut private_part = false;
            let mut group_part = false;
            match &a.attribute_type {
                AttributeType::Private => {
                    if Self::has_confirm(attributes) {
                        errors.push(owned("Private recipe has confirm attribute, which is unnecessary"));
                        private_part = true;
                    }
                },
                AttributeType::Group => {
                    if Self::count_groups(attributes) > 1 {
                        errors.push(owned("Recipe has multiple group attributes, only one is allowed"));
                        group_part = true;
                    }
                },
                _ => {},
            }
            let ghost after_kind = strs(errors@);
            assert(after_kind =~= after_own + (if private_part {
                seq!["Private recipe has confirm attribute, which is unnecessary"@]
            } else {
                Seq::<Seq<char>>::empty()
            }) + (if group_part {
                seq!["Recipe has multiple group attributes, only one is allowed"@]
            } else {
                Seq::<Seq<char>>::empty()
            }));
            if a.attribute_type.is_platform_specific() {
                let names = Self::platform_attribute_names(attributes);
                if names.len() > 1 {
                    let mut msg = owned("Recipe has conflicting platform attributes: ");
                    let joined = join_strings(&names, ", ");
                    push_str(&mut msg, joined.as_str());
                    errors.push(msg);
                }
            }
            assert(strs(errors@) =~= before + attribute_messages(attributes@, attributes@[i as int]));
            i = i + 1;
        }
        errors
    }

    /// Results grouped by the recipe they name, each group in order; results
    /// that name none go under `unknown`.
    pub fn group_by_recipe(results: &[QueryResult]) -> (g: StrMap<Vec<QueryResult>>)
        ensures
            distinct_keys(g@),
            forall|k: Seq<char>|
                has_key(g@, k) <==> exists|i: int| 0 <= i < results@.len() && group_key(#[trigger] results@[i]) == k,
            forall|x: int|
                0 <= x < g@.len() ==> (#[trigger] g@[x].1)@.map_values(|q: QueryResult| result_view(q)) == group_of(
                    results@,
                    g@[x].0,
                ),
    {
        let mut g: StrMap<Vec<QueryResult>> = StrMap::new();
        let mut i: usize = 0;
        while i < results.len()
            invariant
                i <= results@.len(),
                distinct_keys(g@),
                forall|k: Seq<char>|
                    has_key(g@, k) <==> exists|j: int| 0 <= j < i && group_key(#[trigger] results@[j]) == k,
                forall|x: int|
                    0 <= x < g@.len() ==> (#[trigger] g@[x].1)@.map_values(|q: QueryResult| result_view(q))
                        == group_of(results@.take(i as int), g@[x].0),
            decreases results.len() - i,
        {
            let q = &results[i];
            let key = match q.get_text("recipe.name") {
                Some(t) => owned(t),
                None => match q.get_text("simple.recipe.name") {
                    Some(t) => owned(t),
                    None => owned("unknown"),
                },
            };
            assert(key@ == group_key(results@[i as int]));
            let copy = q.clone();
            let ghost g0 = g@;
            let ghost k0 = key@;
            proof {
                lemma_key_index_from(g0, k0, 0);
                assert forall|kk: Seq<char>| #[trigger] group_of(results@.take(i + 1), kk) == (if group_key(results@[i as int]) == kk {
                    group_of(results@.take(i as int), kk).push(result_view(results@[i as int]))
                } else {
                    group_of(results@.take(i as int), kk)
                }) by {
                    lemma_filter_take(results@, |q: QueryResult| group_key(q) == kk, i as int);
                }
            }
            match g.index_of(key.as_str()) {
                Some(x) => {
                    let mut v = g.replace_value_at(x, Vec::new());
                    v.push(copy);
                    g.replace_value_at(x, v);
                    proof {
                        assert forall|y: int| 0 <= y < g@.len() implies (#[trigger] g@[y].1)@.map_values(
                            |q: QueryResult| result_view(q),
                        ) == group_of(results@.take(i + 1), g@[y].0) by {
                            if y == x {
                                assert(g@[y].1@.map_values(|q: QueryResult| result_view(q)) =~= g0[y].1@.map_values(
                                    |q: QueryResult| result_view(q),
                                ).push(result_view(results@[i as int])));
                            } else {
                                assert(g@[y] == g0[y]);
                                assert(g0[y].0 != k0);
                                assert(group_of(results@.take(i + 1), g0[y].0) == group_of(results@.take(i as int), g0[y].0));
                            }
                        }
                        assert forall|kk: Seq<char>| has_key(g@, kk) <==> exists|j: int|
                            0 <= j < i + 1 && group_key(#[trigger] results@[j]) == kk by {
                            lemma_key_index_from(g0, kk, 0);
                            lemma_key_index_from(g@, kk, 0);
                            if has_key(g0, kk) {
                                let z = key_index(g0, kk)->0 as int;
                                assert(g@[z].0 == kk);
                            }
                            if has_key(g@, kk) {
                                let z = key_index(g@, kk)->0 as int;
                                assert(g0[z].0 == kk);
                            }
                            if exists|j: int| 0 <= j < i + 1 && group_key(#[trigger] results@[j]) == kk {
                                let j = choose|j: int| 0 <= j < i + 1 && group_key(#[trigger] results@[j]) == kk;
                                if j == i {
                                    assert(g0[x as int].0 == kk);
                                }
                            }
                        }
                    }
                },
                None => {
                    let mut v: Vec<QueryResult> = Vec::new();
                    v.push(copy);
                    proof {
                        assert forall|j: int| 0 <= j < i implies group_key(#[trigger] results@[j]) != k0 by {
                            if group_key(results@[j]) == k0 {
                                assert(has_key(g0, k0));
                            }
                        }
                        lemma_group_of_none(results@.take(i as int), k0);
                        assert(v@.map_values(|q: QueryResult| result_view(q)) =~= seq![result_view(results@[i as int])]);
                    }
                    g.push_unchecked(key, v);
                    proof {
                        assert forall|y: int| 0 <= y < g@.len() implies (#[trigger] g@[y].1)@.map_values(
                            |q: QueryResult| result_view(q),
                        ) == group_of(results@.take(i + 1), g@[y].0) by {
                            if y < g0.len() {
                                assert(g@[y] == g0[y]);
                                assert(g0[y].0 != k0);
                            } else {
                                assert(group_of(results@.take(i as int), k0) =~= Seq::<(QueryResultType, CaptureSeq, usize)>::empty());
                            }
                        }
                        assert(distinct_keys(g@)) by {
                            assert forall|a: int, b: int| 0 <= a < b < g@.len() implies g@[a].0 != g@[b].0 by {
                                if b == g0.len() {
                                    assert(g0[a].0 != k0);
                                }
                            }
                        }
                        assert forall|kk: Seq<char>| has_key(g@, kk) <==> exists|j: int|
                            0 <= j < i + 1 && group_key(#[trigger] results@[j]) == kk by {
                            lemma_key_index_from(g0, kk, 0);
                            lemma_key_index_from(g@, kk, 0);
                            if has_key(g0, kk) {
                                let z = key_index(g0, kk)->0 as int;
                                assert(g@[z].0 == kk);
                            }
                            if has_key(g@, kk) {
                                let z = key_index(g@, kk)->0 as int;
                                if z < g0.len() {
                                    assert(g0[z].0 == kk);
                                }
                            }
                            if kk == k0 {
                                assert(g@[g0.len() as int].0 == kk);
                            }
                        }
                    }
                },
            }
            i = i + 1;
        }
        assert(results@.take(results@.len() as int) =~= results@);
        g
    }
}

/// No result of `s` belongs to `k`, so its group is empty.
proof fn lemma_group_of_none(s: Seq<QueryResult>, k: Seq<char>)
    requires
        forall|j: int| 0 <= j < s.len() ==> group_key(#[trigger] s[j]) != k,
    ensures
        group_of(s, k).len() == 0,
    decreases s.len(),
{
    reveal(Seq::filter);
    if s.len() > 0 {
        let h = s.drop_last();
        assert forall|j: int| 0 <= j < h.len() implies group_key(#[trigger] h[j]) != k by {
            assert(h[j] == s[j]);
        }
        lemma_group_of_none(h, k);
        assert(group_key(s.last()) != k);
    }
}

} // verus!

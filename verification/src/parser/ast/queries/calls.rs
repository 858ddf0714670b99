//! Conditional expressions and function calls read from query results, and
//! strings with their interpolations attached.
use vstd::prelude::*;
use crate::text::{
    owned, trim, str_trim, find, str_find, rfind_char, rfind_char_exec, chars_of, substring, concat, join,
    is_blank, lemma_find_from_occurs,
};
use crate::sorted::sorted_set_of;
use crate::parser::ast::queries::results::{QueryResult, QueryResultType, text_any, lemma_capture_any_in};
use crate::parser::ast::queries::info::{InterpolationInfo, StringInfo, strs, opt_str};
use crate::parser::ast::queries::vars::word_variables;
use crate::parser::ast::queries::conditional::{ConditionalExpressionInfo, ConditionalType, conditional_text};
use crate::parser::ast::queries::functions::{
    FunctionArgument, FunctionCallInfo, is_argument_of, argument_values, all_argument_variables, spec_return_type,
    spec_function_type,
};
use crate::parser::ast::queries::arguments::spec_parse_call_arguments;
use crate::parser::ast::queries::processor::{QueryResultProcessor, lemma_filter_take};
use crate::parser::ast::queries::expressions::{
    or_default, spec_has_nested_expressions, spec_has_nested_calls, spec_function_nesting, gives_string,
    strings_safe, is_string_from, gives_interpolation, is_interpolation_from, spec_mark_interpolations,
};

verus! {

// ---------------------------------------------------------------------------
// Conditional expressions
// ---------------------------------------------------------------------------

/// Captures holding a whole conditional.
pub open spec fn conditional_keys() -> Seq<Seq<char>> {
    seq!["expression.conditional"@, "conditional.expression"@, "expression"@]
}

/// Captures holding a conditional's condition.
pub open spec fn condition_part_keys() -> Seq<Seq<char>> {
    seq!["expression.conditional.condition"@, "conditional.condition"@]
}

/// Captures holding a conditional's first branch.
pub open spec fn true_branch_keys() -> Seq<Seq<char>> {
    seq!["expression.conditional.true_branch"@, "conditional.true_branch"@, "expression.conditional.then"@]
}

/// Captures holding a conditional's else branch.
pub open spec fn false_branch_keys() -> Seq<Seq<char>> {
    seq!["expression.conditional.false_branch"@, "conditional.false_branch"@, "expression.conditional.else"@]
}

/// Results that give a conditional expression.
pub open spec fn gives_conditional(q: QueryResult) -> bool {
    q.result_type == QueryResultType::ConditionalExpression && text_any(q.captures@, conditional_keys()) is Some
}

/// Kind of a conditional: with an else branch it is ternary when written
/// with `?` and `:`, and if-then-else otherwise.
pub open spec fn spec_conditional_kind(full: Seq<char>, f: Option<Seq<char>>) -> ConditionalType {
    if f is Some {
        if full.contains('?') && full.contains(':') {
            ConditionalType::Ternary
        } else {
            ConditionalType::IfThenElse
        }
    } else {
        ConditionalType::IfThen
    }
}

/// `x` is the conditional read from `q`: condition `true` and an empty
/// branch when they are not captured.
pub open spec fn is_conditional_from(x: ConditionalExpressionInfo, q: QueryResult) -> bool {
    let m = q.captures@;
    match text_any(m, conditional_keys()) {
        Some(full) => {
            let c = or_default(text_any(m, condition_part_keys()), "true"@);
            let t = or_default(text_any(m, true_branch_keys()), seq![]);
            let f = text_any(m, false_branch_keys());
            let k = spec_conditional_kind(full, f);
            &&& m.len() > 0
            &&& x.conditional_type == k
            &&& x.full_expression@ == conditional_text(k, c, t, or_default(f, seq![]))
            &&& x.condition@ == c
            &&& x.true_branch@ == t
            &&& opt_str(x.false_branch) == f
            &&& sorted_set_of(strs(x.condition_variables@), word_variables(c, true))
            &&& sorted_set_of(strs(x.branch_variables@), match f {
                Some(y) => word_variables(t, true).union(word_variables(y, true)),
                None => word_variables(t, true),
            })
            &&& x.position == Some(m[0].1.start_position)
            &&& x.nesting_level == 1
            &&& x.has_nested_expressions == spec_has_nested_expressions(full)
        },
        None => false,
    }
}

// ---------------------------------------------------------------------------
// Function calls
// ---------------------------------------------------------------------------

/// Captures naming a called function.
pub open spec fn function_name_keys() -> Seq<Seq<char>> {
    seq!["expression.function.name"@, "function.name"@, "function_call.name"@]
}

/// Captures holding a whole call.
pub open spec fn function_call_keys() -> Seq<Seq<char>> {
    seq!["expression.function_call"@, "function_call"@, "expression"@]
}

/// Results that give a function call.
pub open spec fn gives_function_call(q: QueryResult) -> bool {
    q.result_type == QueryResultType::FunctionCall && text_any(q.captures@, function_name_keys()) is Some
}

/// Values of the arguments of the call of `name` written in `full`: the text
/// between `name(` and the last `)`, split at top-level commas and trimmed.
pub open spec fn spec_call_argument_values(full: Seq<char>, name: Seq<char>) -> Seq<Seq<char>> {
    match find(full, name + "("@) {
        Some(st) => match rfind_char(full, ')') {
            Some(e) => {
                let a = full.subrange((st + name.len() + 1) as int, e as int);
                if trim(a).len() > 0 {
                    spec_parse_call_arguments(a).map_values(|x: Seq<char>| trim(x))
                } else {
                    seq![]
                }
            },
            None => seq![],
        },
        None => seq![],
    }
}

/// The last `)` does not come before the arguments of the call, and the
/// arguments are short enough for a 32-bit parenthesis count.
pub open spec fn call_arguments_safe(full: Seq<char>, name: Seq<char>) -> bool {
    match find(full, name + "("@) {
        Some(st) => match rfind_char(full, ')') {
            Some(e) => st + name.len() + 1 <= e && e - (st + name.len() + 1) <= i32::MAX,
            None => true,
        },
        None => true,
    }
}

/// Reading the arguments of every call result is safe.
pub open spec fn calls_safe(results: Seq<QueryResult>) -> bool {
    forall|i: int|
        0 <= i < results.len() && gives_function_call(#[trigger] results[i]) ==> call_arguments_safe(
            or_default(text_any(results[i].captures@, function_call_keys()), seq![]),
            text_any(results[i].captures@, function_name_keys())->0,
        )
}

/// `f` is the call read from `q`, its arguments numbered from zero.
pub open spec fn is_function_call_from(f: FunctionCallInfo, q: QueryResult) -> bool {
    let m = q.captures@;
    match text_any(m, function_name_keys()) {
        Some(n) => {
            let full = or_default(text_any(m, function_call_keys()), seq![]);
            let vals = spec_call_argument_values(full, n);
            &&& m.len() > 0
            &&& f.arguments@.len() == vals.len()
            &&& forall|i: int|
                0 <= i < vals.len() ==> is_argument_of(#[trigger] f.arguments@[i], vals[i], i as usize, true)
            &&& f.function_name@ == n
            &&& f.full_expression@ == n + "("@ + join(argument_values(f.arguments@), ", "@) + ")"@
            &&& f.return_type == spec_return_type(n)
            &&& f.function_type == spec_function_type(n)
            &&& sorted_set_of(strs(f.argument_variables@), all_argument_variables(f.arguments@))
            &&& f.position == Some(m[0].1.start_position)
            &&& f.has_nested_calls == spec_has_nested_calls(full)
            &&& f.nesting_level == spec_function_nesting(full)
        },
        None => false,
    }
}

// ---------------------------------------------------------------------------
// Strings with interpolations
// ---------------------------------------------------------------------------

/// An interpolation starting on row `row` lies within five rows after a
/// string that starts on row `start`.
pub open spec fn near_row(start: usize, row: usize) -> bool {
    start <= row && row - start <= 5
}

/// The interpolations among `is` that lie near a string starting on `row`.
pub open spec fn interpolations_near(is: Seq<InterpolationInfo>, row: usize) -> Seq<InterpolationInfo> {
    is.filter(|i: InterpolationInfo| i.position matches Some(p) && near_row(row, p.0))
}

/// `x` is the string read from `q` with the interpolations of `is` near it
/// attached and marked in its content.
pub open spec fn is_string_with_interpolations(x: StringInfo, q: QueryResult, is: Seq<InterpolationInfo>) -> bool {
    let m = q.captures@;
    match text_any(m, crate::parser::ast::queries::expressions::string_keys()) {
        Some(raw) => {
            let near = interpolations_near(is, m[0].1.start_position.0);
            &&& m.len() > 0
            &&& x.raw_text@ == raw
            &&& x.content@ == crate::parser::ast::queries::expressions::spec_string_content(raw, m)
            &&& x.string_type == crate::parser::ast::queries::expressions::spec_string_type(m)
            &&& x.has_escapes == (crate::strmap::has_key(m, "string.with_escapes"@) || raw.contains('\\'))
            &&& x.position == Some(m[0].1.start_position)
            &&& x.interpolations@ == near
            &&& opt_str(x.processed_content) == Some(
                spec_mark_interpolations(x.content@, near, near.len() as nat),
            )
        },
        None => false,
    }
}

/// `is` are the interpolations read from the interpolation results, in order.
pub open spec fn interpolations_read_from(is: Seq<InterpolationInfo>, results: Seq<QueryResult>) -> bool {
    let sources = results.filter(|q: QueryResult| gives_interpolation(q));
    &&& is.len() == sources.len()
    &&& forall|k: int| 0 <= k < is.len() ==> is_interpolation_from(#[trigger] is[k], sources[k])
}

/// `xs` are the strings read from the string results, each with the
/// interpolations of `is` near it.
pub open spec fn strings_with(xs: Seq<StringInfo>, results: Seq<QueryResult>, is: Seq<InterpolationInfo>) -> bool {
    let sources = results.filter(|q: QueryResult| gives_string(q));
    &&& xs.len() == sources.len()
    &&& forall|k: int| 0 <= k < xs.len() ==> is_string_with_interpolations(#[trigger] xs[k], sources[k], is)
}

impl QueryResultProcessor {
    /// The conditional expressions given by the conditional results, in order.
    pub fn extract_conditional_expressions(results: &[QueryResult]) -> (r: Vec<ConditionalExpressionInfo>)
        ensures
            r@.len() == results@.filter(|q: QueryResult| gives_conditional(q)).len(),
            forall|k: int|
                0 <= k < r@.len() ==> is_conditional_from(
                    #[trigger] r@[k],
                    results@.filter(|q: QueryResult| gives_conditional(q))[k],
                ),
    {
        let mut out: Vec<ConditionalExpressionInfo> = Vec::new();
        let mut i: usize = 0;
        while i < results.len()
            invariant
                i <= results@.len(),
                out@.len() == results@.take(i as int).filter(|q: QueryResult| gives_conditional(q)).len(),
                forall|k: int|
                    0 <= k < out@.len() ==> is_conditional_from(
                        #[trigger] out@[k],
                        results@.take(i as int).filter(|q: QueryResult| gives_conditional(q))[k],
                    ),
            decreases results.len() - i,
        {
            let q = &results[i];
            proof {
                lemma_filter_take(results@, |q: QueryResult| gives_conditional(q), i as int);
            }
            let kind = match q.result_type {
                QueryResultType::ConditionalExpression => true,
                _ => false,
            };
            if kind {
                match Self::result_to_conditional_expression(q) {
                    Some(x) => {
                        out.push(x);
                    },
                    None => {},
                }
            }
            i = i + 1;
        }
        assert(results@.take(results@.len() as int) =~= results@);
        out
    }

    /// The conditional read from one result.
    fn result_to_conditional_expression(result: &QueryResult) -> (r: Option<ConditionalExpressionInfo>)
        ensures
            match r {
                Some(x) => is_conditional_from(x, *result),
                None => text_any(result.captures@, conditional_keys()) is None,
            },
    {
        let full_c = match result.capture3("expression.conditional", "conditional.expression", "expression") {
            Some(c) => c,
            None => {
                return None;
            },
        };
        proof {
            lemma_capture_any_in(result.captures@, conditional_keys());
        }
        let full = full_c.text.as_str();
        let condition = match result.capture2("expression.conditional.condition", "conditional.condition") {
            Some(c) => c.text.clone(),
            None => owned("true"),
        };
        let true_branch = match result.capture3(
            "expression.conditional.true_branch",
            "conditional.true_branch",
            "expression.conditional.then",
        ) {
            Some(c) => c.text.clone(),
            None => {
                proof {
                    reveal_strlit("");
                    assert(""@ =~= Seq::<char>::empty());
                }
                owned("")
            },
        };
        let false_branch = match result.capture3(
            "expression.conditional.false_branch",
            "conditional.false_branch",
            "expression.conditional.else",
        ) {
            Some(c) => Some(c.text.clone()),
            None => None,
        };
        let fv = chars_of(full);
        let nesting_level = Self::calculate_conditional_nesting(full);
        let mut info = match false_branch {
            Some(f) => {
                if crate::text::has_char(&fv, '?') && crate::text::has_char(&fv, ':') {
                    ConditionalExpressionInfo::ternary(condition, true_branch, f)
                } else {
                    ConditionalExpressionInfo::if_then_else(condition, true_branch, f)
                }
            },
            None => ConditionalExpressionInfo::if_then(condition, true_branch),
        };
        let first = match result.first_capture() {
            Some(f) => f,
            None => {
                return None;
            },
        };
        info.position = Some(first.start_position);
        info.nesting_level = nesting_level;
        info.has_nested_expressions = Self::has_nested_expressions(full);
        Some(info)
    }

    /// The function calls given by the call results, in order.
    pub fn extract_function_calls(results: &[QueryResult]) -> (r: Vec<FunctionCallInfo>)
        requires
            calls_safe(results@),
        ensures
            r@.len() == results@.filter(|q: QueryResult| gives_function_call(q)).len(),
            forall|k: int|
                0 <= k < r@.len() ==> is_function_call_from(
                    #[trigger] r@[k],
                    results@.filter(|q: QueryResult| gives_function_call(q))[k],
                ),
    {
        let mut out: Vec<FunctionCallInfo> = Vec::new();
        let mut i: usize = 0;
        while i < results.len()
            invariant
                i <= results@.len(),
                calls_safe(results@),
                out@.len() == results@.take(i as int).filter(|q: QueryResult| gives_function_call(q)).len(),
                forall|k: int|
                    0 <= k < out@.len() ==> is_function_call_from(
                        #[trigger] out@[k],
                        results@.take(i as int).filter(|q: QueryResult| gives_function_call(q))[k],
                    ),
            decreases results.len() - i,
        {
            let q = &results[i];
            proof {
                lemma_filter_take(results@, |q: QueryResult| gives_function_call(q), i as int);
            }
            let kind = match q.result_type {
                QueryResultType::FunctionCall => true,
                _ => false,
            };
            if kind {
                proof {
                    if text_any(q.captures@, function_name_keys()) is Some {
                        assert(gives_function_call(results@[i as int]));
                    }
                }
                match Self::result_to_function_call(q) {
                    Some(x) => {
                        out.push(x);
                    },
                    None => {},
                }
            }
            i = i + 1;
        }
        assert(results@.take(results@.len() as int) =~= results@);
        out
    }

    /// The call read from one result.
    fn result_to_function_call(result: &QueryResult) -> (r: Option<FunctionCallInfo>)
        requires
            text_any(result.captures@, function_name_keys()) matches Some(n) ==> call_arguments_safe(
                or_default(text_any(result.captures@, function_call_keys()), seq![]),
                n,
            ),
        ensures
            match r {
                Some(x) => is_function_call_from(x, *result),
                None => text_any(result.captures@, function_name_keys()) is None,
            },
    {
        let name_c = match result.capture3("expression.function.name", "function.name", "function_call.name") {
            Some(c) => c,
            None => {
                return None;
            },
        };
        proof {
            lemma_capture_any_in(result.captures@, function_name_keys());
        }
        let full = match result.capture3("expression.function_call", "function_call", "expression") {
            Some(c) => c.text.clone(),
            None => {
                proof {
                    reveal_strlit("");
                    assert(""@ =~= Seq::<char>::empty());
                }
                owned("")
            },
        };
        let arguments = Self::parse_function_call_arguments(full.as_str(), name_c.text.as_str());
        let nesting_level = Self::calculate_function_nesting(full.as_str());
        let has_nested_calls = Self::has_nested_function_calls(full.as_str());
        let first = match result.first_capture() {
            Some(f) => f,
            None => {
                return None;
            },
        };
        let mut call = FunctionCallInfo::new(name_c.text.clone(), arguments);
        call.position = Some(first.start_position);
        call.nesting_level = nesting_level;
        call.has_nested_calls = has_nested_calls;
        Some(call)
    }

    /// Arguments of the call of `function_name` written in `expression`.
    fn parse_function_call_arguments(expression: &str, function_name: &str) -> (r: Vec<FunctionArgument>)
        requires
            call_arguments_safe(expression@, function_name@),
        ensures
            r@.len() == spec_call_argument_values(expression@, function_name@).len(),
            forall|i: int|
                0 <= i < r@.len() ==> is_argument_of(
                    #[trigger] r@[i],
                    spec_call_argument_values(expression@, function_name@)[i],
                    i as usize,
                    true,
                ),
    {
        let mut arguments: Vec<FunctionArgument> = Vec::new();
        let pattern = concat(function_name, "(");
        match str_find(expression, pattern.as_str()) {
            Some(start) => {
                let v = chars_of(expression);
                proof {
                    lemma_find_from_occurs(expression@, pattern@, 0);
                }
                let name_len = chars_of(function_name).len();
                proof {
                    reveal_strlit("(");
                }
                assert(pattern@ == function_name@ + "("@);
                assert(start + name_len + 1 <= expression@.len());
                let args_start = start + name_len + 1;
                match rfind_char_exec(&v, ')') {
                    Some(end) => {
                        let args_text = substring(&v, args_start, end);
                        if !is_blank(args_text.as_str()) {
                            let parsed = Self::parse_function_arguments(args_text.as_str());
                            let ghost vals = spec_call_argument_values(expression@, function_name@);
                            let mut i: usize = 0;
                            while i < parsed.len()
                                invariant
                                    i <= parsed@.len(),
                                    strs(parsed@) == spec_parse_call_arguments(args_text@),
                                    vals == spec_parse_call_arguments(args_text@).map_values(|x: Seq<char>| trim(x)),
                                    arguments@.len() == i,
                                    forall|k: int|
                                        0 <= k < i ==> is_argument_of(#[trigger] arguments@[k], vals[k], k as usize, true),
                                decreases parsed.len() - i,
                            {
                                let value = str_trim(parsed[i].as_str());
                                assert(value@ == vals[i as int]);
                                arguments.push(FunctionArgument::new(value, i));
                                i = i + 1;
                            }
                        }
                    },
                    None => {},
                }
            },
            None => {},
        }
        arguments
    }

    /// Strings with the interpolations near them attached and marked.
    pub fn extract_strings_with_interpolations(string_results: &[QueryResult], interpolation_results: &[QueryResult]) -> (r:
        Vec<StringInfo>)
        requires
            strings_safe(string_results@),
        ensures
            exists|is: Seq<InterpolationInfo>|
                #[trigger] interpolations_read_from(is, interpolation_results@) && strings_with(
                    r@,
                    string_results@,
                    is,
                ),
    {
        let strings = Self::extract_strings(string_results);
        let interpolations = Self::extract_interpolations(interpolation_results);
        let ghost sources = string_results@.filter(|q: QueryResult| gives_string(q));
        let mut out: Vec<StringInfo> = Vec::new();
        let mut strings = strings;
        let n = strings.len();
        let ghost orig = strings@;
        let mut k: usize = 0;
        assert(orig.subrange(0, n as int) =~= orig);
        while k < n
            invariant
                n == sources.len(),
                orig.len() == n,
                strings@ == orig.subrange(k as int, n as int),
                k <= n,
                out@.len() == k,
                forall|j: int| k <= j < n ==> is_string_from(#[trigger] orig[j], sources[j]),
                forall|j: int| 0 <= j < k ==> is_string_with_interpolations(#[trigger] out@[j], sources[j], interpolations@),
            decreases n - k,
        {
            let mut s = strings.remove(0);
            assert(s == orig[k as int]);
            assert(strings@ =~= orig.subrange(k + 1, n as int));
            assert(is_string_from(s, sources[k as int]));
            match s.position {
                Some(sp) => {
                    let near = Self::interpolations_near_row(&interpolations, sp.0);
                    let processed = Self::process_string_with_interpolations(s.content.as_str(), &near);
                    s.interpolations = near;
                    s.processed_content = Some(processed);
                },
                None => {},
            }
            out.push(s);
            k = k + 1;
        }
        proof {
            assert(interpolations_read_from(interpolations@, interpolation_results@));
        }
        out
    }

    /// Copies of the interpolations that lie near a string starting on `row`.
    fn interpolations_near_row(interpolations: &Vec<InterpolationInfo>, row: usize) -> (r: Vec<InterpolationInfo>)
        ensures
            r@ == interpolations_near(interpolations@, row),
    {
        let mut out: Vec<InterpolationInfo> = Vec::new();
        let mut i: usize = 0;
        while i < interpolations.len()
            invariant
                i <= interpolations@.len(),
                out@ == interpolations_near(interpolations@.take(i as int), row),
            decreases interpolations.len() - i,
        {
            proof {
                lemma_filter_take(
                    interpolations@,
                    |i: InterpolationInfo| i.position matches Some(p) && near_row(row, p.0),
                    i as int,
                );
            }
            let it = &interpolations[i];
            match it.position {
                Some(p) => {
                    if row <= p.0 && p.0 - row <= 5 {
                        out.push(it.clone());
                    }
                },
                None => {},
            }
            i = i + 1;
        }
        assert(interpolations@.take(interpolations@.len() as int) =~= interpolations@);
        out
    }
}

} // verus!

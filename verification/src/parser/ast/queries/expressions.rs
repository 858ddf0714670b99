//! Conversion of query results into interpolation, string, expression,
//! conditional and function-call records.
use vstd::prelude::*;
use crate::text::{
    owned, push_str, contains, str_contains, starts_with, ends_with, replace, str_replace, chars_of,
    string_of, split_whitespace, words, count_char, count_char_exec, count_matches, count_matches_exec,
    unicode_alphabetic, unicode_numeric, char_is_alphabetic, char_is_numeric, str_eq,
};
use crate::sorted::{sorted_set_of, sorted_unique};
use crate::strmap::has_key;
use crate::parser::ast::queries::results::{
    QueryResult, QueryResultType, CaptureSeq, capture_any, text_any, lemma_capture_any_in,
};
use crate::parser::ast::queries::info::{
    InterpolationInfo, InterpolationType, InterpolationContext, StringInfo, StringType, ExpressionInfo,
    ExpressionType, ExpressionContext, strs,
};
use crate::parser::ast::queries::processor::{QueryResultProcessor, lemma_filter_take};

verus! {

// ---------------------------------------------------------------------------
// Nesting and shape of expressions
// ---------------------------------------------------------------------------

/// Greatest depth of parentheses reading `s` from `i` at depth `cur`,
/// closing parentheses never going below zero.
pub open spec fn paren_depth_from(s: Seq<char>, i: nat, cur: nat, deepest: nat) -> nat
    decreases s.len() - i,
{
    if i >= s.len() {
        deepest
    } else if s[i as int] == '(' {
        paren_depth_from(s, i + 1, cur + 1, if deepest < cur + 1 { cur + 1 } else { deepest })
    } else if s[i as int] == ')' {
        paren_depth_from(s, i + 1, if cur > 0 { (cur - 1) as nat } else { 0 }, deepest)
    } else {
        paren_depth_from(s, i + 1, cur, deepest)
    }
}

/// Nesting level of function calls: the greatest parenthesis depth, at least one.
pub open spec fn spec_function_nesting(s: Seq<char>) -> nat {
    paren_depth_from(s, 0, 0, 1)
}

/// Whether an expression holds an interpolation or more than one `if`.
pub open spec fn spec_has_nested_expressions(e: Seq<char>) -> bool {
    (contains(e, "{{"@) && contains(e, "}}"@)) || count_matches(e, "if"@) > 1
}

/// Whether an expression holds several balanced parentheses.
pub open spec fn spec_has_nested_calls(e: Seq<char>) -> bool {
    count_char(e, '(') > 1 && count_char(e, '(') == count_char(e, ')')
}

// ---------------------------------------------------------------------------
// Strings
// ---------------------------------------------------------------------------

/// The common backslash escapes replaced, one kind after another.
pub open spec fn spec_basic_escapes(c: Seq<char>) -> Seq<char> {
    replace(
        replace(
            replace(replace(replace(replace(c, "\\n"@, "\n"@), "\\t"@, "\t"@), "\\r"@, "\r"@), "\\\\"@, "\\"@),
            "\\\""@,
            "\""@,
        ),
        "\\'"@,
        "'"@,
    )
}

/// Surrounded by `d` at both ends.
pub open spec fn wrapped(t: Seq<char>, d: Seq<char>) -> bool {
    starts_with(t, d) && ends_with(t, d)
}

/// The text of a string literal without its delimiters, for the kind of
/// string the captures show.
pub open spec fn strip_delimiters(raw: Seq<char>, m: CaptureSeq) -> Seq<char> {
    if has_key(m, "string.multiline"@) {
        if wrapped(raw, "\"\"\""@) {
            raw.subrange(3, raw.len() - 3)
        } else {
            raw
        }
    } else if has_key(m, "string.external"@) {
        if wrapped(raw, "`"@) {
            raw.subrange(1, raw.len() - 1)
        } else {
            raw
        }
    } else if wrapped(raw, "\""@) || wrapped(raw, "'"@) {
        raw.subrange(1, raw.len() - 1)
    } else {
        raw
    }
}

/// Stripping the delimiters does not cut into them from both sides.
pub open spec fn delimiters_fit(raw: Seq<char>, m: CaptureSeq) -> bool {
    if has_key(m, "string.multiline"@) {
        wrapped(raw, "\"\"\""@) ==> raw.len() >= 6
    } else if has_key(m, "string.external"@) {
        wrapped(raw, "`"@) ==> raw.len() >= 2
    } else {
        (wrapped(raw, "\""@) || wrapped(raw, "'"@)) ==> raw.len() >= 2
    }
}

/// Content of a string literal: delimiters stripped, escapes replaced.
pub open spec fn spec_string_content(raw: Seq<char>, m: CaptureSeq) -> Seq<char> {
    spec_basic_escapes(strip_delimiters(raw, m))
}

/// Kind of string the captures show.
pub open spec fn spec_string_type(m: CaptureSeq) -> StringType {
    if has_key(m, "string.multiline"@) {
        StringType::Multiline
    } else if has_key(m, "string.external"@) || has_key(m, "string.command.body"@) {
        StringType::ExternalCommand
    } else if has_key(m, "string.with_interpolation"@) {
        StringType::Interpolated
    } else if has_key(m, "string.quoted"@) || has_key(m, "string.literal"@) {
        StringType::Quoted
    } else {
        StringType::Raw
    }
}

/// Each interpolation's full text replaced by a marker naming its expression,
/// for the first `n` interpolations in order.
pub open spec fn spec_mark_interpolations(content: Seq<char>, interps: Seq<InterpolationInfo>, n: nat) -> Seq<char>
    decreases n,
{
    if n == 0 || n > interps.len() {
        content
    } else {
        let before = spec_mark_interpolations(content, interps, (n - 1) as nat);
        let i = interps[n - 1];
        replace(before, i.full_text@, "[INTERPOLATION:"@ + i.expression@ + "]"@)
    }
}

// ---------------------------------------------------------------------------
// Interpolations and expressions
// ---------------------------------------------------------------------------

/// Kind of an interpolation from its expression and the kind of result.
pub open spec fn spec_interpolation_type(e: Seq<char>, t: QueryResultType) -> InterpolationType {
    if t == QueryResultType::VariableInterpolation {
        InterpolationType::Variable
    } else if e.contains('(') && e.contains(')') {
        InterpolationType::FunctionCall
    } else if contains(e, "if"@) && contains(e, "then"@) {
        InterpolationType::Conditional
    } else if e.contains('+') || e.contains('-') || e.contains('*') || e.contains('/') {
        InterpolationType::Arithmetic
    } else if t == QueryResultType::ExpressionInterpolation {
        InterpolationType::Expression
    } else {
        InterpolationType::Variable
    }
}

/// Where an interpolation appears, by the captures present.
pub open spec fn spec_interpolation_context(m: CaptureSeq) -> InterpolationContext {
    if has_key(m, "interpolation.default"@) {
        InterpolationContext::ParameterDefault
    } else if has_key(m, "interpolation.context.text"@) {
        InterpolationContext::RecipeBody
    } else if has_key(m, "interpolation.nested"@) {
        InterpolationContext::StringLiteral
    } else {
        InterpolationContext::Unknown
    }
}

/// Kind of an expression, by the kind of result and the captures present.
pub open spec fn spec_expression_type(q: QueryResult) -> ExpressionType {
    let m = q.captures@;
    match q.result_type {
        QueryResultType::FunctionCall => ExpressionType::FunctionCall,
        QueryResultType::BinaryExpression => ExpressionType::BinaryOperation,
        QueryResultType::ConditionalExpression => ExpressionType::Conditional,
        _ => if has_key(m, "expression.value.string"@) {
            ExpressionType::StringLiteral
        } else if has_key(m, "expression.value.identifier"@) {
            ExpressionType::Variable
        } else if has_key(m, "expression.external_cmd"@) {
            ExpressionType::ExternalCommand
        } else if has_key(m, "expression.paren"@) {
            ExpressionType::Parenthesized
        } else {
            ExpressionType::Unknown
        },
    }
}

/// Where an expression appears, by the captures present.
pub open spec fn spec_expression_context(m: CaptureSeq) -> ExpressionContext {
    if has_key(m, "expression.param.default"@) {
        ExpressionContext::ParameterDefault
    } else if has_key(m, "expression.assign.value"@) {
        ExpressionContext::Assignment
    } else if has_key(m, "expression.string.interpolation"@) {
        ExpressionContext::Interpolation
    } else {
        ExpressionContext::Unknown
    }
}

/// Words that are never variables of an expression.
pub open spec fn is_expression_keyword(w: Seq<char>) -> bool {
    w == "if"@ || w == "then"@ || w == "else"@ || w == "true"@ || w == "false"@ || w == "null"@
}

/// Appends the word `w` unless it is empty or a keyword.
pub open spec fn flush_identifier(ws: Seq<Seq<char>>, w: Seq<char>) -> Seq<Seq<char>> {
    if w.len() > 0 && !is_expression_keyword(w) {
        ws.push(w)
    } else {
        ws
    }
}

/// Reading identifiers: a letter or `_` starts or extends one, a digit
/// extends one, anything else ends it.
pub open spec fn identifier_step(st: (Seq<Seq<char>>, Seq<char>), ch: char) -> (Seq<Seq<char>>, Seq<char>) {
    if unicode_alphabetic(ch) || ch == '_' {
        (st.0, st.1.push(ch))
    } else if unicode_numeric(ch) && st.1.len() > 0 {
        (st.0, st.1.push(ch))
    } else {
        (flush_identifier(st.0, st.1), seq![])
    }
}

/// State after reading all of `s`.
pub open spec fn identifier_run(s: Seq<char>) -> (Seq<Seq<char>>, Seq<char>)
    decreases s.len(),
{
    if s.len() == 0 {
        (seq![], seq![])
    } else {
        identifier_step(identifier_run(s.drop_last()), s.last())
    }
}

/// Identifiers of an expression that are not keywords.
pub open spec fn spec_expression_variables(e: Seq<char>) -> Set<Seq<char>> {
    flush_identifier(identifier_run(e).0, identifier_run(e).1).to_set()
}

/// Whether an expression can be evaluated without variables.
pub open spec fn spec_is_static(e: Seq<char>, t: ExpressionType) -> bool {
    match t {
        ExpressionType::StringLiteral | ExpressionType::NumericLiteral | ExpressionType::BooleanLiteral => true,
        ExpressionType::Variable | ExpressionType::FunctionCall | ExpressionType::ExternalCommand => false,
        _ => !(exists|i: int| 0 <= i < e.len() && unicode_alphabetic(#[trigger] e[i])),
    }
}

// ---------------------------------------------------------------------------
// Records read from results
// ---------------------------------------------------------------------------

/// The value, or `d` when there is none.
pub open spec fn or_default(o: Option<Seq<char>>, d: Seq<char>) -> Seq<char> {
    match o {
        Some(x) => x,
        None => d,
    }
}

/// Captures holding an interpolation's expression.
pub open spec fn interpolation_expression_keys() -> Seq<Seq<char>> {
    seq!["interpolation.expression"@, "interpolation.var.name"@, "interpolation.expr.value"@]
}

/// Captures holding a whole interpolation.
pub open spec fn interpolation_full_keys() -> Seq<Seq<char>> {
    seq!["interpolation"@, "interpolation.variable"@, "interpolation.expression"@]
}

/// Results that give an interpolation.
pub open spec fn gives_interpolation(q: QueryResult) -> bool {
    (q.result_type == QueryResultType::Interpolation || q.result_type == QueryResultType::VariableInterpolation
        || q.result_type == QueryResultType::ExpressionInterpolation) && text_any(
        q.captures@,
        interpolation_expression_keys(),
    ) is Some && capture_any(q.captures@, interpolation_full_keys()) is Some
}

/// `x` is the interpolation read from `q`.
pub open spec fn is_interpolation_from(x: InterpolationInfo, q: QueryResult) -> bool {
    let m = q.captures@;
    match (text_any(m, interpolation_expression_keys()), capture_any(m, interpolation_full_keys())) {
        (Some(e), Some(c)) => {
            &&& x.expression@ == e
            &&& x.full_text@ == c.text@
            &&& x.interpolation_type == spec_interpolation_type(e, q.result_type)
            &&& x.position == Some(c.start_position)
            &&& x.is_nested == has_key(m, "interpolation.nested"@)
            &&& x.context == spec_interpolation_context(m)
        },
        _ => false,
    }
}

/// Captures holding a string literal.
pub open spec fn string_keys() -> Seq<Seq<char>> {
    seq!["string.literal"@, "string.quoted"@, "string.multiline"@, "string.external"@]
}

/// Results that give a string.
pub open spec fn gives_string(q: QueryResult) -> bool {
    (q.result_type == QueryResultType::StringLiteral || q.result_type == QueryResultType::InterpolatedString
        || q.result_type == QueryResultType::MultilineString || q.result_type == QueryResultType::ExternalCommand)
        && text_any(q.captures@, string_keys()) is Some
}

/// No string literal is cut into from both sides when its delimiters go.
pub open spec fn strings_safe(results: Seq<QueryResult>) -> bool {
    forall|i: int|
        0 <= i < results.len() && gives_string(#[trigger] results[i]) ==> delimiters_fit(
            text_any(results[i].captures@, string_keys())->0,
            results[i].captures@,
        )
}

/// `x` is the string read from `q`, before interpolations are attached.
pub open spec fn is_string_from(x: StringInfo, q: QueryResult) -> bool {
    let m = q.captures@;
    match text_any(m, string_keys()) {
        Some(raw) => {
            &&& m.len() > 0
            &&& x.raw_text@ == raw
            &&& x.content@ == spec_string_content(raw, m)
            &&& x.string_type == spec_string_type(m)
            &&& x.interpolations@.len() == 0
            &&& x.has_escapes == (has_key(m, "string.with_escapes"@) || raw.contains('\\'))
            &&& x.position == Some(m[0].1.start_position)
            &&& x.processed_content is None
        },
        None => false,
    }
}

/// Captures holding an expression.
pub open spec fn expression_keys() -> Seq<Seq<char>> {
    seq!["expression"@, "expression.value"@, "expression.function.name"@, "expression.binary.left"@]
}

/// Results that give an expression.
pub open spec fn gives_expression(q: QueryResult) -> bool {
    (q.result_type == QueryResultType::Expression || q.result_type == QueryResultType::FunctionCall
        || q.result_type == QueryResultType::BinaryExpression || q.result_type
        == QueryResultType::ConditionalExpression) && text_any(q.captures@, expression_keys()) is Some
}

/// `x` is the expression read from `q`.
pub open spec fn is_expression_from(x: ExpressionInfo, q: QueryResult) -> bool {
    let m = q.captures@;
    match text_any(m, expression_keys()) {
        Some(e) => {
            &&& m.len() > 0
            &&& x.expression@ == e
            &&& x.expression_type == spec_expression_type(q)
            &&& x.sub_expressions@.len() == 0
            &&& sorted_set_of(strs(x.variable_references@), spec_expression_variables(e))
            &&& x.position == Some(m[0].1.start_position)
            &&& x.is_static == spec_is_static(e, spec_expression_type(q))
            &&& x.context == spec_expression_context(m)
        },
        None => false,
    }
}

impl QueryResultProcessor {
    /// Nesting level of a conditional expression: the count of `if`, `then`
    /// and `else` words is capped at one, so it is always one.
    pub(crate) fn calculate_conditional_nesting(expression: &str) -> (r: usize)
        ensures
            r == 1,
    {
        let mut max_nesting: usize = 1;
        let mut current_nesting: usize = 0;
        let ws = split_whitespace(expression);
        let mut i: usize = 0;
        while i < ws.len()
            invariant
                i <= ws@.len(),
                current_nesting <= i,
                max_nesting >= 1,
            decreases ws.len() - i,
        {
            let w = ws[i].as_str();
            if str_eq(w, "if") || str_eq(w, "then") || str_eq(w, "else") {
                current_nesting = current_nesting + 1;
                if max_nesting < current_nesting {
                    max_nesting = current_nesting;
                }
            }
            i = i + 1;
        }
        let capped = if max_nesting < 1 {
            max_nesting
        } else {
            1
        };
        if capped < 1 {
            1
        } else {
            capped
        }
    }

    /// Greatest depth of parentheses, at least one.
    pub(crate) fn calculate_function_nesting(expression: &str) -> (r: usize)
        ensures
            r == spec_function_nesting(expression@),
    {
        let v = chars_of(expression);
        let mut deepest: usize = 1;
        let mut cur: usize = 0;
        let mut i: usize = 0;
        while i < v.len()
            invariant
                i <= v@.len(),
                v@ == expression@,
                cur <= i,
                1 <= deepest <= i + 1,
                spec_function_nesting(v@) == paren_depth_from(v@, i as nat, cur as nat, deepest as nat),
            decreases v.len() - i,
        {
            if v[i] == '(' {
                cur = cur + 1;
                if deepest < cur {
                    deepest = cur;
                }
            } else if v[i] == ')' {
                if cur > 0 {
                    cur = cur - 1;
                }
            }
            i = i + 1;
        }
        deepest
    }

    /// Whether an expression holds an interpolation or more than one `if`.
    pub(crate) fn has_nested_expressions(expression: &str) -> (b: bool)
        ensures
            b == spec_has_nested_expressions(expression@),
    {
        let v = chars_of(expression);
        let p = chars_of("if");
        (str_contains(expression, "{{") && str_contains(expression, "}}")) || count_matches_exec(&v, &p) > 1
    }

    /// Whether an expression holds several balanced parentheses.
    pub(crate) fn has_nested_function_calls(expression: &str) -> (b: bool)
        ensures
            b == spec_has_nested_calls(expression@),
    {
        let v = chars_of(expression);
        let open = count_char_exec(&v, '(');
        let close = count_char_exec(&v, ')');
        open > 1 && open == close
    }

    /// Replaces the common backslash escapes.
    fn process_escape_sequences(content: &str) -> (r: String)
        ensures
            r@ == spec_basic_escapes(content@),
    {
        let a = str_replace(content, "\\n", "\n");
        let b = str_replace(a.as_str(), "\\t", "\t");
        let c = str_replace(b.as_str(), "\\r", "\r");
        let d = str_replace(c.as_str(), "\\\\", "\\");
        let e = str_replace(d.as_str(), "\\\"", "\"");
        str_replace(e.as_str(), "\\'", "'")
    }

    /// Content of a string literal: delimiters stripped, escapes replaced.
    fn process_string_content(raw_text: &str, result: &QueryResult) -> (r: String)
        requires
            delimiters_fit(raw_text@, result.captures@),
        ensures
            r@ == spec_string_content(raw_text@, result.captures@),
    {
        let v = chars_of(raw_text);
        let n = v.len();
        let stripped = if result.has_capture("string.multiline") {
            if crate::text::str_starts_with(raw_text, "\"\"\"") && crate::text::str_ends_with(raw_text, "\"\"\"") {
                crate::text::substring(&v, 3, n - 3)
            } else {
                owned(raw_text)
            }
        } else if result.has_capture("string.external") {
            if crate::text::str_starts_with(raw_text, "`") && crate::text::str_ends_with(raw_text, "`") {
                crate::text::substring(&v, 1, n - 1)
            } else {
                owned(raw_text)
            }
        } else if (crate::text::str_starts_with(raw_text, "\"") && crate::text::str_ends_with(raw_text, "\""))
            || (crate::text::str_starts_with(raw_text, "'") && crate::text::str_ends_with(raw_text, "'")) {
            crate::text::substring(&v, 1, n - 1)
        } else {
            owned(raw_text)
        };
        Self::process_escape_sequences(stripped.as_str())
    }

    /// Kind of string the captures show.
    fn infer_string_type(result: &QueryResult) -> (t: StringType)
        ensures
            t == spec_string_type(result.captures@),
    {
        if result.has_capture("string.multiline") {
            StringType::Multiline
        } else if result.has_capture("string.external") || result.has_capture("string.command.body") {
            StringType::ExternalCommand
        } else if result.has_capture("string.with_interpolation") {
            StringType::Interpolated
        } else if result.has_capture("string.quoted") || result.has_capture("string.literal") {
            StringType::Quoted
        } else {
            StringType::Raw
        }
    }

    /// Kind of an interpolation from its expression and the kind of result.
    fn infer_interpolation_type(expression: &str, result: &QueryResult) -> (t: InterpolationType)
        ensures
            t == spec_interpolation_type(expression@, result.result_type),
    {
        let v = chars_of(expression);
        match result.result_type {
            QueryResultType::VariableInterpolation => {
                return InterpolationType::Variable;
            },
            _ => {},
        }
        if crate::text::has_char(&v, '(') && crate::text::has_char(&v, ')') {
            InterpolationType::FunctionCall
        } else if str_contains(expression, "if") && str_contains(expression, "then") {
            InterpolationType::Conditional
        } else if crate::text::has_char(&v, '+') || crate::text::has_char(&v, '-') || crate::text::has_char(&v, '*')
            || crate::text::has_char(&v, '/') {
            InterpolationType::Arithmetic
        } else {
            match result.result_type {
                QueryResultType::ExpressionInterpolation => InterpolationType::Expression,
                _ => InterpolationType::Variable,
            }
        }
    }

    /// Where an interpolation appears.
    fn infer_interpolation_context(result: &QueryResult) -> (c: InterpolationContext)
        ensures
            c == spec_interpolation_context(result.captures@),
    {
        if result.has_capture("interpolation.default") {
            InterpolationContext::ParameterDefault
        } else if result.has_capture("interpolation.context.text") {
            InterpolationContext::RecipeBody
        } else if result.has_capture("interpolation.nested") {
            InterpolationContext::StringLiteral
        } else {
            InterpolationContext::Unknown
        }
    }

    /// Kind of an expression.
    fn infer_expression_type(result: &QueryResult) -> (t: ExpressionType)
        ensures
            t == spec_expression_type(*result),
    {
        match result.result_type {
            QueryResultType::FunctionCall => ExpressionType::FunctionCall,
            QueryResultType::BinaryExpression => ExpressionType::BinaryOperation,
            QueryResultType::ConditionalExpression => ExpressionType::Conditional,
            _ => if result.has_capture("expression.value.string") {
                ExpressionType::StringLiteral
            } else if result.has_capture("expression.value.identifier") {
                ExpressionType::Variable
            } else if result.has_capture("expression.external_cmd") {
                ExpressionType::ExternalCommand
            } else if result.has_capture("expression.paren") {
                ExpressionType::Parenthesized
            } else {
                ExpressionType::Unknown
            },
        }
    }

    /// Where an expression appears.
    fn infer_expression_context(result: &QueryResult) -> (c: ExpressionContext)
        ensures
            c == spec_expression_context(result.captures@),
    {
        if result.has_capture("expression.param.default") {
            ExpressionContext::ParameterDefault
        } else if result.has_capture("expression.assign.value") {
            ExpressionContext::Assignment
        } else if result.has_capture("expression.string.interpolation") {
            ExpressionContext::Interpolation
        } else {
            ExpressionContext::Unknown
        }
    }

    /// Whether a word is never a variable of an expression.
    fn is_keyword(word: &str) -> (b: bool)
        ensures
            b == is_expression_keyword(word@),
    {
        str_eq(word, "if") || str_eq(word, "then") || str_eq(word, "else") || str_eq(word, "true") || str_eq(
            word,
            "false",
        ) || str_eq(word, "null")
    }

    /// Identifiers of an expression that are not keywords, sorted, each once.
    fn extract_expression_variables(expression: &str, _result: &QueryResult) -> (r: Vec<String>)
        ensures
            sorted_set_of(strs(r@), spec_expression_variables(expression@)),
    {
        let v = chars_of(expression);
        let mut found: Vec<String> = Vec::new();
        let mut cur: Vec<char> = Vec::new();
        let mut i: usize = 0;
        while i < v.len()
            invariant
                i <= v@.len(),
                v@ == expression@,
                identifier_run(v@.take(i as int)) == (strs(found@), cur@),
            decreases v.len() - i,
        {
            let ch = v[i];
            proof {
                assert(v@.take(i + 1).drop_last() =~= v@.take(i as int));
                assert(v@.take(i + 1).last() == ch);
            }
            if char_is_alphabetic(ch) || ch == '_' {
                cur.push(ch);
            } else if char_is_numeric(ch) && cur.len() > 0 {
                cur.push(ch);
            } else {
                let w = string_of(&cur);
                if cur.len() > 0 && !Self::is_keyword(w.as_str()) {
                    let ghost prev = found@;
                    found.push(w);
                    assert(strs(found@) =~= strs(prev).push(cur@));
                }
                cur = Vec::new();
            }
            assert(identifier_run(v@.take(i + 1)) == (strs(found@), cur@));
            i = i + 1;
        }
        assert(v@.take(v@.len() as int) =~= v@);
        let w = string_of(&cur);
        if cur.len() > 0 && !Self::is_keyword(w.as_str()) {
            let ghost prev = found@;
            found.push(w);
            assert(strs(found@) =~= strs(prev).push(cur@));
        }
        sorted_unique(found)
    }

    /// Whether an expression can be evaluated without variables.
    fn is_static_expression(expression: &str, expr_type: &ExpressionType) -> (b: bool)
        ensures
            b == spec_is_static(expression@, *expr_type),
    {
        match expr_type {
            ExpressionType::StringLiteral | ExpressionType::NumericLiteral | ExpressionType::BooleanLiteral => true,
            ExpressionType::Variable | ExpressionType::FunctionCall | ExpressionType::ExternalCommand => false,
            _ => !Self::has_letter(expression),
        }
    }

    /// Whether some character is alphabetic.
    fn has_letter(expression: &str) -> (b: bool)
        ensures
            b == exists|i: int| 0 <= i < expression@.len() && unicode_alphabetic(#[trigger] expression@[i]),
    {
        let v = chars_of(expression);
        let mut i: usize = 0;
        while i < v.len()
            invariant
                i <= v@.len(),
                v@ == expression@,
                forall|j: int| 0 <= j < i ==> !unicode_alphabetic(#[trigger] v@[j]),
            decreases v.len() - i,
        {
            if char_is_alphabetic(v[i]) {
                assert(unicode_alphabetic(expression@[i as int]));
                return true;
            }
            i = i + 1;
        }
        false
    }

    /// Each interpolation's full text replaced by a marker naming its expression.
    pub(crate) fn process_string_with_interpolations(content: &str, interpolations: &Vec<InterpolationInfo>) -> (r: String)
        ensures
            r@ == spec_mark_interpolations(content@, interpolations@, interpolations@.len() as nat),
    {
        let mut processed = owned(content);
        let mut i: usize = 0;
        while i < interpolations.len()
            invariant
                i <= interpolations@.len(),
                processed@ == spec_mark_interpolations(content@, interpolations@, i as nat),
            decreases interpolations.len() - i,
        {
            let it = &interpolations[i];
            let mut placeholder = owned("[INTERPOLATION:");
            push_str(&mut placeholder, it.expression.as_str());
            push_str(&mut placeholder, "]");
            processed = str_replace(processed.as_str(), it.full_text.as_str(), placeholder.as_str());
            i = i + 1;
        }
        processed
    }

    /// The interpolations given by the interpolation results, in order.
    pub fn extract_interpolations(results: &[QueryResult]) -> (r: Vec<InterpolationInfo>)
        ensures
            r@.len() == results@.filter(|q: QueryResult| gives_interpolation(q)).len(),
            forall|k: int|
                0 <= k < r@.len() ==> is_interpolation_from(
                    #[trigger] r@[k],
                    results@.filter(|q: QueryResult| gives_interpolation(q))[k],
                ),
    {
        let mut out: Vec<InterpolationInfo> = Vec::new();
        let mut i: usize = 0;
        while i < results.len()
            invariant
                i <= results@.len(),
                out@.len() == results@.take(i as int).filter(|q: QueryResult| gives_interpolation(q)).len(),
                forall|k: int|
                    0 <= k < out@.len() ==> is_interpolation_from(
                        #[trigger] out@[k],
                        results@.take(i as int).filter(|q: QueryResult| gives_interpolation(q))[k],
                    ),
            decreases results.len() - i,
        {
            let q = &results[i];
            proof {
                lemma_filter_take(results@, |q: QueryResult| gives_interpolation(q), i as int);
            }
            let kind = match q.result_type {
                QueryResultType::Interpolation => true,
                QueryResultType::VariableInterpolation => true,
                QueryResultType::ExpressionInterpolation => true,
                _ => false,
            };
            if kind {
                match Self::result_to_interpolation(q) {
                    Some(x) => {
                        out.push(x);
                    },
                    None => {},
                }
            }
            i = i + 1;
        }
        assert(results@.take(results@.len() as int) =~= results@);
        out
    }

    /// The interpolation read from one result.
    fn result_to_interpolation(result: &QueryResult) -> (r: Option<InterpolationInfo>)
        ensures
            match r {
                Some(x) => is_interpolation_from(x, *result),
                None => text_any(result.captures@, interpolation_expression_keys()) is None || capture_any(
                    result.captures@,
                    interpolation_full_keys(),
                ) is None,
            },
    {
        let e = match result.capture3("interpolation.expression", "interpolation.var.name", "interpolation.expr.value") {
            Some(c) => c,
            None => {
                return None;
            },
        };
        let f = match result.capture3("interpolation", "interpolation.variable", "interpolation.expression") {
            Some(c) => c,
            None => {
                return None;
            },
        };
        let interpolation_type = Self::infer_interpolation_type(e.text.as_str(), result);
        Some(
            InterpolationInfo {
                expression: e.text.clone(),
                full_text: f.text.clone(),
                interpolation_type,
                position: Some(f.start_position),
                is_nested: result.has_capture("interpolation.nested"),
                context: Self::infer_interpolation_context(result),
            },
        )
    }

    /// The strings given by the string results, in order.
    pub fn extract_strings(results: &[QueryResult]) -> (r: Vec<StringInfo>)
        requires
            strings_safe(results@),
        ensures
            r@.len() == results@.filter(|q: QueryResult| gives_string(q)).len(),
            forall|k: int|
                0 <= k < r@.len() ==> is_string_from(#[trigger] r@[k], results@.filter(|q: QueryResult| gives_string(q))[k]),
    {
        let mut out: Vec<StringInfo> = Vec::new();
        let mut i: usize = 0;
        while i < results.len()
            invariant
                i <= results@.len(),
                strings_safe(results@),
                out@.len() == results@.take(i as int).filter(|q: QueryResult| gives_string(q)).len(),
                forall|k: int|
                    0 <= k < out@.len() ==> is_string_from(
                        #[trigger] out@[k],
                        results@.take(i as int).filter(|q: QueryResult| gives_string(q))[k],
                    ),
            decreases results.len() - i,
        {
            let q = &results[i];
            proof {
                lemma_filter_take(results@, |q: QueryResult| gives_string(q), i as int);
            }
            let kind = match q.result_type {
                QueryResultType::StringLiteral => true,
                QueryResultType::InterpolatedString => true,
                QueryResultType::MultilineString => true,
                QueryResultType::ExternalCommand => true,
                _ => false,
            };
            if kind {
                proof {
                    if text_any(q.captures@, string_keys()) is Some {
                        assert(gives_string(results@[i as int]));
                    }
                }
                match Self::result_to_string(q) {
                    Some(x) => {
                        out.push(x);
                    },
                    None => {},
                }
            }
            i = i + 1;
        }
        assert(results@.take(results@.len() as int) =~= results@);
        out
    }

    /// The string read from one result.
    fn result_to_string(result: &QueryResult) -> (r: Option<StringInfo>)
        requires
            text_any(result.captures@, string_keys()) matches Some(raw) ==> delimiters_fit(raw, result.captures@),
        ensures
            match r {
                Some(x) => is_string_from(x, *result),
                None => text_any(result.captures@, string_keys()) is None,
            },
    {
        match result.capture4("string.literal", "string.quoted", "string.multiline", "string.external") {
            None => None,
            Some(c) => {
                proof {
                    lemma_capture_any_in(result.captures@, string_keys());
                }
                let raw = c.text.as_str();
                let content = Self::process_string_content(raw, result);
                let string_type = Self::infer_string_type(result);
                let rv = chars_of(raw);
                let has_escapes = result.has_capture("string.with_escapes") || crate::text::has_char(&rv, '\\');
                match result.first_capture() {
                    None => None,
                    Some(f) => Some(
                        StringInfo {
                            content,
                            raw_text: c.text.clone(),
                            string_type,
                            interpolations: Vec::new(),
                            has_escapes,
                            position: Some(f.start_position),
                            processed_content: None,
                        },
                    ),
                }
            },
        }
    }

    /// The expressions given by the expression results, in order.
    pub fn extract_expressions(results: &[QueryResult]) -> (r: Vec<ExpressionInfo>)
        ensures
            r@.len() == results@.filter(|q: QueryResult| gives_expression(q)).len(),
            forall|k: int|
                0 <= k < r@.len() ==> is_expression_from(
                    #[trigger] r@[k],
                    results@.filter(|q: QueryResult| gives_expression(q))[k],
                ),
    {
        let mut out: Vec<ExpressionInfo> = Vec::new();
        let mut i: usize = 0;
        while i < results.len()
            invariant
                i <= results@.len(),
                out@.len() == results@.take(i as int).filter(|q: QueryResult| gives_expression(q)).len(),
                forall|k: int|
                    0 <= k < out@.len() ==> is_expression_from(
                        #[trigger] out@[k],
                        results@.take(i as int).filter(|q: QueryResult| gives_expression(q))[k],
                    ),
            decreases results.len() - i,
        {
            let q = &results[i];
            proof {
                lemma_filter_take(results@, |q: QueryResult| gives_expression(q), i as int);
            }
            let kind = match q.result_type {
                QueryResultType::Expression => true,
                QueryResultType::FunctionCall => true,
                QueryResultType::BinaryExpression => true,
                QueryResultType::ConditionalExpression => true,
                _ => false,
            };
            if kind {
                match Self::result_to_expression(q) {
                    Some(x) => {
                        out.push(x);
                    },
                    None => {},
                }
            }
            i = i + 1;
        }
        assert(results@.take(results@.len() as int) =~= results@);
        out
    }

    /// The expression read from one result.
    fn result_to_expression(result: &QueryResult) -> (r: Option<ExpressionInfo>)
        ensures
            match r {
                Some(x) => is_expression_from(x, *result),
                None => text_any(result.captures@, expression_keys()) is None,
            },
    {
        match result.capture4("expression", "expression.value", "expression.function.name", "expression.binary.left") {
            None => None,
            Some(c) => {
                proof {
                    lemma_capture_any_in(result.captures@, expression_keys());
                }
                let expression_type = Self::infer_expression_type(result);
                let variable_references = Self::extract_expression_variables(c.text.as_str(), result);
                let is_static = Self::is_static_expression(c.text.as_str(), &expression_type);
                let context = Self::infer_expression_context(result);
                match result.first_capture() {
                    None => None,
                    Some(f) => Some(
                        ExpressionInfo {
                            expression: c.text.clone(),
                            expression_type,
                            sub_expressions: Vec::new(),
                            variable_references,
                            position: Some(f.start_position),
                            is_static,
                            context,
                        },
                    ),
                }
            },
        }
    }
}

} // verus!

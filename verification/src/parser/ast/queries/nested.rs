//! Nested `{{ ... }}` interpolations: extraction, brace balance and depth.
use vstd::prelude::*;
use crate::text::{
    trim, contains, chars_of, string_of, sub_chars, str_trim, str_contains, has_char, decimal,
    usize_to_string, owned, push_str,
};
use crate::parser::ast::queries::info::{InterpolationInfo, InterpolationType, InterpolationContext};

verus! {

/// Extracts and checks interpolations that may contain further interpolations.
pub struct NestedInterpolationProcessor;

/// `{{` starts at index `i` of `s`.
pub open spec fn opens_at(s: Seq<char>, i: int) -> bool {
    0 <= i && i + 1 < s.len() && s[i] == '{' && s[i + 1] == '{'
}

/// `}}` starts at index `i` of `s`.
pub open spec fn closes_at(s: Seq<char>, i: int) -> bool {
    0 <= i && i + 1 < s.len() && s[i] == '}' && s[i + 1] == '}'
}

/// Reading `s` from `i` with `count` interpolations open, the index just past
/// the `}}` that closes the outermost one; `None` when the text ends first.
pub open spec fn close_scan(s: Seq<char>, i: nat, count: nat) -> Option<nat>
    decreases s.len() - i,
{
    if i >= s.len() {
        None
    } else if opens_at(s, i as int) {
        close_scan(s, i + 2, count + 1)
    } else if closes_at(s, i as int) {
        if count <= 1 {
            Some(i + 2)
        } else {
            close_scan(s, i + 2, (count - 1) as nat)
        }
    } else {
        close_scan(s, i + 1, count)
    }
}

/// A closing index lies past the start and within the text.
pub proof fn lemma_close_scan_bounds(s: Seq<char>, i: nat, count: nat)
    ensures
        close_scan(s, i, count) matches Some(e) ==> i + 2 <= e <= s.len(),
    decreases s.len() - i,
{
    if i >= s.len() {
    } else if opens_at(s, i as int) {
        lemma_close_scan_bounds(s, i + 2, count + 1);
    } else if closes_at(s, i as int) {
        if count > 1 {
            lemma_close_scan_bounds(s, i + 2, (count - 1) as nat);
        }
    } else {
        lemma_close_scan_bounds(s, i + 1, count);
    }
}

/// Kind of an interpolated expression, judged by its trimmed text.
pub open spec fn spec_classify(expr: Seq<char>) -> InterpolationType {
    let t = trim(expr);
    if t.contains('(') && t.contains(')') {
        InterpolationType::FunctionCall
    } else if contains(t, "if"@) && contains(t, "then"@) {
        InterpolationType::Conditional
    } else if t.contains('+') || t.contains('-') || t.contains('*') || t.contains('/') {
        InterpolationType::Arithmetic
    } else if contains(t, "{{"@) || t.contains('(') || t.contains(')') || t.contains('[')
        || t.contains(']') || t.contains('{') || t.contains('}') {
        InterpolationType::Expression
    } else {
        InterpolationType::Variable
    }
}

/// What an extracted interpolation records: expression, full text, kind,
/// rough (line, column) position, nesting flag and context.
pub type InterpolationView = (
    Seq<char>,
    Seq<char>,
    InterpolationType,
    Option<(usize, usize)>,
    bool,
    InterpolationContext,
);

/// The view of an extracted interpolation.
pub open spec fn interpolation_view(info: InterpolationInfo) -> InterpolationView {
    (
        info.expression@,
        info.full_text@,
        info.interpolation_type,
        info.position,
        info.is_nested,
        info.context,
    )
}

/// The record for the interpolation spanning `s[start..end]`. Its position
/// counts lines of eighty characters. An interpolation's own braces balance
/// where it closes, so it is never marked nested.
pub open spec fn found_at(s: Seq<char>, start: nat, end: nat) -> InterpolationView {
    let expr = s.subrange((start + 2) as int, end - 2 as int);
    (
        expr,
        s.subrange(start as int, end as int),
        spec_classify(expr),
        Some(((start / 80) as usize, (start % 80) as usize)),
        false,
        InterpolationContext::StringLiteral,
    )
}

/// Every interpolation of `s` from index `i` on, left to right; each one is
/// followed by those nested inside its expression.
pub open spec fn all_interpolations(s: Seq<char>, i: nat) -> Seq<InterpolationView>
    decreases s.len(), s.len() - i,
{
    if i >= s.len() {
        seq![]
    } else if opens_at(s, i as int) {
        match close_scan(s, i + 2, 1) {
            None => seq![],
            Some(e) => {
                proof {
                    lemma_close_scan_bounds(s, i + 2, 1);
                }
                let expr = s.subrange((i + 2) as int, e - 2 as int);
                let inner = if contains(expr, "{{"@) {
                    all_interpolations(expr, 0)
                } else {
                    seq![]
                };
                seq![found_at(s, i, e)] + inner + all_interpolations(s, e)
            },
        }
    } else {
        all_interpolations(s, i + 1)
    }
}

/// Reading `s` from `i` with the start positions of the open `{{` on
/// `stack`: the stack at the end, or the position of an unmatched `}}`.
pub open spec fn balance_scan(s: Seq<char>, i: nat, stack: Seq<nat>) -> Result<Seq<nat>, nat>
    decreases s.len() - i,
{
    if i >= s.len() {
        Ok(stack)
    } else if opens_at(s, i as int) {
        balance_scan(s, i + 2, stack.push(i))
    } else if closes_at(s, i as int) {
        if stack.len() == 0 {
            Err(i)
        } else {
            balance_scan(s, i + 2, stack.drop_last())
        }
    } else {
        balance_scan(s, i + 1, stack)
    }
}

/// Outcome of the brace-balance check of a template.
pub open spec fn spec_validate_nested(s: Seq<char>) -> Result<(), Seq<char>> {
    match balance_scan(s, 0, seq![]) {
        Err(p) => Err("Unmatched '}' at position "@ + decimal(p)),
        Ok(stack) => if stack.len() > 0 {
            Err("Unclosed '{{' at position "@ + decimal(stack[0]))
        } else {
            Ok(())
        },
    }
}

/// Reading `s` from `i` at depth `cur` having seen depth `deepest`: the
/// greatest depth reached, or the first depth above `limit`.
pub open spec fn depth_scan(s: Seq<char>, i: nat, cur: nat, deepest: nat, limit: nat) -> Result<nat, nat>
    decreases s.len() - i,
{
    if i >= s.len() {
        Ok(deepest)
    } else if opens_at(s, i as int) {
        if cur + 1 > limit {
            Err(cur + 1)
        } else {
            depth_scan(s, i + 2, cur + 1, if deepest < cur + 1 { cur + 1 } else { deepest }, limit)
        }
    } else if closes_at(s, i as int) {
        depth_scan(s, i + 2, if cur > 0 { (cur - 1) as nat } else { 0 }, deepest, limit)
    } else {
        depth_scan(s, i + 1, cur, deepest, limit)
    }
}

/// Message for a depth above the limit.
pub open spec fn depth_message(depth: nat, limit: nat) -> Seq<char> {
    "Nesting depth "@ + decimal(depth) + " exceeds maximum allowed depth "@ + decimal(limit)
}

/// Whether `{{` starts at `i` in `v`.
fn opens_exec(v: &Vec<char>, i: usize) -> (r: bool)
    ensures
        r == opens_at(v@, i as int),
{
    i < v.len() && v.len() - i > 1 && v[i] == '{' && v[i + 1] == '{'
}

/// Whether `}}` starts at `i` in `v`.
fn closes_exec(v: &Vec<char>, i: usize) -> (r: bool)
    ensures
        r == closes_at(v@, i as int),
{
    i < v.len() && v.len() - i > 1 && v[i] == '}' && v[i + 1] == '}'
}

/// `close_scan` from `start` with one interpolation open.
fn find_close(v: &Vec<char>, start: usize) -> (r: Option<usize>)
    requires
        start <= v.len(),
    ensures
        match r {
            Some(e) => close_scan(v@, start as nat, 1) == Some(e as nat),
            None => close_scan(v@, start as nat, 1) is None,
        },
{
    let mut i: usize = start;
    let mut count: usize = 1;
    while i < v.len()
        invariant
            start <= i <= v.len(),
            1 <= count <= i + 1,
            close_scan(v@, start as nat, 1) == close_scan(v@, i as nat, count as nat),
        decreases v.len() - i,
    {
        if opens_exec(v, i) {
            count = count + 1;
            i = i + 2;
        } else if closes_exec(v, i) {
            if count <= 1 {
                return Some(i + 2);
            }
            count = count - 1;
            i = i + 2;
        } else {
            i = i + 1;
        }
    }
    None
}

/// Interpolations of the characters `v`, nested ones included.
fn interpolations_in(v: &Vec<char>) -> (r: Vec<InterpolationInfo>)
    ensures
        r@.map_values(|x: InterpolationInfo| interpolation_view(x)) == all_interpolations(v@, 0),
    decreases v.len(),
{
    let mut out: Vec<InterpolationInfo> = Vec::new();
    let mut i: usize = 0;
    while i < v.len()
        invariant
            i <= v.len(),
            out@.map_values(|x: InterpolationInfo| interpolation_view(x)) + all_interpolations(v@, i as nat)
                == all_interpolations(v@, 0),
        decreases v.len() - i,
    {
        let ghost before = out@.map_values(|x: InterpolationInfo| interpolation_view(x));
        if opens_exec(v, i) {
            match find_close(v, i + 2) {
                None => {
                    assert(all_interpolations(v@, i as nat) == Seq::<InterpolationView>::empty());
                    assert(all_interpolations(v@, v.len() as nat) == Seq::<InterpolationView>::empty());
                    i = v.len();
                },
                Some(e) => {
                    proof {
                        lemma_close_scan_bounds(v@, (i + 2) as nat, 1);
                    }
                    let expr_c = sub_chars(v, i + 2, e - 2);
                    let full_c = sub_chars(v, i, e);
                    let expr = string_of(&expr_c);
                    let ty = NestedInterpolationProcessor::classify_interpolation_type(expr.as_str());
                    let has_inner = str_contains(expr.as_str(), "{{");
                    let info = InterpolationInfo {
                        expression: expr,
                        full_text: string_of(&full_c),
                        interpolation_type: ty,
                        position: Some((i / 80, i % 80)),
                        is_nested: false,
                        context: InterpolationContext::StringLiteral,
                    };
                    out.push(info);
                    let ghost with_here = out@.map_values(|x: InterpolationInfo| interpolation_view(x));
                    assert(with_here =~= before + seq![found_at(v@, i as nat, e as nat)]);
                    let ghost inner: Seq<InterpolationView> = if has_inner {
                        all_interpolations(expr_c@, 0)
                    } else {
                        seq![]
                    };
                    if has_inner {
                        let mut nested = interpolations_in(&expr_c);
                        out.append(&mut nested);
                    }
                    assert(out@.map_values(|x: InterpolationInfo| interpolation_view(x)) =~= with_here + inner);
                    assert(all_interpolations(v@, i as nat) == seq![found_at(v@, i as nat, e as nat)] + inner
                        + all_interpolations(v@, e as nat));
                    assert(out@.map_values(|x: InterpolationInfo| interpolation_view(x)) + all_interpolations(v@, e as nat)
                        =~= before + all_interpolations(v@, i as nat));
                    i = e;
                },
            }
        } else {
            i = i + 1;
        }
    }
    out
}

impl NestedInterpolationProcessor {
    /// All interpolations of `template` with those nested inside them, each
    /// followed by its nested ones.
    pub fn extract_all_interpolations(template: &str) -> (r: Vec<InterpolationInfo>)
        ensures
            r@.map_values(|x: InterpolationInfo| interpolation_view(x)) == all_interpolations(template@, 0),
    {
        let v = chars_of(template);
        interpolations_in(&v)
    }

    /// Kind of an interpolated expression.
    pub fn classify_interpolation_type(expr: &str) -> (r: InterpolationType)
        ensures
            r == spec_classify(expr@),
    {
        let ts = str_trim(expr);
        let t = ts.as_str();
        let tc = chars_of(t);
        if has_char(&tc, '(') && has_char(&tc, ')') {
            InterpolationType::FunctionCall
        } else if str_contains(t, "if") && str_contains(t, "then") {
            InterpolationType::Conditional
        } else if has_char(&tc, '+') || has_char(&tc, '-') || has_char(&tc, '*') || has_char(&tc, '/') {
            InterpolationType::Arithmetic
        } else if str_contains(t, "{{") || has_char(&tc, '(') || has_char(&tc, ')') || has_char(&tc, '[')
            || has_char(&tc, ']') || has_char(&tc, '{') || has_char(&tc, '}') {
            InterpolationType::Expression
        } else {
            InterpolationType::Variable
        }
    }

    /// Checks that every `{{` of `template` is closed and every `}}` opened.
    pub fn validate_nested_syntax(template: &str) -> (r: Result<(), String>)
        ensures
            match r {
                Ok(()) => spec_validate_nested(template@) is Ok,
                Err(e) => spec_validate_nested(template@) == Err::<(), Seq<char>>(e@),
            },
    {
        let v = chars_of(template);
        let mut stack: Vec<usize> = Vec::new();
        let mut i: usize = 0;
        assert(stack@.map_values(|p: usize| p as nat) =~= Seq::<nat>::empty());
        while i < v.len()
            invariant
                i <= v.len(),
                v@ == template@,
                balance_scan(v@, 0, seq![]) == balance_scan(v@, i as nat, stack@.map_values(|p: usize| p as nat)),
            decreases v.len() - i,
        {
            let ghost st = stack@.map_values(|p: usize| p as nat);
            if opens_exec(&v, i) {
                stack.push(i);
                assert(stack@.map_values(|p: usize| p as nat) =~= st.push(i as nat));
                i = i + 2;
            } else if closes_exec(&v, i) {
                if stack.len() == 0 {
                    let mut msg = owned("Unmatched '}' at position ");
                    let n = usize_to_string(i);
                    push_str(&mut msg, n.as_str());
                    return Err(msg);
                }
                stack.pop();
                assert(stack@.map_values(|p: usize| p as nat) =~= st.drop_last());
                i = i + 2;
            } else {
                i = i + 1;
            }
        }
        if stack.len() > 0 {
            let mut msg = owned("Unclosed '{{' at position ");
            let n = usize_to_string(stack[0]);
            push_str(&mut msg, n.as_str());
            return Err(msg);
        }
        Ok(())
    }

    /// Greatest nesting depth of `{{` in `expr`, or an error at the first
    /// depth above `max_depth`.
    pub fn check_nesting_depth(expr: &str, max_depth: usize) -> (r: Result<usize, String>)
        ensures
            match r {
                Ok(d) => depth_scan(expr@, 0, 0, 0, max_depth as nat) == Ok::<nat, nat>(d as nat),
                Err(e) => depth_scan(expr@, 0, 0, 0, max_depth as nat) matches Err(d) && e@ == depth_message(
                    d,
                    max_depth as nat,
                ),
            },
    {
        let v = chars_of(expr);
        let mut cur: usize = 0;
        let mut deepest: usize = 0;
        let mut i: usize = 0;
        while i < v.len()
            invariant
                i <= v.len(),
                v@ == expr@,
                cur <= i,
                deepest <= i,
                depth_scan(v@, 0, 0, 0, max_depth as nat) == depth_scan(
                    v@,
                    i as nat,
                    cur as nat,
                    deepest as nat,
                    max_depth as nat,
                ),
            decreases v.len() - i,
        {
            if opens_exec(&v, i) {
                cur = cur + 1;
                if deepest < cur {
                    deepest = cur;
                }
                if cur > max_depth {
                    let mut msg = owned("Nesting depth ");
                    let a = usize_to_string(cur);
                    push_str(&mut msg, a.as_str());
                    push_str(&mut msg, " exceeds maximum allowed depth ");
                    let b = usize_to_string(max_depth);
                    push_str(&mut msg, b.as_str());
                    return Err(msg);
                }
                i = i + 2;
            } else if closes_exec(&v, i) {
                if cur > 0 {
                    cur = cur - 1;
                }
                i = i + 2;
            } else {
                i = i + 1;
            }
        }
        Ok(deepest)
    }
}

} // verus!

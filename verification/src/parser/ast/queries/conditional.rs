//! `if ... then ... else ...` and ternary conditional expressions.
use vstd::prelude::*;
use crate::text::{
    owned, push_str, trim, str_trim, contains, str_contains, words, split_whitespace, join, join_strings,
    starts_with, str_starts_with, find_char, find_char_exec, chars_of, trim_chars, string_of,
};
use crate::sorted::sorted_set_of;
use crate::parser::ast::queries::info::{strs, opt_str};
use crate::parser::ast::queries::vars::{word_variables, word_vars, sorted_union};
use crate::parser::ast::queries::evaluator::ExpressionEvaluator;

verus! {

/// Kind of a conditional expression.
#[derive(Debug, Clone, Copy, PartialEq, Eq)]
pub enum ConditionalType {
    IfThen,
    IfThenElse,
    Ternary,
    Match,
    Unknown,
}

/// A conditional expression with its parts and the variables they use.
#[derive(Debug, PartialEq)]
pub struct ConditionalExpressionInfo {
    pub full_expression: String,
    pub condition: String,
    pub true_branch: String,
    pub false_branch: Option<String>,
    pub conditional_type: ConditionalType,
    /// Variables of the condition, sorted.
    pub condition_variables: Vec<String>,
    /// Variables of the branches, sorted.
    pub branch_variables: Vec<String>,
    pub position: Option<(usize, usize)>,
    pub nesting_level: usize,
    pub has_nested_expressions: bool,
}

/// Text of a conditional of the given kind.
pub open spec fn conditional_text(kind: ConditionalType, c: Seq<char>, t: Seq<char>, f: Seq<char>) -> Seq<char> {
    match kind {
        ConditionalType::IfThen => "if "@ + c + " then "@ + t,
        ConditionalType::Ternary => c + " ? "@ + t + " : "@ + f,
        _ => "if "@ + c + " then "@ + t + " else "@ + f,
    }
}

/// `info` is the conditional of kind `kind` built from condition `c`, branch
/// `t` and optional else branch `f`, as the constructors build it.
pub open spec fn is_conditional_of(
    info: ConditionalExpressionInfo,
    kind: ConditionalType,
    c: Seq<char>,
    t: Seq<char>,
    f: Option<Seq<char>>,
) -> bool {
    &&& info.conditional_type == kind
    &&& info.full_expression@ == conditional_text(kind, c, t, match f { Some(x) => x, None => seq![] })
    &&& info.condition@ == c
    &&& info.true_branch@ == t
    &&& opt_str(info.false_branch) == f
    &&& sorted_set_of(strs(info.condition_variables@), word_variables(c, true))
    &&& sorted_set_of(strs(info.branch_variables@), match f {
        Some(x) => word_variables(t, true).union(word_variables(x, true)),
        None => word_variables(t, true),
    })
    &&& info.position is None
    &&& info.nesting_level == 1
    &&& !info.has_nested_expressions
}

/// Whether the conditional is well formed.
pub open spec fn spec_conditional_valid(i: ConditionalExpressionInfo) -> bool {
    i.condition@.len() > 0 && i.true_branch@.len() > 0 && (i.conditional_type == ConditionalType::IfThen
        || i.false_branch is Some)
}

/// Messages explaining why a conditional is malformed.
pub open spec fn spec_conditional_errors(i: ConditionalExpressionInfo) -> Seq<Seq<char>> {
    (if i.condition@.len() == 0 { seq!["Conditional expression missing condition"@] } else { seq![] })
        + (if i.true_branch@.len() == 0 { seq!["Conditional expression missing true branch"@] } else { seq![] })
        + (if (i.conditional_type == ConditionalType::IfThenElse || i.conditional_type == ConditionalType::Ternary)
        && i.false_branch is None {
        seq!["If-then-else conditional missing false branch"@]
    } else {
        seq![]
    }) + (if i.nesting_level > 5 { seq!["Conditional expression nesting too deep (limit: 5)"@] } else { seq![] })
}

/// Display text of a conditional.
pub open spec fn spec_conditional_display(i: ConditionalExpressionInfo) -> Seq<char> {
    let f = match i.false_branch {
        Some(x) => x@,
        None => seq![],
    };
    match i.conditional_type {
        ConditionalType::IfThen => "if "@ + i.condition@ + " then "@ + i.true_branch@,
        ConditionalType::IfThenElse => "if "@ + i.condition@ + " then "@ + i.true_branch@ + " else "@ + f,
        ConditionalType::Ternary => i.condition@ + " ? "@ + i.true_branch@ + " : "@ + f,
        _ => i.full_expression@,
    }
}

/// First position of `w` in `ws`.
pub open spec fn word_index(ws: Seq<Seq<char>>, w: Seq<char>) -> Option<nat>
    decreases ws.len(),
{
    if ws.len() == 0 {
        None
    } else if ws[0] == w {
        Some(0)
    } else {
        match word_index(ws.drop_first(), w) {
            Some(k) => Some(k + 1),
            None => None,
        }
    }
}

/// Parts of `c ? t : f`, split at the first `?` and the first `:` after it.
pub open spec fn ternary_parts(t: Seq<char>) -> Option<(Seq<char>, Seq<char>, Seq<char>)> {
    if contains(t, "?"@) && contains(t, ":"@) {
        match find_char(t, '?') {
            Some(q) => {
                let rest = t.subrange((q + 1) as int, t.len() as int);
                match find_char(rest, ':') {
                    Some(k) => Some((trim(t.subrange(0, q as int)), trim(rest.subrange(0, k as int)), trim(
                        rest.subrange((k + 1) as int, rest.len() as int),
                    ))),
                    None => None,
                }
            },
            None => None,
        }
    } else {
        None
    }
}

/// Outcome of parsing a conditional: the kind and its parts, or nothing.
pub open spec fn spec_parse_conditional(e: Seq<char>) -> Option<(ConditionalType, Seq<char>, Seq<char>, Option<Seq<char>>)> {
    let t = trim(e);
    match ternary_parts(t) {
        Some((c, a, b)) => Some((ConditionalType::Ternary, c, a, Some(b))),
        None => {
            if starts_with(t, "if "@) {
                let ws = words(t);
                match word_index(ws, "then"@) {
                    Some(tp) => {
                        let c = join(ws.subrange(1, tp as int), " "@);
                        match word_index(ws, "else"@) {
                            Some(ep) => Some((
                                ConditionalType::IfThenElse,
                                c,
                                join(ws.subrange((tp + 1) as int, ep as int), " "@),
                                Some(join(ws.subrange((ep + 1) as int, ws.len() as int), " "@)),
                            )),
                            None => Some((ConditionalType::IfThen, c, join(ws.subrange((tp + 1) as int, ws.len() as int), " "@), None)),
                        }
                    },
                    None => None,
                }
            } else {
                None
            }
        },
    }
}

/// The parse does not slice the words backwards (`else` before `then`).
pub open spec fn conditional_parse_safe(e: Seq<char>) -> bool {
    let t = trim(e);
    ternary_parts(t) is Some || !starts_with(t, "if "@) || match (word_index(words(t), "then"@), word_index(words(t), "else"@)) {
        (Some(tp), Some(ep)) => tp < ep,
        _ => true,
    }
}

/// `word_index` finds the first occurrence.
pub proof fn lemma_word_index(ws: Seq<Seq<char>>, w: Seq<char>)
    ensures
        word_index(ws, w) matches Some(k) ==> k < ws.len() && ws[k as int] == w && forall|j: int| 0 <= j < k ==> ws[j] != w,
        word_index(ws, w) is None ==> forall|j: int| 0 <= j < ws.len() ==> ws[j] != w,
    decreases ws.len(),
{
    if ws.len() > 0 {
        lemma_word_index(ws.drop_first(), w);
        if ws[0] != w {
            assert forall|j: int| 1 <= j < ws.len() implies ws[j] == ws.drop_first()[j - 1] by {}
        }
    }
}

/// Position of `w` among `ws`.
fn word_index_exec(ws: &Vec<String>, w: &str) -> (r: Option<usize>)
    ensures
        r matches Some(k) ==> word_index(strs(ws@), w@) == Some(k as nat),
        r is None ==> word_index(strs(ws@), w@) is None,
{
    let ghost all = strs(ws@);
    let mut i: usize = 0;
    proof {
        lemma_word_index(all, w@);
    }
    while i < ws.len()
        invariant
            i <= ws@.len(),
            all == strs(ws@),
            forall|j: int| 0 <= j < i ==> all[j] != w@,
        decreases ws.len() - i,
    {
        if crate::text::str_eq(ws[i].as_str(), w) {
            proof {
                lemma_word_index(all, w@);
                if word_index(all, w@) is None {
                    assert(all[i as int] == w@);
                }
            }
            return Some(i);
        }
        i = i + 1;
    }
    None
}

/// Words `ws[a..b]` joined by single spaces.
fn join_words(ws: &Vec<String>, a: usize, b: usize) -> (r: String)
    requires
        a <= b <= ws@.len(),
    ensures
        r@ == join(strs(ws@).subrange(a as int, b as int), " "@),
{
    let mut part: Vec<String> = Vec::new();
    let mut i: usize = a;
    while i < b
        invariant
            a <= i <= b <= ws@.len(),
            part@ == ws@.subrange(a as int, i as int),
        decreases b - i,
    {
        part.push(ws[i].clone());
        i = i + 1;
        assert(part@ =~= ws@.subrange(a as int, i as int));
    }
    assert(strs(part@) =~= strs(ws@).subrange(a as int, b as int));
    join_strings(&part, " ")
}

impl ConditionalExpressionInfo {
    /// `if condition then branch`.
    pub fn if_then(condition: String, true_branch: String) -> (i: Self)
        ensures
            is_conditional_of(i, ConditionalType::IfThen, condition@, true_branch@, None),
    {
        let mut full = owned("if ");
        push_str(&mut full, condition.as_str());
        push_str(&mut full, " then ");
        push_str(&mut full, true_branch.as_str());
        let condition_variables = word_vars(condition.as_str(), true);
        let branch_variables = word_vars(true_branch.as_str(), true);
        ConditionalExpressionInfo {
            full_expression: full,
            condition,
            true_branch,
            false_branch: None,
            conditional_type: ConditionalType::IfThen,
            condition_variables,
            branch_variables,
            position: None,
            nesting_level: 1,
            has_nested_expressions: false,
        }
    }

    /// `if condition then branch else other`.
    pub fn if_then_else(condition: String, true_branch: String, false_branch: String) -> (i: Self)
        ensures
            is_conditional_of(i, ConditionalType::IfThenElse, condition@, true_branch@, Some(false_branch@)),
    {
        let mut full = owned("if ");
        push_str(&mut full, condition.as_str());
        push_str(&mut full, " then ");
        push_str(&mut full, true_branch.as_str());
        push_str(&mut full, " else ");
        push_str(&mut full, false_branch.as_str());
        let condition_variables = word_vars(condition.as_str(), true);
        let true_vars = word_vars(true_branch.as_str(), true);
        let false_vars = word_vars(false_branch.as_str(), true);
        let branch_variables = sorted_union(&true_vars, &false_vars);
        ConditionalExpressionInfo {
            full_expression: full,
            condition,
            true_branch,
            false_branch: Some(false_branch),
            conditional_type: ConditionalType::IfThenElse,
            condition_variables,
            branch_variables,
            position: None,
            nesting_level: 1,
            has_nested_expressions: false,
        }
    }

    /// `condition ? branch : other`.
    pub fn ternary(condition: String, true_branch: String, false_branch: String) -> (i: Self)
        ensures
            is_conditional_of(i, ConditionalType::Ternary, condition@, true_branch@, Some(false_branch@)),
    {
        let mut full = condition.clone();
        push_str(&mut full, " ? ");
        push_str(&mut full, true_branch.as_str());
        push_str(&mut full, " : ");
        push_str(&mut full, false_branch.as_str());
        let mut info = Self::if_then_else(condition, true_branch, false_branch);
        info.conditional_type = ConditionalType::Ternary;
        info.full_expression = full;
        info
    }

    /// Whether there is an else branch.
    pub fn has_else_branch(&self) -> (b: bool)
        ensures
            b == (self.false_branch is Some),
    {
        self.false_branch.is_some()
    }

    /// Variables of the condition and of the branches, sorted, each once.
    pub fn get_all_variables(&self) -> (r: Vec<String>)
        ensures
            sorted_set_of(strs(r@), strs(self.condition_variables@).to_set().union(strs(self.branch_variables@).to_set())),
    {
        sorted_union(&self.condition_variables, &self.branch_variables)
    }

    /// Whether the condition and the branch are present, and the else branch where the kind needs one.
    pub fn is_valid(&self) -> (b: bool)
        ensures
            b == spec_conditional_valid(*self),
    {
        !self.condition.as_str().is_empty() && !self.true_branch.as_str().is_empty() && (
        match self.conditional_type {
            ConditionalType::IfThen => true,
            _ => false,
        } || self.false_branch.is_some())
    }

    /// Messages explaining why the conditional is malformed.
    pub fn validation_errors(&self) -> (errors: Vec<String>)
        ensures
            strs(errors@) == spec_conditional_errors(*self),
    {
        let mut errors: Vec<String> = Vec::new();
        if self.condition.as_str().is_empty() {
            errors.push(owned("Conditional expression missing condition"));
        }
        if self.true_branch.as_str().is_empty() {
            errors.push(owned("Conditional expression missing true branch"));
        }
        let needs_else = match self.conditional_type {
            ConditionalType::IfThenElse | ConditionalType::Ternary => true,
            _ => false,
        };
        if needs_else && self.false_branch.is_none() {
            errors.push(owned("If-then-else conditional missing false branch"));
        }
        if self.nesting_level > 5 {
            errors.push(owned("Conditional expression nesting too deep (limit: 5)"));
        }
        assert(strs(errors@) =~= spec_conditional_errors(*self));
        errors
    }

    /// Display text of the conditional.
    pub fn format_display(&self) -> (s: String)
        ensures
            s@ == spec_conditional_display(*self),
    {
        let f = match &self.false_branch {
            Some(x) => x.clone(),
            None => String::new(),
        };
        match self.conditional_type {
            ConditionalType::IfThen => {
                let mut s = owned("if ");
                push_str(&mut s, self.condition.as_str());
                push_str(&mut s, " then ");
                push_str(&mut s, self.true_branch.as_str());
                s
            },
            ConditionalType::IfThenElse => {
                let mut s = owned("if ");
                push_str(&mut s, self.condition.as_str());
                push_str(&mut s, " then ");
                push_str(&mut s, self.true_branch.as_str());
                push_str(&mut s, " else ");
                push_str(&mut s, f.as_str());
                s
            },
            ConditionalType::Ternary => {
                let mut s = self.condition.clone();
                push_str(&mut s, " ? ");
                push_str(&mut s, self.true_branch.as_str());
                push_str(&mut s, " : ");
                push_str(&mut s, f.as_str());
                s
            },
            _ => self.full_expression.clone(),
        }
    }
}

impl ExpressionEvaluator {
    /// Parses `c ? t : f` or `if c then t [else f]`.
    pub fn parse_conditional_expression(expr: &str) -> (r: Result<ConditionalExpressionInfo, String>)
        requires
            conditional_parse_safe(expr@),
        ensures
            r matches Ok(info) ==> spec_parse_conditional(expr@) matches Some((k, c, t, f)) && is_conditional_of(info, k, c, t, f),
            r matches Err(e) ==> spec_parse_conditional(expr@) is None && e@ == "Cannot parse conditional expression: "@ + expr@,
    {
        let ts = str_trim(expr);
        let t = ts.as_str();
        let tv = chars_of(t);
        if str_contains(t, "?") && str_contains(t, ":") {
            proof {
                crate::text::lemma_find_char_from(tv@, '?', 0);
            }
            match find_char_exec(&tv, '?') {
                Some(q) => {
                    let rest = crate::text::sub_chars(&tv, q + 1, tv.len());
                    proof {
                        crate::text::lemma_find_char_from(rest@, ':', 0);
                    }
                    match find_char_exec(&rest, ':') {
                        Some(k) => {
                            let c = crate::text::sub_chars(&tv, 0, q);
                            let a = crate::text::sub_chars(&rest, 0, k);
                            let b = crate::text::sub_chars(&rest, k + 1, rest.len());
                            let cs = string_of(&trim_chars(&c));
                            let as_ = string_of(&trim_chars(&a));
                            let bs = string_of(&trim_chars(&b));
                            return Ok(Self::ternary_info(cs, as_, bs));
                        },
                        None => {},
                    }
                },
                None => {},
            }
        }
        assert(ternary_parts(trim(expr@)) is None);
        if str_starts_with(t, "if ") {
            let ws = split_whitespace(t);
            assert(ws@.map_values(|x: String| x@) =~= strs(ws@));
            match word_index_exec(&ws, "then") {
                Some(tp) => {
                    proof {
                        lemma_word_index(strs(ws@), "then"@);
                        lemma_word_index(strs(ws@), "if"@);
                        crate::text::lemma_words_if_prefix(t@);
                    }
                    let c = join_words(&ws, 1, tp);
                    match word_index_exec(&ws, "else") {
                        Some(ep) => {
                            proof {
                                lemma_word_index(strs(ws@), "else"@);
                            }
                            let a = join_words(&ws, tp + 1, ep);
                            let b = join_words(&ws, ep + 1, ws.len());
                            return Ok(ConditionalExpressionInfo::if_then_else(c, a, b));
                        },
                        None => {
                            let a = join_words(&ws, tp + 1, ws.len());
                            return Ok(ConditionalExpressionInfo::if_then(c, a));
                        },
                    }
                },
                None => {},
            }
        }
        let mut e = owned("Cannot parse conditional expression: ");
        push_str(&mut e, expr);
        Err(e)
    }

    /// Builds a ternary conditional.
    fn ternary_info(c: String, a: String, b: String) -> (i: ConditionalExpressionInfo)
        ensures
            is_conditional_of(i, ConditionalType::Ternary, c@, a@, Some(b@)),
    {
        ConditionalExpressionInfo::ternary(c, a, b)
    }
}

// ---------------------------------------------------------------------------
// Reading back what the constructors write
// ---------------------------------------------------------------------------

/// A plain word: non-empty, of ASCII letters, digits and `_`.
pub open spec fn is_plain_word(w: Seq<char>) -> bool {
    &&& w.len() > 0
    &&& forall|i: int|
        0 <= i < w.len() ==> crate::text::is_ascii_letter(#[trigger] w[i]) || crate::text::is_digit(w[i]) || w[i]
            == '_'
}

/// A plain word that is none of the keywords `if`, `then` and `else`.
pub open spec fn is_operand(w: Seq<char>) -> bool {
    is_plain_word(w) && w != "if"@ && w != "then"@ && w != "else"@
}

/// A plain word holds no blank, `?` or `:`.
proof fn lemma_plain_chars(w: Seq<char>, i: int)
    requires
        is_plain_word(w),
        0 <= i < w.len(),
    ensures
        !crate::text::is_ws(w[i]),
        w[i] != '?',
        w[i] != ':',
        w[i] != ' ',
{
    assert(crate::text::is_ascii_letter(w[i]) || crate::text::is_digit(w[i]) || w[i] == '_');
}

/// Within `a + b`, the word end found from inside `b` is shifted by `a`.
proof fn lemma_word_end_shift(a: Seq<char>, b: Seq<char>, i: nat)
    requires
        i <= b.len(),
    ensures
        crate::text::word_end(a + b, (a.len() + i) as nat) == a.len() + crate::text::word_end(b, i),
    decreases b.len() - i,
{
    if i < b.len() {
        assert((a + b)[(a.len() + i) as int] == b[i as int]);
        if !crate::text::is_ws(b[i as int]) {
            lemma_word_end_shift(a, b, i + 1);
        }
    }
}

/// Within `a + b`, the words found from inside `b` are those of `b`.
proof fn lemma_words_from_shift(a: Seq<char>, b: Seq<char>, i: nat)
    requires
        i <= b.len(),
    ensures
        crate::text::words_from(a + b, (a.len() + i) as nat) == crate::text::words_from(b, i),
    decreases b.len() - i,
{
    let s = a + b;
    let j = (a.len() + i) as nat;
    if i < b.len() {
        assert(s[j as int] == b[i as int]);
        if crate::text::is_ws(b[i as int]) {
            lemma_words_from_shift(a, b, i + 1);
        } else {
            lemma_word_end_shift(a, b, i);
            crate::text::lemma_word_end_bounds(b, i);
            crate::text::lemma_word_end_bounds(s, j);
            let e = crate::text::word_end(b, i);
            assert(s.subrange(j as int, crate::text::word_end(s, j) as int) =~= b.subrange(i as int, e as int));
            if e > i {
                lemma_words_from_shift(a, b, e);
            }
            assert(crate::text::words_from_end(s, j) == crate::text::words_from(s, crate::text::word_end(s, j)));
            assert(crate::text::words_from_end(b, i) == crate::text::words_from(b, e));
        }
    }
}

/// The run of non-blanks of a plain word ends where the word does.
proof fn lemma_word_end_plain(w: Seq<char>, rest: Seq<char>, i: nat)
    requires
        is_plain_word(w),
        i <= w.len(),
        rest.len() == 0 || crate::text::is_ws(rest[0]),
    ensures
        crate::text::word_end(w + rest, i) == w.len(),
    decreases w.len() - i,
{
    let s = w + rest;
    if i < w.len() {
        lemma_plain_chars(w, i as int);
        assert(s[i as int] == w[i as int]);
        lemma_word_end_plain(w, rest, i + 1);
    } else if rest.len() > 0 {
        assert(s[i as int] == rest[0]);
    }
}

/// The words of a plain word followed by a blank and more text are the
/// word and the words of the rest.
proof fn lemma_words_cons(w: Seq<char>, rest: Seq<char>)
    requires
        is_plain_word(w),
    ensures
        crate::text::words(w + " "@ + rest) == seq![w] + crate::text::words(rest),
{
    reveal_strlit(" ");
    let s = w + " "@ + rest;
    assert(s =~= w + (" "@ + rest));
    lemma_plain_chars(w, 0);
    assert(s[0] == w[0]);
    lemma_word_end_plain(w, " "@ + rest, 0);
    assert(s.subrange(0, w.len() as int) =~= w);
    assert(s[w.len() as int] == ' ');
    assert(crate::text::is_ws(' '));
    assert(crate::text::words_from(s, w.len()) == crate::text::words_from(s, w.len() + 1));
    lemma_words_from_shift(w + " "@, rest, 0);
    assert(s =~= (w + " "@) + rest);
    assert(crate::text::words_from(s, (w.len() + 1) as nat) == crate::text::words_from(rest, 0));
    assert(crate::text::words_from_end(s, 0) == crate::text::words_from(s, w.len()));
    assert(crate::text::words_from(s, 0) == seq![s.subrange(0, w.len() as int)] + crate::text::words_from_end(s, 0));
}

/// The words of a plain word are that word alone.
proof fn lemma_words_single(w: Seq<char>)
    requires
        is_plain_word(w),
    ensures
        crate::text::words(w) == seq![w],
{
    lemma_plain_chars(w, 0);
    lemma_word_end_plain(w, seq![], 0);
    assert(w + Seq::<char>::empty() =~= w);
    assert(w.subrange(0, w.len() as int) =~= w);
    assert(crate::text::words_from(w, w.len()) =~= Seq::<Seq<char>>::empty());
    assert(crate::text::words_from_end(w, 0) == crate::text::words_from(w, w.len()));
    assert(crate::text::words_from(w, 0) == seq![w.subrange(0, w.len() as int)] + crate::text::words_from_end(w, 0));
    assert(seq![w] + Seq::<Seq<char>>::empty() =~= seq![w]);
}

/// Neither `?` nor `:` occurs in `s`.
pub open spec fn no_ternary_marks(s: Seq<char>) -> bool {
    forall|i: int| 0 <= i < s.len() ==> #[trigger] s[i] != '?' && s[i] != ':'
}

/// A plain word, with or without a blank on either side, trims to itself.
proof fn lemma_trim_padded(w: Seq<char>)
    requires
        is_plain_word(w),
    ensures
        trim(w) == w,
        trim(w + " "@) == w,
        trim(" "@ + w) == w,
        trim(" "@ + w + " "@) == w,
{
    reveal_strlit(" ");
    lemma_plain_chars(w, 0);
    lemma_plain_chars(w, w.len() - 1);
    crate::text::lemma_trim_identity(w);
    let a = w + " "@;
    assert(a.last() == ' ');
    assert(a.drop_last() =~= w);
    assert(a[0] == w[0]);
    assert(crate::text::trim_start(a) == a);
    assert(crate::text::trim_end(a) == crate::text::trim_end(w));
    assert(crate::text::trim_start(w) == w);
    let b = " "@ + w;
    assert(b[0] == ' ');
    assert(b.drop_first() =~= w);
    assert(crate::text::trim_start(b) == crate::text::trim_start(w));
    let c = " "@ + w + " "@;
    assert(c[0] == ' ');
    assert(c.drop_first() =~= a);
    assert(crate::text::trim_start(c) == crate::text::trim_start(a));
}

/// A text in which `?` does not occur does not contain `?`, and the same
/// for `:`.
proof fn lemma_no_marks(s: Seq<char>)
    requires
        no_ternary_marks(s),
    ensures
        !contains(s, "?"@),
        !contains(s, ":"@),
{
    reveal_strlit("?");
    reveal_strlit(":");
    crate::text::lemma_find_from_occurs(s, "?"@, 0);
    crate::text::lemma_find_from_occurs(s, ":"@, 0);
    if contains(s, "?"@) {
        let k = crate::text::find_from(s, "?"@, 0)->0 as int;
        assert(s.subrange(k, k + 1)[0] == s[k]);
    }
    if contains(s, ":"@) {
        let k = crate::text::find_from(s, ":"@, 0)->0 as int;
        assert(s.subrange(k, k + 1)[0] == s[k]);
    }
}

/// An occurrence at or after `i` is found from `i`.
proof fn lemma_occurs_found(s: Seq<char>, p: Seq<char>, i: nat, k: int)
    requires
        i <= k,
        crate::text::occurs_at(s, p, k),
    ensures
        crate::text::find_from(s, p, i) is Some,
    decreases k - i,
{
    if i < k && s.subrange(i as int, (i + p.len()) as int) != p {
        lemma_occurs_found(s, p, i + 1, k);
    }
}

/// A text in which character `m` occurs at `k` contains it, and its first
/// `m` is at `k` when none comes before.
proof fn lemma_mark_found(s: Seq<char>, m: char, k: int)
    requires
        0 <= k < s.len(),
        s[k] == m,
    ensures
        contains(s, seq![m]),
        (forall|j: int| 0 <= j < k ==> s[j] != m) ==> crate::text::find_char(s, m) == Some(k as nat),
{
    crate::text::lemma_find_char_from(s, m, 0);
    assert(s.subrange(k, k + 1) =~= seq![m]);
    lemma_occurs_found(s, seq![m], 0, k);
}

/// Plain words hold no ternary marks, and neither do the words joined by
/// the keyword texts.
proof fn lemma_plain_no_marks(w: Seq<char>)
    requires
        is_plain_word(w),
    ensures
        no_ternary_marks(w),
{
    assert forall|i: int| 0 <= i < w.len() implies #[trigger] w[i] != '?' && w[i] != ':' by {
        lemma_plain_chars(w, i);
    }
}

/// `if c then t` reads back as that conditional.
proof fn lemma_if_then_reads_back(c: Seq<char>, t: Seq<char>)
    requires
        is_operand(c),
        is_operand(t),
    ensures
        spec_parse_conditional(conditional_text(ConditionalType::IfThen, c, t, seq![])) == Some(
            (ConditionalType::IfThen, c, t, None::<Seq<char>>),
        ),
        conditional_parse_safe(conditional_text(ConditionalType::IfThen, c, t, seq![])),
{
    reveal_strlit("if ");
    reveal_strlit(" then ");
    reveal_strlit("if");
    reveal_strlit("then");
    reveal_strlit("else");
    reveal_strlit(" ");
    let e = conditional_text(ConditionalType::IfThen, c, t, seq![]);
    assert(e == "if "@ + c + " then "@ + t);
    lemma_trim_padded(t);
    lemma_plain_chars(t, t.len() - 1);
    assert(e[0] == 'i');
    assert(e.last() == t.last());
    crate::text::lemma_trim_identity(e);
    lemma_plain_no_marks(c);
    lemma_plain_no_marks(t);
    assert(no_ternary_marks(e)) by {
        assert forall|i: int| 0 <= i < e.len() implies #[trigger] e[i] != '?' && e[i] != ':' by {
            if i < 3 {
            } else if i < 3 + c.len() {
                assert(e[i] == c[i - 3]);
            } else if i < 9 + c.len() {
            } else {
                assert(e[i] == t[i - 9 - c.len()]);
            }
        }
    }
    lemma_no_marks(e);
    assert(e.subrange(0, 3) =~= "if "@);
    let ifw = "if"@;
    assert(is_plain_word(ifw));
    assert(is_plain_word("then"@));
    assert(e =~= ifw + " "@ + (c + " "@ + ("then"@ + " "@ + t)));
    lemma_words_cons(ifw, c + " "@ + ("then"@ + " "@ + t));
    lemma_words_cons(c, "then"@ + " "@ + t);
    lemma_words_cons("then"@, t);
    lemma_words_single(t);
    let ws = crate::text::words(e);
    assert(ws =~= seq![ifw, c, "then"@, t]);
    reveal_with_fuel(word_index, 5);
    assert(ws.drop_first() =~= seq![c, "then"@, t]);
    assert(ws.drop_first().drop_first() =~= seq!["then"@, t]);
    assert(ws.drop_first().drop_first().drop_first() =~= seq![t]);
    assert(ws.drop_first().drop_first().drop_first().drop_first() =~= Seq::<Seq<char>>::empty());
    assert("if"@ != "then"@);
    assert("if"@ != "else"@);
    assert("then"@ != "else"@) by {
        assert("then"@.len() == 4 && "else"@.len() == 4);
        assert("then"@[0] != "else"@[0]);
    }
    assert(word_index(ws, "then"@) == Some(2nat));
    assert(word_index(ws, "else"@) is None);
    assert(ws.subrange(1, 2) =~= seq![c]);
    assert(ws.subrange(3, 4) =~= seq![t]);
}

/// `if c then t else f` reads back as that conditional.
proof fn lemma_if_then_else_reads_back(c: Seq<char>, t: Seq<char>, f: Seq<char>)
    requires
        is_operand(c),
        is_operand(t),
        is_operand(f),
    ensures
        spec_parse_conditional(conditional_text(ConditionalType::IfThenElse, c, t, f)) == Some(
            (ConditionalType::IfThenElse, c, t, Some(f)),
        ),
        conditional_parse_safe(conditional_text(ConditionalType::IfThenElse, c, t, f)),
{
    reveal_strlit("if ");
    reveal_strlit(" then ");
    reveal_strlit(" else ");
    reveal_strlit("if");
    reveal_strlit("then");
    reveal_strlit("else");
    reveal_strlit(" ");
    let e = conditional_text(ConditionalType::IfThenElse, c, t, f);
    assert(e == "if "@ + c + " then "@ + t + " else "@ + f);
    lemma_plain_chars(f, f.len() - 1);
    assert(e[0] == 'i');
    assert(e.last() == f.last());
    crate::text::lemma_trim_identity(e);
    lemma_plain_no_marks(c);
    lemma_plain_no_marks(t);
    lemma_plain_no_marks(f);
    assert(no_ternary_marks(e)) by {
        assert forall|i: int| 0 <= i < e.len() implies #[trigger] e[i] != '?' && e[i] != ':' by {
            let n1 = 3 + c.len();
            let n2 = n1 + 6;
            let n3 = n2 + t.len();
            let n4 = n3 + 6;
            if i < 3 {
            } else if i < n1 {
                assert(e[i] == c[i - 3]);
            } else if i < n2 {
            } else if i < n3 {
                assert(e[i] == t[i - n2]);
            } else if i < n4 {
            } else {
                assert(e[i] == f[i - n4]);
            }
        }
    }
    lemma_no_marks(e);
    assert(e.subrange(0, 3) =~= "if "@);
    let ifw = "if"@;
    assert(is_plain_word(ifw));
    assert(is_plain_word("then"@));
    assert(is_plain_word("else"@));
    assert(e =~= ifw + " "@ + (c + " "@ + ("then"@ + " "@ + (t + " "@ + ("else"@ + " "@ + f)))));
    lemma_words_cons(ifw, c + " "@ + ("then"@ + " "@ + (t + " "@ + ("else"@ + " "@ + f))));
    lemma_words_cons(c, "then"@ + " "@ + (t + " "@ + ("else"@ + " "@ + f)));
    lemma_words_cons("then"@, t + " "@ + ("else"@ + " "@ + f));
    lemma_words_cons(t, "else"@ + " "@ + f);
    lemma_words_cons("else"@, f);
    lemma_words_single(f);
    let ws = crate::text::words(e);
    assert(ws =~= seq![ifw, c, "then"@, t, "else"@, f]);
    reveal_with_fuel(word_index, 7);
    assert(ws.drop_first() =~= seq![c, "then"@, t, "else"@, f]);
    assert(ws.drop_first().drop_first() =~= seq!["then"@, t, "else"@, f]);
    assert(ws.drop_first().drop_first().drop_first() =~= seq![t, "else"@, f]);
    assert(ws.drop_first().drop_first().drop_first().drop_first() =~= seq!["else"@, f]);
    assert("if"@ != "then"@);
    assert("if"@ != "else"@);
    assert("then"@ != "else"@) by {
        assert("then"@[0] != "else"@[0]);
    }
    assert(word_index(ws, "then"@) == Some(2nat));
    assert(word_index(ws, "else"@) == Some(4nat));
    assert(ws.subrange(1, 2) =~= seq![c]);
    assert(ws.subrange(3, 4) =~= seq![t]);
    assert(ws.subrange(5, 6) =~= seq![f]);
}

/// `c ? t : f` reads back as that conditional.
proof fn lemma_ternary_reads_back(c: Seq<char>, t: Seq<char>, f: Seq<char>)
    requires
        is_operand(c),
        is_operand(t),
        is_operand(f),
    ensures
        spec_parse_conditional(conditional_text(ConditionalType::Ternary, c, t, f)) == Some(
            (ConditionalType::Ternary, c, t, Some(f)),
        ),
        conditional_parse_safe(conditional_text(ConditionalType::Ternary, c, t, f)),
{
    reveal_strlit(" ? ");
    reveal_strlit(" : ");
    reveal_strlit("?");
    reveal_strlit(":");
    reveal_strlit(" ");
    let e = conditional_text(ConditionalType::Ternary, c, t, f);
    assert(e == c + " ? "@ + t + " : "@ + f);
    lemma_plain_chars(c, 0);
    lemma_plain_chars(f, f.len() - 1);
    assert(e[0] == c[0]);
    assert(e.last() == f.last());
    crate::text::lemma_trim_identity(e);
    lemma_plain_no_marks(c);
    lemma_plain_no_marks(t);
    let q: int = c.len() as int + 1;
    assert(e[q] == '?');
    assert forall|j: int| 0 <= j < q implies e[j] != '?' by {
        if j < c.len() {
            assert(e[j] == c[j]);
        }
    }
    lemma_mark_found(e, '?', q);
    assert("?"@ =~= seq!['?']);
    let rest = e.subrange(q + 1, e.len() as int);
    assert(rest =~= " "@ + t + " : "@ + f);
    let k: int = t.len() as int + 2;
    assert(rest[k] == ':');
    assert forall|j: int| 0 <= j < k implies rest[j] != ':' by {
        if 1 <= j < t.len() + 1 {
            assert(rest[j] == t[j - 1]);
        }
    }
    lemma_mark_found(rest, ':', k);
    assert(e[q + 1 + k] == ':');
    lemma_mark_found(e, ':', q + 1 + k);
    assert(":"@ =~= seq![':']);
    lemma_trim_padded(c);
    lemma_trim_padded(t);
    lemma_trim_padded(f);
    assert(e.subrange(0, q) =~= c + " "@);
    assert(rest.subrange(0, k) =~= " "@ + t + " "@);
    assert(rest.subrange(k + 1, rest.len() as int) =~= " "@ + f);
    assert(ternary_parts(e) == Some((c, t, f)));
}

/// Writing a conditional as its constructors do and reading the text back
/// gives the same kind and parts, when the condition and branches are
/// plain words (ASCII letters, digits, `_`) other than `if`, `then` and
/// `else`; the text can be parsed without refusal.
pub proof fn lemma_conditional_round_trip(kind: ConditionalType, c: Seq<char>, t: Seq<char>, f: Seq<char>)
    requires
        kind == ConditionalType::IfThen || kind == ConditionalType::IfThenElse || kind == ConditionalType::Ternary,
        is_operand(c),
        is_operand(t),
        is_operand(f),
    ensures
        conditional_parse_safe(conditional_text(kind, c, t, f)),
        spec_parse_conditional(conditional_text(kind, c, t, f)) == Some(
            (kind, c, t, if kind == ConditionalType::IfThen {
                None::<Seq<char>>
            } else {
                Some(f)
            }),
        ),
{
    if kind == ConditionalType::IfThen {
        assert(conditional_text(kind, c, t, f) == conditional_text(kind, c, t, seq![]));
        lemma_if_then_reads_back(c, t);
    } else if kind == ConditionalType::IfThenElse {
        lemma_if_then_else_reads_back(c, t, f);
    } else {
        lemma_ternary_reads_back(c, t, f);
    }
}

/// The display text of a conditional the constructors build is the text
/// they stored.
pub proof fn lemma_conditional_display(info: ConditionalExpressionInfo, kind: ConditionalType, c: Seq<char>, t: Seq<char>, f: Option<Seq<char>>)
    requires
        kind == ConditionalType::IfThen || kind == ConditionalType::IfThenElse || kind == ConditionalType::Ternary,
        kind == ConditionalType::IfThen <==> f is None,
        is_conditional_of(info, kind, c, t, f),
    ensures
        spec_conditional_display(info) == info.full_expression@,
{
}

/// A text that, trimmed, neither holds both `?` and `:` nor starts with
/// `if ` is no conditional.
pub proof fn lemma_not_conditional(e: Seq<char>)
    requires
        !(contains(trim(e), "?"@) && contains(trim(e), ":"@)),
        !starts_with(trim(e), "if "@),
    ensures
        spec_parse_conditional(e) is None,
        conditional_parse_safe(e),
{
}

} // verus!

//! Evaluation helpers for default values, interpolations and built-in functions.
use vstd::prelude::*;
use crate::text::{
    owned, push_str, trim, trim_chars, chars_of, string_of, substring, str_trim, str_eq, contains,
    str_contains, find_from, find_char, find_char_exec, is_alnum, char_is_alphanumeric, unicode_alphabetic,
    unicode_numeric, char_is_alphabetic, char_is_numeric, all_digits, digits_between, unicode_lowercase,
    unicode_uppercase, to_lowercase, to_uppercase, replace, replace_nonempty, str_replace, join, join_strings,
};
use crate::escapes::{escapes, process_escapes};
use crate::sorted::{sorted_set_of, strictly_sorted, insert_sorted};
use crate::parser::ast::queries::info::strs;
use crate::parser::ast::queries::arguments::quoted;

verus! {

/// Evaluates default values and simple expressions written in justfiles.
pub struct ExpressionEvaluator;

/// A single `"`, `'` or backtick, whose quotes cannot be stripped.
pub open spec fn lone_delimiter(t: Seq<char>) -> bool {
    t.len() == 1 && (t[0] == '"' || t[0] == '\'' || t[0] == '`')
}

/// Literal value of a default expression: quoted strings lose their quotes and
/// have escapes resolved, backtick commands are marked, anything else is the
/// trimmed expression.
pub open spec fn spec_evaluate_default(e: Seq<char>) -> Seq<char> {
    let t = trim(e);
    if quoted(t) {
        escapes(t.subrange(1, t.len() - 1))
    } else if t.len() > 0 && t[0] == '`' && t.last() == '`' {
        "[EXTERNAL_COMMAND: "@ + t.subrange(1, t.len() - 1) + "]"@
    } else {
        t
    }
}

/// Whether an expression needs evaluation beyond a literal.
pub open spec fn spec_is_complex(e: Seq<char>) -> bool {
    let t = trim(e);
    (contains(t, "{{"@) && contains(t, "}}"@)) || (contains(t, "("@) && contains(t, ")"@))
        || contains(t, "+"@) || contains(t, "-"@) || contains(t, "*"@) || contains(t, "/"@)
        || contains(t, "&&"@) || contains(t, "||"@) || contains(t, "=="@) || contains(t, "!="@)
        || contains(t, "<"@) || contains(t, ">"@) || (contains(t, "if"@) && contains(t, "then"@))
}

/// Letter, digit or underscore.
pub open spec fn is_word_char(c: char) -> bool {
    is_alnum(c) || c == '_'
}

/// Every character is a letter, digit or underscore.
pub open spec fn all_word_chars(s: Seq<char>) -> bool {
    forall|i: int| 0 <= i < s.len() ==> #[trigger] is_word_char(s[i])
}

/// Contents of the completed `{{...}}` interpolations of `s`, left to right.
pub open spec fn interpolation_bodies(s: Seq<char>) -> Seq<Seq<char>>
    decreases s.len(),
{
    if s.len() < 2 {
        seq![]
    } else if s[0] == '{' && s[1] == '{' {
        match find_from(s, seq!['}', '}'], 2) {
            Some(k) => {
                if 2 <= k && k + 2 <= s.len() {
                    seq![s.subrange(2, k as int)] + interpolation_bodies(s.subrange((k + 2) as int, s.len() as int))
                } else {
                    seq![]
                }
            },
            None => seq![],
        }
    } else {
        interpolation_bodies(s.drop_first())
    }
}

/// Index of the first letter or underscore at or after `i`.
pub open spec fn ident_start(s: Seq<char>, i: nat) -> nat
    decreases s.len() - i,
{
    if i >= s.len() || unicode_alphabetic(s[i as int]) || s[i as int] == '_' {
        i
    } else {
        ident_start(s, i + 1)
    }
}

/// Index just past the letters, digits and underscores starting at `i`.
pub open spec fn ident_end(s: Seq<char>, i: nat) -> nat
    decreases s.len() - i,
{
    if i < s.len() && (unicode_alphabetic(s[i as int]) || s[i as int] == '_' || unicode_numeric(s[i as int])) {
        ident_end(s, i + 1)
    } else {
        i
    }
}

/// The first identifier of `s`: a letter or underscore followed by letters, digits or underscores.
pub open spec fn first_identifier(s: Seq<char>) -> Seq<char> {
    let a = ident_start(s, 0);
    if a < s.len() {
        s.subrange(a as int, ident_end(s, a) as int)
    } else {
        seq![]
    }
}

/// Variable named by an interpolated expression: the expression itself when
/// it is a plain word, the callee of a call, or else its first identifier
/// (the whole expression when it has none).
pub open spec fn spec_variable_of(e: Seq<char>) -> Seq<char> {
    if all_word_chars(e) {
        e
    } else if find_char(e, '(') is Some && all_word_chars(trim(e.subrange(0, find_char(e, '(')->0 as int)))
    {
        trim(e.subrange(0, find_char(e, '(')->0 as int))
    } else if first_identifier(e).len() > 0 {
        first_identifier(e)
    } else {
        e
    }
}

/// Variables named by the non-empty interpolation bodies, in order.
pub open spec fn variables_of_bodies(bodies: Seq<Seq<char>>) -> Seq<Seq<char>>
    decreases bodies.len(),
{
    if bodies.len() == 0 {
        seq![]
    } else if bodies.last().len() > 0 {
        variables_of_bodies(bodies.drop_last()).push(spec_variable_of(trim(bodies.last())))
    } else {
        variables_of_bodies(bodies.drop_last())
    }
}

/// Variables referenced by the interpolations of `e`.
pub open spec fn spec_referenced(e: Seq<char>) -> Set<Seq<char>> {
    variables_of_bodies(interpolation_bodies(e)).to_set()
}

/// `is_numeric_literal`: an optional `-`, then one or more digits, or digits
/// with one dot and digits on at least one side of it. A lone `-` is no
/// number.
pub open spec fn spec_is_numeric(s: Seq<char>) -> bool {
    if s.len() == 0 {
        false
    } else {
        let u = if s[0] == '-' {
            s.drop_first()
        } else {
            s
        };
        if u.len() > 0 && all_digits(u) {
            true
        } else {
            match find_char(u, '.') {
                Some(d) => all_digits(u.subrange(0, d as int)) && all_digits(u.subrange((d + 1) as int, u.len() as int))
                    && u.len() > 1,
                None => false,
            }
        }
    }
}

/// Truth value of a condition result.
pub open spec fn spec_truthy(v: Seq<char>) -> bool {
    let l = unicode_lowercase(trim(v));
    if l == "true"@ || l == "1"@ || l == "yes"@ || l == "on"@ {
        true
    } else if l == "false"@ || l == "0"@ || l == "no"@ || l == "off"@ || l == ""@ {
        false
    } else {
        trim(v).len() > 0
    }
}

/// Result of a built-in function applied to evaluated arguments.
pub open spec fn spec_builtin(name: Seq<char>, args: Seq<Seq<char>>, allow_missing: bool) -> Result<Seq<char>, Seq<char>> {
    if name == "env_var"@ {
        if args.len() == 0 {
            Err("env_var requires at least one argument"@)
        } else {
            Ok("${"@ + args[0] + ":"@ + (if args.len() > 1 { args[1] } else { seq![] }) + "}"@)
        }
    } else if name == "uppercase"@ {
        if args.len() != 1 {
            Err("uppercase requires exactly one argument"@)
        } else {
            Ok(unicode_uppercase(args[0]))
        }
    } else if name == "lowercase"@ {
        if args.len() != 1 {
            Err("lowercase requires exactly one argument"@)
        } else {
            Ok(unicode_lowercase(args[0]))
        }
    } else if name == "trim"@ {
        if args.len() != 1 {
            Err("trim requires exactly one argument"@)
        } else {
            Ok(trim(args[0]))
        }
    } else if name == "replace"@ {
        if args.len() != 3 {
            Err("replace requires exactly three arguments"@)
        } else {
            Ok(replace(args[0], args[1], args[2]))
        }
    } else if name == "join"@ {
        if args.len() < 2 {
            Err("join requires at least two arguments"@)
        } else {
            Ok(join(args.drop_first(), args[0]))
        }
    } else if name == "quote"@ {
        if args.len() != 1 {
            Err("quote requires exactly one argument"@)
        } else {
            Ok("\""@ + replace(args[0], "\""@, "\\\""@) + "\""@)
        }
    } else if name == "path_exists"@ {
        if args.len() != 1 {
            Err("path_exists requires exactly one argument"@)
        } else {
            Ok("true"@)
        }
    } else if allow_missing {
        Ok(name + "("@ + join(args, ", "@) + ")"@)
    } else {
        Err("Unknown built-in function: "@ + name)
    }
}

/// `replace(s, from, to)` puts `to` where `from` occurs in `s`: replacing a
/// nonempty text within itself gives the replacement, a text in which
/// `from` does not occur comes back unchanged, and a text that starts with
/// `from` gives a result that starts with `to`.
pub proof fn lemma_replace_puts_to_for_from(s: Seq<char>, from: Seq<char>, to: Seq<char>, allow_missing: bool)
    requires
        from.len() > 0,
    ensures
        spec_builtin("replace"@, seq![from, from, to], allow_missing) == Ok::<Seq<char>, Seq<char>>(to),
        (forall|i: int| 0 <= i <= s.len() - from.len() ==> !#[trigger] occurs_at(s, from, i)) ==> spec_builtin(
            "replace"@,
            seq![s, from, to],
            allow_missing,
        ) == Ok::<Seq<char>, Seq<char>>(s),
        s.len() >= from.len() && s.subrange(0, from.len() as int) == from ==> (spec_builtin(
            "replace"@,
            seq![s, from, to],
            allow_missing,
        ) matches Ok(r) && r.len() >= to.len() && r.subrange(0, to.len() as int) == to),
{
    reveal_strlit("replace");
    reveal_strlit("env_var");
    reveal_strlit("uppercase");
    reveal_strlit("lowercase");
    reveal_strlit("trim");
    assert("replace"@ != "env_var"@ && "replace"@ != "uppercase"@ && "replace"@ != "lowercase"@ && "replace"@ != "trim"@) by {
        assert("replace"@[0] != "env_var"@[0]);
        assert("replace"@[0] != "uppercase"@[0]);
        assert("replace"@[0] != "lowercase"@[0]);
        assert("replace"@[0] != "trim"@[0]);
    }
    let args = seq![s, from, to];
    assert(spec_builtin("replace"@, args, allow_missing) == Ok::<Seq<char>, Seq<char>>(replace(s, from, to)));
    let own = seq![from, from, to];
    assert(spec_builtin("replace"@, own, allow_missing) == Ok::<Seq<char>, Seq<char>>(replace(from, from, to)));
    assert(from.subrange(0, from.len() as int) =~= from);
    assert(replace_nonempty(from.subrange(from.len() as int, from.len() as int), from, to) == from.subrange(
        from.len() as int,
        from.len() as int,
    ));
    assert(to + from.subrange(from.len() as int, from.len() as int) =~= to);
    lemma_replace_absent(s, from, to);
    if s.len() >= from.len() && s.subrange(0, from.len() as int) == from {
        let r = replace_nonempty(s, from, to);
        assert(r.subrange(0, to.len() as int) =~= to);
    }
}

/// `join(sep, a, ...)` puts the separator, its first argument, between the
/// others: one part comes back alone, two parts come back with the
/// separator between them, and joining more parts puts the first part and
/// the separator before the joined rest.
pub proof fn lemma_join_puts_separator_between(sep: Seq<char>, a: Seq<char>, b: Seq<char>, rest: Seq<Seq<char>>, allow_missing: bool)
    ensures
        spec_builtin("join"@, seq![sep, a], allow_missing) == Ok::<Seq<char>, Seq<char>>(a),
        spec_builtin("join"@, seq![sep, a, b], allow_missing) == Ok::<Seq<char>, Seq<char>>(a + sep + b),
        rest.len() > 0 ==> spec_builtin("join"@, seq![sep, a] + rest, allow_missing) == Ok::<Seq<char>, Seq<char>>(
            a + sep + spec_builtin("join"@, seq![sep] + rest, allow_missing)->Ok_0,
        ),
{
    reveal_strlit("join");
    reveal_strlit("env_var");
    reveal_strlit("uppercase");
    reveal_strlit("lowercase");
    reveal_strlit("trim");
    reveal_strlit("replace");
    assert("join"@ != "env_var"@ && "join"@ != "uppercase"@ && "join"@ != "lowercase"@ && "join"@ != "trim"@
        && "join"@ != "replace"@) by {
        assert("join"@[0] != "env_var"@[0]);
        assert("join"@[0] != "uppercase"@[0]);
        assert("join"@[0] != "lowercase"@[0]);
        assert("join"@[0] != "trim"@[0]);
        assert("join"@[0] != "replace"@[0]);
    }
    assert(seq![sep, a].drop_first() =~= seq![a]);
    assert(seq![sep, a, b].drop_first() =~= seq![a, b]);
    assert(seq![a, b].drop_first() =~= seq![b]);
    assert(join(seq![b], sep) == b);
    assert(join(seq![a, b], sep) == a + sep + b);
    if rest.len() > 0 {
        assert((seq![sep, a] + rest).drop_first() =~= seq![a] + rest);
        assert((seq![a] + rest).drop_first() =~= rest);
        assert((seq![sep] + rest).drop_first() =~= rest);
    }
}

/// `p` occurs in `s` at index `i`.
pub open spec fn occurs_at(s: Seq<char>, p: Seq<char>, i: int) -> bool {
    s.subrange(i, i + p.len()) == p
}

/// A text in which `p` does not occur is left as it is.
proof fn lemma_replace_absent(s: Seq<char>, p: Seq<char>, t: Seq<char>)
    requires
        p.len() > 0,
    ensures
        (forall|i: int| 0 <= i <= s.len() - p.len() ==> !#[trigger] occurs_at(s, p, i)) ==> replace_nonempty(s, p, t)
            == s,
    decreases s.len(),
{
    if s.len() >= p.len() && (forall|i: int| 0 <= i <= s.len() - p.len() ==> !#[trigger] occurs_at(s, p, i)) {
        assert(!occurs_at(s, p, 0));
        let d = s.drop_first();
        assert forall|i: int| 0 <= i <= d.len() - p.len() implies !#[trigger] occurs_at(d, p, i) by {
            assert(!occurs_at(s, p, i + 1));
            assert(d.subrange(i, i + p.len()) =~= s.subrange(i + 1, i + 1 + p.len()));
        }
        lemma_replace_absent(d, p, t);
        assert(seq![s[0]] + d =~= s);
    }
}

/// Whether every character of `v` is a letter, digit or underscore.
pub fn all_word_chars_exec(v: &Vec<char>) -> (r: bool)
    ensures
        r == all_word_chars(v@),
{
    let mut i: usize = 0;
    while i < v.len()
        invariant
            i <= v.len(),
            forall|j: int| 0 <= j < i ==> #[trigger] is_word_char(v@[j]),
        decreases v.len() - i,
    {
        if !(char_is_alphanumeric(v[i]) || v[i] == '_') {
            assert(!is_word_char(v@[i as int]));
            return false;
        }
        i = i + 1;
    }
    true
}

/// Whether every character of `v[a..b]` is an ASCII digit, with `a <= b`.
fn all_digit_chars(v: &Vec<char>) -> (r: bool)
    ensures
        r == all_digits(v@),
{
    assert(v@.subrange(0, v.len() as int) =~= v@);
    digits_between(v, 0, v.len())
}

impl ExpressionEvaluator {
    /// Literal value of a parameter default.
    pub fn evaluate_default_expression(expression: &str) -> (r: String)
        requires
            !lone_delimiter(trim(expression@)),
        ensures
            r@ == spec_evaluate_default(expression@),
    {
        let v0 = chars_of(expression);
        let t = trim_chars(&v0);
        let n = t.len();
        if n > 0 && ((t[0] == '"' && t[n - 1] == '"') || (t[0] == '\'' && t[n - 1] == '\'')) {
            let inner = substring(&t, 1, n - 1);
            return process_escapes(inner.as_str());
        }
        if n > 0 && t[0] == '`' && t[n - 1] == '`' {
            let mut s = owned("[EXTERNAL_COMMAND: ");
            let inner = substring(&t, 1, n - 1);
            push_str(&mut s, inner.as_str());
            push_str(&mut s, "]");
            return s;
        }
        string_of(&t)
    }

    /// Whether the expression needs evaluation: interpolation, call, operator or conditional.
    pub fn is_complex_expression(expression: &str) -> (b: bool)
        ensures
            b == spec_is_complex(expression@),
    {
        let t = str_trim(expression);
        let s = t.as_str();
        (str_contains(s, "{{") && str_contains(s, "}}")) || (str_contains(s, "(") && str_contains(s, ")"))
            || str_contains(s, "+") || str_contains(s, "-") || str_contains(s, "*") || str_contains(s, "/")
            || str_contains(s, "&&") || str_contains(s, "||") || str_contains(s, "==") || str_contains(s, "!=")
            || str_contains(s, "<") || str_contains(s, ">") || (str_contains(s, "if") && str_contains(s, "then"))
    }

    /// Resolves the backslash escapes of a string's content: the usual
    /// single-character ones, `\xHH` bytes and `\u{...}` scalar values;
    /// anything else is kept as written.
    pub fn process_string_escapes(content: &str) -> (r: String)
        ensures
            r@ == escapes(content@),
    {
        process_escapes(content)
    }

    /// Variables named by the interpolations of `expression`, sorted, each once.
    pub fn extract_variable_references(expression: &str) -> (r: Vec<String>)
        ensures
            sorted_set_of(strs(r@), spec_referenced(expression@)),
    {
        let v = chars_of(expression);
        let n = v.len();
        let mut out: Vec<String> = Vec::new();
        let mut i: usize = 0;
        let ghost mut seen: Seq<Seq<char>> = seq![];
        assert(v@.subrange(0, n as int) =~= v@);
        while i < n
            invariant
                n == v@.len(),
                v@ == expression@,
                i <= n,
                interpolation_bodies(v@) == seen + interpolation_bodies(v@.subrange(i as int, n as int)),
                strictly_sorted(strs(out@)),
                strs(out@).to_set() == variables_of_bodies(seen).to_set(),
            decreases n - i,
        {
            let ghost r = v@.subrange(i as int, n as int);
            if n - i >= 2 && v[i] == '{' && v[i + 1] == '{' {
                // find the closing braces
                let mut k: usize = i + 2;
                let mut found = false;
                while n - k > 1 && !found
                    invariant
                        i + 2 <= k <= n,
                        n == v@.len(),
                        r == v@.subrange(i as int, n as int),
                        !found ==> find_from(r, seq!['}', '}'], 2) == find_from(r, seq!['}', '}'], (k - i) as nat),
                        found ==> k + 1 < n && find_from(r, seq!['}', '}'], 2) == Some((k - i) as nat),
                    decreases n - k, if found { 0int } else { 1int },
                {
                    assert(r.subrange((k - i) as int, (k - i + 2) as int) =~= v@.subrange(k as int, k + 2));
                    if v[k] == '}' && v[k + 1] == '}' {
                        assert(v@.subrange(k as int, k + 2) =~= seq!['}', '}']);
                        found = true;
                    } else {
                        assert(v@.subrange(k as int, k + 2)[0] == v@[k as int]);
                        assert(v@.subrange(k as int, k + 2)[1] == v@[k + 1]);
                        k = k + 1;
                    }
                }
                if !found {
                    assert(find_from(r, seq!['}', '}'], (k - i) as nat) is None);
                    assert(interpolation_bodies(r) == Seq::<Seq<char>>::empty());
                    assert(seen + interpolation_bodies(r) =~= seen);
                    i = n;
                    assert(interpolation_bodies(v@.subrange(i as int, n as int)) == Seq::<Seq<char>>::empty());
                    assert(seen + Seq::<Seq<char>>::empty() =~= seen);
                } else {
                    let body = substring(&v, i + 2, k);
                    assert(r.subrange(2, (k - i) as int) =~= body@);
                    assert(r.subrange((k - i + 2) as int, r.len() as int) =~= v@.subrange(k + 2, n as int));
                    let ghost old_seen = seen;
                    proof {
                        seen = seen.push(body@);
                        assert(seen.drop_last() =~= old_seen);
                    }
                    if !body.as_str().is_empty() {
                        let t = str_trim(body.as_str());
                        let var = Self::extract_variable_from_expression(t.as_str());
                        insert_sorted(&mut out, var);
                    }
                    proof {
                        assert(seen.last() == body@);
                        if body@.len() > 0 {
                            assert(variables_of_bodies(seen) == variables_of_bodies(old_seen).push(spec_variable_of(trim(body@))));
                            crate::sorted::lemma_push_to_set(variables_of_bodies(old_seen), spec_variable_of(trim(body@)));
                        } else {
                            assert(variables_of_bodies(seen) == variables_of_bodies(old_seen));
                        }
                        assert((seen + interpolation_bodies(v@.subrange(k + 2, n as int))) =~= (old_seen + (seq![body@] + interpolation_bodies(v@.subrange(k + 2, n as int)))));
                    }
                    i = k + 2;
                }
            } else {
                proof {
                    if r.len() >= 2 {
                        assert(r.drop_first() =~= v@.subrange(i + 1, n as int));
                    } else {
                        assert(interpolation_bodies(r) == Seq::<Seq<char>>::empty());
                        assert(interpolation_bodies(v@.subrange(i + 1, n as int)) == Seq::<Seq<char>>::empty());
                    }
                }
                i = i + 1;
            }
        }
        assert(interpolation_bodies(v@.subrange(n as int, n as int)) == Seq::<Seq<char>>::empty());
        assert(seen =~= interpolation_bodies(v@));
        out
    }

    /// Variable named by an interpolated expression.
    pub fn extract_variable_from_expression(expr: &str) -> (r: String)
        ensures
            r@ == spec_variable_of(expr@),
    {
        let v = chars_of(expr);
        if all_word_chars_exec(&v) {
            return string_of(&v);
        }
        proof {
            crate::text::lemma_find_char_from(v@, '(', 0);
        }
        match find_char_exec(&v, '(') {
            Some(p) => {
                let head = sub_chars_trimmed(&v, p);
                if all_word_chars_exec(&head) {
                    return string_of(&head);
                }
            },
            None => {},
        }
        let n = v.len();
        let mut a: usize = 0;
        while a < n && !(char_is_alphabetic(v[a]) || v[a] == '_')
            invariant
                a <= n,
                n == v@.len(),
                ident_start(v@, 0) == ident_start(v@, a as nat),
            decreases n - a,
        {
            a = a + 1;
        }
        if a == n {
            return string_of(&v);
        }
        let mut b: usize = a;
        while b < n && (char_is_alphabetic(v[b]) || v[b] == '_' || char_is_numeric(v[b]))
            invariant
                a <= b <= n,
                n == v@.len(),
                ident_end(v@, a as nat) == ident_end(v@, b as nat),
            decreases n - b,
        {
            b = b + 1;
        }
        assert(a < b);
        substring(&v, a, b)
    }

    /// Variables outside interpolations; none are extracted.
    pub fn extract_bare_variables(_expression: &str) -> (r: Vec<String>)
        ensures
            r@.len() == 0,
    {
        Vec::new()
    }

    /// Whether `s` is a numeric literal such as `42`, `-7`, `3.14` or `.5`.
    pub fn is_numeric_literal(s: &str) -> (b: bool)
        ensures
            b == spec_is_numeric(s@),
    {
        let v0 = chars_of(s);
        if v0.len() == 0 {
            return false;
        }
        let v = if v0[0] == '-' {
            crate::text::sub_chars(&v0, 1, v0.len())
        } else {
            crate::text::sub_chars(&v0, 0, v0.len())
        };
        assert(v0@.subrange(0, v0.len() as int) =~= v0@);
        assert(v0@.subrange(1, v0.len() as int) =~= v0@.drop_first());
        if v.len() > 0 && all_digit_chars(&v) {
            return true;
        }
        match find_char_exec(&v, '.') {
            Some(d) => {
                proof {
                    crate::text::lemma_find_char_from(v@, '.', 0);
                }
                v.len() > 1 && digits_between(&v, 0, d) && digits_between(&v, d + 1, v.len())
            },
            None => false,
        }
    }

    /// Truth value of an evaluated condition: `true 1 yes on` are true, `false 0 no off`
    /// and blank are false (in any case), other non-blank text is true.
    pub fn evaluate_condition_as_boolean(value: &str) -> (b: bool)
        ensures
            b == spec_truthy(value@),
    {
        let t = str_trim(value);
        let lower = to_lowercase(t.as_str());
        let l = lower.as_str();
        if str_eq(l, "true") || str_eq(l, "1") || str_eq(l, "yes") || str_eq(l, "on") {
            true
        } else if str_eq(l, "false") || str_eq(l, "0") || str_eq(l, "no") || str_eq(l, "off") || str_eq(l, "") {
            false
        } else {
            !t.as_str().is_empty()
        }
    }

    /// Applies a built-in function to evaluated arguments.
    pub fn execute_builtin_function(func_name: &str, args: &Vec<String>, allow_missing: bool) -> (r: Result<String, String>)
        ensures
            (match r {
                Ok(s) => Ok(s@),
                Err(e) => Err(e@),
            }) == spec_builtin(func_name@, strs(args@), allow_missing),
    {
        let n = args.len();
        if str_eq(func_name, "env_var") {
            if n == 0 {
                return Err(owned("env_var requires at least one argument"));
            }
            let mut s = owned("${");
            push_str(&mut s, args[0].as_str());
            push_str(&mut s, ":");
            if n > 1 {
                push_str(&mut s, args[1].as_str());
            }
            push_str(&mut s, "}");
            assert(s@ =~= "${"@ + strs(args@)[0] + ":"@ + (if n > 1 { strs(args@)[1] } else { seq![] }) + "}"@);
            return Ok(s);
        }
        if str_eq(func_name, "uppercase") {
            if n != 1 {
                return Err(owned("uppercase requires exactly one argument"));
            }
            return Ok(to_uppercase(args[0].as_str()));
        }
        if str_eq(func_name, "lowercase") {
            if n != 1 {
                return Err(owned("lowercase requires exactly one argument"));
            }
            return Ok(to_lowercase(args[0].as_str()));
        }
        if str_eq(func_name, "trim") {
            if n != 1 {
                return Err(owned("trim requires exactly one argument"));
            }
            return Ok(str_trim(args[0].as_str()));
        }
        if str_eq(func_name, "replace") {
            if n != 3 {
                return Err(owned("replace requires exactly three arguments"));
            }
            return Ok(str_replace(args[0].as_str(), args[1].as_str(), args[2].as_str()));
        }
        if str_eq(func_name, "join") {
            if n < 2 {
                return Err(owned("join requires at least two arguments"));
            }
            let mut parts: Vec<String> = Vec::new();
            let mut i: usize = 1;
            while i < n
                invariant
                    1 <= i <= n,
                    n == args@.len(),
                    parts@ == args@.subrange(1, i as int),
                decreases n - i,
            {
                parts.push(args[i].clone());
                i = i + 1;
                assert(parts@ =~= args@.subrange(1, i as int));
            }
            assert(strs(parts@) =~= strs(args@).drop_first());
            return Ok(join_strings(&parts, args[0].as_str()));
        }
        if str_eq(func_name, "quote") {
            if n != 1 {
                return Err(owned("quote requires exactly one argument"));
            }
            let mut s = owned("\"");
            let escaped = str_replace(args[0].as_str(), "\"", "\\\"");
            push_str(&mut s, escaped.as_str());
            push_str(&mut s, "\"");
            return Ok(s);
        }
        if str_eq(func_name, "path_exists") {
            if n != 1 {
                return Err(owned("path_exists requires exactly one argument"));
            }
            return Ok(owned("true"));
        }
        if allow_missing {
            let mut s = owned(func_name);
            push_str(&mut s, "(");
            let joined = join_strings(args, ", ");
            push_str(&mut s, joined.as_str());
            push_str(&mut s, ")");
            Ok(s)
        } else {
            let mut e = owned("Unknown built-in function: ");
            push_str(&mut e, func_name);
            Err(e)
        }
    }

    /// User-defined functions are not evaluated: the call is kept as written
    /// when missing values are allowed, else it is an error.
    pub fn execute_user_function(func_name: &str, args: &Vec<String>, allow_missing: bool) -> (r: Result<String, String>)
        ensures
            allow_missing ==> (r matches Ok(s) && s@ == func_name@ + "("@ + join(strs(args@), ", "@) + ")"@),
            !allow_missing ==> (r matches Err(e) && e@ == "User-defined function not implemented: "@ + func_name@),
    {
        if allow_missing {
            let mut s = owned(func_name);
            push_str(&mut s, "(");
            let joined = join_strings(args, ", ");
            push_str(&mut s, joined.as_str());
            push_str(&mut s, ")");
            Ok(s)
        } else {
            let mut e = owned("User-defined function not implemented: ");
            push_str(&mut e, func_name);
            Err(e)
        }
    }

    /// External commands are not run: the command is kept in backticks when
    /// missing values are allowed, else it is an error.
    pub fn execute_external_command(func_name: &str, args: &Vec<String>, allow_missing: bool) -> (r: Result<String, String>)
        ensures
            allow_missing ==> (r matches Ok(s) && s@ == "`"@ + func_name@ + " "@ + join(strs(args@), " "@) + "`"@),
            !allow_missing ==> (r matches Err(e) && e@ == "External command execution not implemented: "@ + func_name@),
    {
        if allow_missing {
            let mut s = owned("`");
            push_str(&mut s, func_name);
            push_str(&mut s, " ");
            let joined = join_strings(args, " ");
            push_str(&mut s, joined.as_str());
            push_str(&mut s, "`");
            Ok(s)
        } else {
            let mut e = owned("External command execution not implemented: ");
            push_str(&mut e, func_name);
            Err(e)
        }
    }
}

/// The trimmed characters before index `p`.
fn sub_chars_trimmed(v: &Vec<char>, p: usize) -> (r: Vec<char>)
    requires
        p <= v.len(),
    ensures
        r@ == trim(v@.subrange(0, p as int)),
{
    let head = crate::text::sub_chars(v, 0, p);
    trim_chars(&head)
}

} // verus!

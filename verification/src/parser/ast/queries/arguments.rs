//! Splitting of argument lists written in justfiles.
use vstd::prelude::*;
use crate::text::{
    trim, trim_chars, chars_of, string_of, sub_chars, words, find_char, rfind_char, find_char_exec,
    rfind_char_exec, substring, split_whitespace,
};
use crate::parser::ast::queries::info::strs;
use crate::parser::ast::queries::processor::QueryResultProcessor;

verus! {

/// A single quote character and nothing else.
pub open spec fn lone_quote(t: Seq<char>) -> bool {
    t.len() == 1 && (t[0] == '"' || t[0] == '\'')
}

/// Surrounded by a matching pair of `"` or `'`.
pub open spec fn quoted(t: Seq<char>) -> bool {
    t.len() > 0 && ((t[0] == '"' && t.last() == '"') || (t[0] == '\'' && t.last() == '\''))
}

/// The trimmed text with one pair of surrounding quotes removed.
pub open spec fn spec_clean(text: Seq<char>) -> Seq<char> {
    let t = trim(text);
    if quoted(t) {
        t.subrange(1, t.len() - 1)
    } else {
        t
    }
}

/// Appends the trimmed `cur` to `args` unless it is blank.
pub open spec fn flush_trimmed(args: Seq<Seq<char>>, cur: Seq<char>) -> Seq<Seq<char>> {
    if trim(cur).len() > 0 {
        args.push(trim(cur))
    } else {
        args
    }
}

/// Appends the cleaned `cur` to `args` unless it is empty once cleaned.
pub open spec fn flush_cleaned(args: Seq<Seq<char>>, cur: Seq<char>) -> Seq<Seq<char>> {
    if spec_clean(cur).len() > 0 {
        args.push(spec_clean(cur))
    } else {
        args
    }
}

// Scanner with backslash escapes: (arguments, current, in quotes, quote, escape pending).
pub type EscScan = (Seq<Seq<char>>, Seq<char>, bool, char, bool);

/// One character of the escape-aware scan: quotes and escaping backslashes are
/// dropped, commas outside quotes end an argument.
pub open spec fn esc_step(st: EscScan, ch: char) -> EscScan {
    let (args, cur, inq, q, esc) = st;
    if esc {
        (args, cur.push(ch), inq, q, false)
    } else if ch == '\\' && inq {
        (args, cur, inq, q, true)
    } else if (ch == '"' || ch == '\'') && !inq {
        (args, cur, true, ch, esc)
    } else if inq && ch == q {
        (args, cur, false, q, esc)
    } else if ch == ',' && !inq {
        (flush_trimmed(args, cur), seq![], inq, q, esc)
    } else {
        (args, cur.push(ch), inq, q, esc)
    }
}

/// The escape-aware scan over `s`.
pub open spec fn esc_run(s: Seq<char>) -> EscScan
    decreases s.len(),
{
    if s.len() == 0 {
        (seq![], seq![], false, '"', false)
    } else {
        esc_step(esc_run(s.drop_last()), s.last())
    }
}

/// Arguments of `'a', "b"`: split at commas outside quotes, quotes removed,
/// backslash escapes inside quotes resolved, pieces trimmed, blank pieces dropped.
pub open spec fn spec_parse_function_arguments(s: Seq<char>) -> Seq<Seq<char>> {
    flush_trimmed(esc_run(s).0, esc_run(s).1)
}

/// Arguments of an attribute value.
pub open spec fn spec_parse_attribute_arguments(value: Seq<char>) -> Seq<Seq<char>> {
    let v = trim(value);
    if v.len() >= 2 && v[0] == '(' && v.last() == ')' {
        spec_parse_function_arguments(v.subrange(1, v.len() - 1))
    } else if quoted(v) {
        seq![v.subrange(1, v.len() - 1)]
    } else if v.len() > 0 {
        seq![v]
    } else {
        seq![]
    }
}

// Scanner keeping quotes: (arguments, current, in quotes, quote, no lone quote flushed).
pub type QuoteScan = (Seq<Seq<char>>, Seq<char>, bool, char, bool);

/// One character of the comma split that keeps quote characters in the pieces.
pub open spec fn quote_step(st: QuoteScan, ch: char) -> QuoteScan {
    let (args, cur, inq, q, ok) = st;
    if (ch == '"' || ch == '\'') && !inq {
        (args, cur.push(ch), true, ch, ok)
    } else if (ch == '"' || ch == '\'') && inq && ch == q {
        (args, cur.push(ch), false, q, ok)
    } else if ch == ',' && !inq {
        (flush_cleaned(args, cur), seq![], inq, q, ok && !lone_quote(trim(cur)))
    } else {
        (args, cur.push(ch), inq, q, ok)
    }
}

/// The quote-keeping scan over `s`.
pub open spec fn quote_run(s: Seq<char>) -> QuoteScan
    decreases s.len(),
{
    if s.len() == 0 {
        (seq![], seq![], false, ' ', true)
    } else {
        quote_step(quote_run(s.drop_last()), s.last())
    }
}

/// Pieces of `s` split at commas outside quotes, each cleaned, empty ones dropped.
pub open spec fn spec_split_arguments(s: Seq<char>) -> Seq<Seq<char>> {
    flush_cleaned(quote_run(s).0, quote_run(s).1)
}

/// No piece of the split is a lone quote (cleaning such a piece is refused).
pub open spec fn split_arguments_safe(s: Seq<char>) -> bool {
    quote_run(s).4 && !lone_quote(trim(quote_run(s).1))
}

// Scanner counting parentheses: (arguments, current, in quotes, quote, depth).
pub type ParenScan = (Seq<Seq<char>>, Seq<char>, bool, char, int);

/// One character of the comma split that ignores commas inside parentheses or quotes.
pub open spec fn paren_step(st: ParenScan, ch: char) -> ParenScan {
    let (args, cur, inq, q, depth) = st;
    if (ch == '"' || ch == '\'') && !inq {
        (args, cur.push(ch), true, ch, depth)
    } else if ch == q && inq {
        (args, cur.push(ch), false, q, depth)
    } else if ch == '(' && !inq {
        (args, cur.push(ch), inq, q, depth + 1)
    } else if ch == ')' && !inq {
        (args, cur.push(ch), inq, q, depth - 1)
    } else if ch == ',' && !inq && depth == 0 {
        (flush_trimmed(args, cur), seq![], inq, q, depth)
    } else {
        (args, cur.push(ch), inq, q, depth)
    }
}

/// The parenthesis-aware scan over `s`.
pub open spec fn paren_run(s: Seq<char>) -> ParenScan
    decreases s.len(),
{
    if s.len() == 0 {
        (seq![], seq![], false, '"', 0)
    } else {
        paren_step(paren_run(s.drop_last()), s.last())
    }
}

/// Arguments of a call: split at top-level commas outside quotes, trimmed,
/// blank ones dropped, quotes and nested calls kept as written.
pub open spec fn spec_parse_call_arguments(s: Seq<char>) -> Seq<Seq<char>> {
    flush_trimmed(paren_run(s).0, paren_run(s).1)
}

/// The parenthesis depth of a scan stays within the characters scanned.
pub proof fn lemma_paren_depth(s: Seq<char>)
    ensures
        -s.len() <= paren_run(s).4 <= s.len(),
    decreases s.len(),
{
    if s.len() > 0 {
        lemma_paren_depth(s.drop_last());
    }
}

/// Arguments of `recipe(a, b)` or `recipe a b`.
pub open spec fn spec_arguments_from_text(text: Seq<char>) -> Seq<Seq<char>> {
    match (find_char(text, '('), rfind_char(text, ')')) {
        (Some(a), Some(b)) => spec_split_arguments(text.subrange((a + 1) as int, b as int)),
        _ => {
            let parts = words(text);
            if parts.len() > 1 {
                parts.drop_first()
            } else {
                seq![]
            }
        },
    }
}

/// `parse_arguments_from_text` does not slice backwards and cleans no lone quote.
pub open spec fn arguments_text_safe(text: Seq<char>) -> bool {
    match (find_char(text, '('), rfind_char(text, ')')) {
        (Some(a), Some(b)) => a < b && split_arguments_safe(text.subrange((a + 1) as int, b as int)),
        _ => true,
    }
}

/// Appends a string holding `cur` trimmed, unless that is blank.
fn push_trimmed(args: &mut Vec<String>, cur: &Vec<char>)
    ensures
        strs(final(args)@) == flush_trimmed(strs(old(args)@), cur@),
{
    let t = trim_chars(cur);
    if t.len() > 0 {
        let s = string_of(&t);
        args.push(s);
        assert(strs(args@) =~= strs(old(args)@).push(t@));
    }
}

/// The characters `v[a..b]` with one pair of surrounding quotes removed, after trimming.
fn clean_chars(v: &Vec<char>) -> (r: Vec<char>)
    requires
        !lone_quote(trim(v@)),
    ensures
        r@ == spec_clean(v@),
{
    let t = trim_chars(v);
    let n = t.len();
    if n > 0 && ((t[0] == '"' && t[n - 1] == '"') || (t[0] == '\'' && t[n - 1] == '\'')) {
        sub_chars(&t, 1, n - 1)
    } else {
        t
    }
}

/// Parses arguments such as `'test', 'value'` into `test`, `value`.
pub fn parse_function_arguments(args: &str) -> (r: Vec<String>)
    ensures
        strs(r@) == spec_parse_function_arguments(args@),
{
    let v = chars_of(args);
    let mut out: Vec<String> = Vec::new();
    let mut cur: Vec<char> = Vec::new();
    let mut in_quotes = false;
    let mut quote_char = '"';
    let mut escape_next = false;
    let mut i: usize = 0;
    while i < v.len()
        invariant
            i <= v.len(),
            v@ == args@,
            esc_run(v@.take(i as int)) == (strs(out@), cur@, in_quotes, quote_char, escape_next),
        decreases v.len() - i,
    {
        let ch = v[i];
        assert(v@.take(i + 1).drop_last() =~= v@.take(i as int));
        if escape_next {
            cur.push(ch);
            escape_next = false;
        } else if ch == '\\' && in_quotes {
            escape_next = true;
        } else if (ch == '"' || ch == '\'') && !in_quotes {
            in_quotes = true;
            quote_char = ch;
        } else if in_quotes && ch == quote_char {
            in_quotes = false;
        } else if ch == ',' && !in_quotes {
            push_trimmed(&mut out, &cur);
            cur = Vec::new();
        } else {
            cur.push(ch);
        }
        i = i + 1;
    }
    assert(v@.take(v.len() as int) =~= v@);
    push_trimmed(&mut out, &cur);
    out
}

/// Parses an attribute value: `('a', 'b')` gives its call arguments, a quoted
/// value its content, another non-empty value itself.
pub fn parse_attribute_arguments(value: &str) -> (r: Vec<String>)
    requires
        !lone_quote(trim(value@)),
    ensures
        strs(r@) == spec_parse_attribute_arguments(value@),
{
    let v0 = chars_of(value);
    let v = trim_chars(&v0);
    let n = v.len();
    let mut out: Vec<String> = Vec::new();
    if n >= 2 && v[0] == '(' && v[n - 1] == ')' {
        let inner = substring(&v, 1, n - 1);
        return parse_function_arguments(inner.as_str());
    }
    if n > 0 && ((v[0] == '"' && v[n - 1] == '"') || (v[0] == '\'' && v[n - 1] == '\'')) {
        out.push(substring(&v, 1, n - 1));
        assert(strs(out@) =~= spec_parse_attribute_arguments(value@));
        return out;
    }
    if n > 0 {
        out.push(string_of(&v));
        assert(strs(out@) =~= spec_parse_attribute_arguments(value@));
        return out;
    }
    assert(strs(out@) =~= spec_parse_attribute_arguments(value@));
    out
}

impl QueryResultProcessor {
    /// Trims the text and removes one pair of surrounding quotes.
    pub(crate) fn clean_argument_text(text: &str) -> (r: String)
        requires
            !lone_quote(trim(text@)),
        ensures
            r@ == spec_clean(text@),
    {
        let v = chars_of(text);
        let c = clean_chars(&v);
        string_of(&c)
    }

    /// Splits at commas outside quotes and cleans each piece.
    /// Arguments of `recipe(a, b)` or `recipe a b`.
    pub(crate) fn parse_arguments_from_text(text: &str) -> (r: Vec<String>)
        requires
            arguments_text_safe(text@),
        ensures
            strs(r@) == spec_arguments_from_text(text@),
    {
        let v = chars_of(text);
        match find_char_exec(&v, '(') {
            Some(a) => match rfind_char_exec(&v, ')') {
                Some(b) => {
                    let inner = substring(&v, a + 1, b);
                    return Self::split_arguments(inner.as_str());
                },
                None => {},
            },
            None => {},
        }
        let parts = split_whitespace(text);
        let mut out: Vec<String> = Vec::new();
        if parts.len() > 1 {
            let mut i: usize = 1;
            while i < parts.len()
                invariant
                    1 <= i <= parts@.len(),
                    out@.len() == i - 1,
                    forall|j: int| 0 <= j < i - 1 ==> #[trigger] out@[j]@ == parts@[j + 1]@,
                decreases parts.len() - i,
            {
                out.push(parts[i].clone());
                i = i + 1;
            }
            assert(strs(out@) =~= strs(parts@).drop_first());
        }
        out
    }

    pub(crate) fn split_arguments(args_text: &str) -> (r: Vec<String>)
        requires
            split_arguments_safe(args_text@),
        ensures
            strs(r@) == spec_split_arguments(args_text@),
    {
        let v = chars_of(args_text);
        let mut out: Vec<String> = Vec::new();
        let mut cur: Vec<char> = Vec::new();
        let mut in_quotes = false;
        let mut quote_char = ' ';
        let ghost mut ok = true;
        let mut i: usize = 0;
        proof {
            lemma_quote_ok_monotone(v@, v@.len() as int);
        }
        while i < v.len()
            invariant
                i <= v.len(),
                v@ == args_text@,
                split_arguments_safe(v@),
                quote_run(v@.take(i as int)) == (strs(out@), cur@, in_quotes, quote_char, ok),
                ok,
            decreases v.len() - i,
        {
            let ch = v[i];
            assert(v@.take(i + 1).drop_last() =~= v@.take(i as int));
            proof {
                lemma_quote_ok_prefix(v@, i + 1);
            }
            if (ch == '"' || ch == '\'') && !in_quotes {
                in_quotes = true;
                quote_char = ch;
                cur.push(ch);
            } else if (ch == '"' || ch == '\'') && in_quotes && ch == quote_char {
                in_quotes = false;
                cur.push(ch);
            } else if ch == ',' && !in_quotes {
                let c = clean_chars(&cur);
                if c.len() > 0 {
                    out.push(string_of(&c));
                    assert(strs(out@) =~= flush_cleaned(quote_run(v@.take(i as int)).0, quote_run(v@.take(i as int)).1));
                }
                cur = Vec::new();
            } else {
                cur.push(ch);
            }
            i = i + 1;
        }
        assert(v@.take(v.len() as int) =~= v@);
        let c = clean_chars(&cur);
        if c.len() > 0 {
            out.push(string_of(&c));
            assert(strs(out@) =~= flush_cleaned(quote_run(v@).0, quote_run(v@).1));
        }
        out
    }

    /// Splits at top-level commas outside quotes, keeping nested calls whole.
    pub(crate) fn parse_function_arguments(args_str: &str) -> (r: Vec<String>)
        requires
            args_str@.len() <= i32::MAX,
        ensures
            strs(r@) == spec_parse_call_arguments(args_str@),
    {
        let v = chars_of(args_str);
        let mut out: Vec<String> = Vec::new();
        let mut cur: Vec<char> = Vec::new();
        let mut paren_count: i32 = 0;
        let mut in_quotes = false;
        let mut quote_char = '"';
        let mut i: usize = 0;
        while i < v.len()
            invariant
                i <= v.len(),
                v@ == args_str@,
                v@.len() <= i32::MAX,
                paren_run(v@.take(i as int)) == (strs(out@), cur@, in_quotes, quote_char, paren_count as int),
            decreases v.len() - i,
        {
            let ch = v[i];
            assert(v@.take(i + 1).drop_last() =~= v@.take(i as int));
            proof {
                lemma_paren_depth(v@.take(i as int));
            }
            if (ch == '"' || ch == '\'') && !in_quotes {
                in_quotes = true;
                quote_char = ch;
                cur.push(ch);
            } else if ch == quote_char && in_quotes {
                in_quotes = false;
                cur.push(ch);
            } else if ch == '(' && !in_quotes {
                paren_count = paren_count + 1;
                cur.push(ch);
            } else if ch == ')' && !in_quotes {
                paren_count = paren_count - 1;
                cur.push(ch);
            } else if ch == ',' && !in_quotes && paren_count == 0 {
                push_trimmed(&mut out, &cur);
                cur = Vec::new();
            } else {
                cur.push(ch);
            }
            i = i + 1;
        }
        assert(v@.take(v.len() as int) =~= v@);
        push_trimmed(&mut out, &cur);
        out
    }
}

/// Once a scan prefix has flushed a lone quote, every longer prefix has too.
proof fn lemma_quote_ok_prefix(s: Seq<char>, n: int)
    requires
        0 <= n <= s.len(),
        quote_run(s).4,
    ensures
        quote_run(s.take(n)).4,
    decreases s.len() - n,
{
    if n < s.len() {
        lemma_quote_ok_prefix(s, n + 1);
        assert(s.take(n + 1).drop_last() =~= s.take(n));
    } else {
        assert(s.take(n) =~= s);
    }
}

/// A safe split keeps the flag raised at the end.
proof fn lemma_quote_ok_monotone(s: Seq<char>, n: int)
    requires
        n == s.len(),
    ensures
        split_arguments_safe(s) ==> quote_run(s).4,
{
}

/// Reading `'v` scans every character of a value without quotes or
/// backslashes into the current argument, inside the quotes.
proof fn lemma_esc_run_quoted(v: Seq<char>, k: int)
    requires
        0 <= k <= v.len(),
        forall|i: int| 0 <= i < v.len() ==> #[trigger] v[i] != '\'' && v[i] != '\\',
    ensures
        esc_run(seq!['\''] + v.take(k)) == (Seq::<Seq<char>>::empty(), v.take(k), true, '\'', false),
    decreases k,
{
    let s = seq!['\''] + v.take(k);
    if k == 0 {
        assert(s.drop_last() =~= Seq::<char>::empty());
        assert(s.last() == '\'');
        assert(esc_run(s.drop_last()) == (Seq::<Seq<char>>::empty(), Seq::<char>::empty(), false, '"', false));
        assert(v.take(0) =~= Seq::<char>::empty());
    } else {
        lemma_esc_run_quoted(v, k - 1);
        assert(s.drop_last() =~= seq!['\''] + v.take(k - 1));
        assert(s.last() == v[k - 1]);
        assert(v.take(k - 1).push(v[k - 1]) =~= v.take(k));
        assert(esc_run(s) == esc_step(esc_run(s.drop_last()), v[k - 1]));
    }
}

/// The argument part `('v')` that an attribute with the single value `v`
/// displays reads back as that one value, when `v` is not blank-edged and
/// holds no `'` or backslash.
pub proof fn lemma_displayed_value_reads_back(v: Seq<char>)
    requires
        v.len() > 0,
        trim(v) == v,
        forall|i: int| 0 <= i < v.len() ==> #[trigger] v[i] != '\'' && v[i] != '\\',
    ensures
        spec_parse_attribute_arguments("('"@ + v + "')"@) == seq![v],
{
    reveal_strlit("('");
    reveal_strlit("')");
    let s = "('"@ + v + "')"@;
    assert(s[0] == '(');
    assert(s.last() == ')');
    assert(!crate::text::is_ws(s[0]));
    assert(!crate::text::is_ws(s.last()));
    assert(crate::text::trim_start(s) == s);
    assert(crate::text::trim_end(s) == s);
    let inner = s.subrange(1, s.len() - 1);
    assert(inner =~= (seq!['\''] + v.take(v.len() as int)).push('\''));
    lemma_esc_run_quoted(v, v.len() as int);
    assert(v.take(v.len() as int) =~= v);
    assert(inner.drop_last() =~= seq!['\''] + v);
    assert(esc_run(inner) == esc_step(esc_run(inner.drop_last()), '\''));
}

} // verus!

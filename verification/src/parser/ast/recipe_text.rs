//! Reading a recipe from its source text, used when the syntax tree gives no
//! recipes: the header line, the parameters, the dependencies and the body.
use vstd::prelude::*;
use crate::text::{
    trim, find_char, rfind_char, words, starts_with, contains, chars_of, string_of, sub_chars, substring,
    str_trim, trim_chars, find_char_exec, rfind_char_exec, has_char, owned, join,
};
use crate::parser::ast::queries::info::{strs, opt_str};
use crate::types::{JustTask, Parameter};
use crate::parser::ast::errors::ASTError;
use crate::parser::ast::queries::{AttributeInfo, AttributeType, RecipeInfo, ParameterInfo, DependencyInfo, CommentInfo};
use crate::parser::ast::queries::info::spec_format_dependency;

verus! {

// ---------------------------------------------------------------------------
// Parameters
// ---------------------------------------------------------------------------

/// A single quote character, which cannot be unquoted.
pub open spec fn is_lone_quote(v: Seq<char>) -> bool {
    v == seq!['"'] || v == seq!['\'']
}

/// Whether `v` starts and ends with the same kind of quote.
pub open spec fn is_quoted(v: Seq<char>) -> bool {
    v.len() > 0 && ((v[0] == '"' && v.last() == '"') || (v[0] == '\'' && v.last() == '\''))
}

/// `v` without its enclosing quotes, if it has them.
pub open spec fn unquote(v: Seq<char>) -> Seq<char> {
    if is_quoted(v) {
        v.subrange(1, v.len() - 1)
    } else {
        v
    }
}

/// The default written after the first `=` of `part`, trimmed.
pub open spec fn raw_default(part: Seq<char>, e: nat) -> Seq<char> {
    trim(part.subrange((e + 1) as int, part.len() as int))
}

/// Whether reading `part` as a parameter meets a default that is a lone quote.
pub open spec fn param_fails(part: Seq<char>) -> bool {
    match find_char(part, '=') {
        Some(e) => is_lone_quote(raw_default(part, e)),
        None => false,
    }
}

/// A parameter as (name, default, description).
pub open spec fn spec_param(part: Seq<char>) -> (Seq<char>, Option<Seq<char>>, Option<Seq<char>>) {
    match find_char(part, '=') {
        Some(e) => (trim(part.subrange(0, e as int)), Some(unquote(raw_default(part, e))), None),
        None => (part, None, None),
    }
}

/// A parameter as (name, default, description).
pub open spec fn param_view(p: Parameter) -> (Seq<char>, Option<Seq<char>>, Option<Seq<char>>) {
    (p.name@, opt_str(p.default), opt_str(p.description))
}

/// Views of a list of parameters.
pub open spec fn params_view(ps: Seq<Parameter>) -> Seq<(Seq<char>, Option<Seq<char>>, Option<Seq<char>>)> {
    ps.map_values(|p: Parameter| param_view(p))
}

/// The parameter written as `part`: `name` or `name=default`, the default
/// without its quotes.
fn parameter_of(part: &str) -> (p: Parameter)
    requires
        !param_fails(part@),
    ensures
        param_view(p) == spec_param(part@),
{
    let v = chars_of(part);
    match find_char_exec(&v, '=') {
        Some(e) => {
            let name = str_trim(substring(&v, 0, e).as_str());
            let n = v.len();
            let d = trim_chars(&sub_chars(&v, e + 1, n));
            let dl = d.len();
            let value = if dl > 0 && ((d[0] == '"' && d[dl - 1] == '"') || (d[0] == '\'' && d[dl - 1] == '\'')) {
                proof {
                    if dl == 1 {
                        assert(d@ =~= seq![d@[0]]);
                    }
                }
                substring(&d, 1, dl - 1)
            } else {
                string_of(&d)
            };
            Parameter { name, default: Some(value), description: None }
        },
        None => Parameter { name: owned(part), default: None, description: None },
    }
}

/// State of the comma splitter after reading a prefix: the pieces so far,
/// the current piece, whether inside quotes and the opening quote.
pub open spec fn split_state(s: Seq<char>) -> (Seq<Seq<char>>, Seq<char>, bool, char)
    decreases s.len(),
{
    if s.len() == 0 {
        (seq![], seq![], false, ' ')
    } else {
        let st = split_state(s.drop_last());
        let ch = s.last();
        if (ch == '"' || ch == '\'') && !st.2 {
            (st.0, st.1.push(ch), true, ch)
        } else if (ch == '"' || ch == '\'') && st.2 && ch == st.3 {
            (st.0, st.1.push(ch), false, st.3)
        } else if ch == ',' && !st.2 {
            (if trim(st.1).len() > 0 {
                st.0.push(trim(st.1))
            } else {
                st.0
            }, seq![], st.2, st.3)
        } else {
            (st.0, st.1.push(ch), st.2, st.3)
        }
    }
}

/// The pieces of `s` between commas outside quotes, trimmed, blank ones dropped.
pub open spec fn split_params(s: Seq<char>) -> Seq<Seq<char>> {
    let st = split_state(s);
    if trim(st.1).len() > 0 {
        st.0.push(trim(st.1))
    } else {
        st.0
    }
}

/// Splits a parameter list at the commas that are outside quotes; pieces are
/// trimmed and blank ones dropped.
pub fn split_parameters(params_str: &str) -> (r: Vec<String>)
    ensures
        strs(r@) == split_params(params_str@),
{
    let v = chars_of(params_str);
    let mut parts: Vec<String> = Vec::new();
    let mut current: Vec<char> = Vec::new();
    let mut in_quotes = false;
    let mut quote_char = ' ';
    let mut i: usize = 0;
    while i < v.len()
        invariant
            i <= v@.len(),
            v@ == params_str@,
            split_state(v@.take(i as int)) == (strs(parts@), current@, in_quotes, quote_char),
        decreases v.len() - i,
    {
        let ch = v[i];
        assert(v@.take(i + 1).drop_last() =~= v@.take(i as int));
        if (ch == '"' || ch == '\'') && !in_quotes {
            in_quotes = true;
            quote_char = ch;
            current.push(ch);
        } else if (ch == '"' || ch == '\'') && in_quotes && ch == quote_char {
            in_quotes = false;
            current.push(ch);
        } else if ch == ',' && !in_quotes {
            let t = trim_chars(&current);
            if t.len() > 0 {
                let ghost prev = strs(parts@);
                parts.push(string_of(&t));
                assert(strs(parts@) =~= prev.push(t@));
            }
            current = Vec::new();
        } else {
            current.push(ch);
        }
        i = i + 1;
    }
    assert(v@.take(v@.len() as int) =~= v@);
    let t = trim_chars(&current);
    if t.len() > 0 {
        let ghost prev = strs(parts@);
        parts.push(string_of(&t));
        assert(strs(parts@) =~= prev.push(t@));
    }
    parts
}

/// The parameters of the pieces, each trimmed, blank ones skipped.
pub open spec fn params_of_pieces(pieces: Seq<Seq<char>>) -> Seq<(Seq<char>, Option<Seq<char>>, Option<Seq<char>>)>
    decreases pieces.len(),
{
    if pieces.len() == 0 {
        seq![]
    } else {
        let t = trim(pieces.last());
        params_of_pieces(pieces.drop_last()) + if t.len() == 0 {
            seq![]
        } else {
            seq![spec_param(t)]
        }
    }
}

/// Whether every piece can be read as a parameter.
pub open spec fn pieces_readable(pieces: Seq<Seq<char>>) -> bool {
    forall|k: int| 0 <= k < pieces.len() ==> !param_fails(trim(#[trigger] pieces[k]))
}

/// The parameters of a comma-separated list.
pub open spec fn spec_parse_parameters(s: Seq<char>) -> Seq<(Seq<char>, Option<Seq<char>>, Option<Seq<char>>)> {
    if trim(s).len() == 0 {
        seq![]
    } else {
        params_of_pieces(split_params(s))
    }
}

/// Whether a parameter list can be read: no default is a lone quote.
pub open spec fn parameters_readable(s: Seq<char>) -> bool {
    trim(s).len() == 0 || pieces_readable(split_params(s))
}

/// The parameters of a comma-separated list such as `a="x", b='y', c`.
pub fn parse_parameters(params_str: &str) -> (r: Vec<Parameter>)
    requires
        parameters_readable(params_str@),
    ensures
        params_view(r@) == spec_parse_parameters(params_str@),
{
    let mut parameters: Vec<Parameter> = Vec::new();
    if crate::text::is_blank(params_str) {
        assert(params_view(parameters@) =~= Seq::<(Seq<char>, Option<Seq<char>>, Option<Seq<char>>)>::empty());
        return parameters;
    }
    let parts = split_parameters(params_str);
    let mut i: usize = 0;
    while i < parts.len()
        invariant
            i <= parts@.len(),
            strs(parts@) == split_params(params_str@),
            pieces_readable(split_params(params_str@)),
            params_view(parameters@) == params_of_pieces(strs(parts@).take(i as int)),
        decreases parts.len() - i,
    {
        assert(strs(parts@).take(i + 1).drop_last() =~= strs(parts@).take(i as int));
        assert(strs(parts@).take(i + 1).last() == parts@[i as int]@);
        let part = str_trim(parts[i].as_str());
        if !part.as_str().is_empty() {
            assert(!param_fails(trim(strs(parts@)[i as int])));
            let p = parameter_of(part.as_str());
            let ghost prev = params_view(parameters@);
            parameters.push(p);
            assert(params_view(parameters@) =~= prev.push(param_view(p)));
        } else {
            assert(part@.len() == 0);
        }
        i = i + 1;
    }
    assert(strs(parts@).take(parts@.len() as int) =~= strs(parts@));
    parameters
}

/// Whether every word can be read as a parameter.
pub open spec fn words_readable(parts: Seq<Seq<char>>) -> bool {
    forall|k: int| 0 <= k < parts.len() ==> !param_fails(#[trigger] parts[k])
}

/// The parameters of space-separated words such as `a b="x"`.
pub fn parse_space_separated_parameters(parts: &[String]) -> (r: Vec<Parameter>)
    requires
        words_readable(strs(parts@)),
    ensures
        params_view(r@) == strs(parts@).map_values(|w: Seq<char>| spec_param(w)),
{
    let mut parameters: Vec<Parameter> = Vec::new();
    let mut i: usize = 0;
    while i < parts.len()
        invariant
            i <= parts@.len(),
            words_readable(strs(parts@)),
            params_view(parameters@) == strs(parts@).take(i as int).map_values(|w: Seq<char>| spec_param(w)),
        decreases parts.len() - i,
    {
        assert(strs(parts@)[i as int] == parts@[i as int]@);
        let p = parameter_of(parts[i].as_str());
        let ghost prev = params_view(parameters@);
        parameters.push(p);
        assert(params_view(parameters@) =~= prev.push(param_view(p)));
        assert(strs(parts@).take(i + 1).map_values(|w: Seq<char>| spec_param(w)) =~= strs(parts@).take(
            i as int,
        ).map_values(|w: Seq<char>| spec_param(w)).push(spec_param(parts@[i as int]@)));
        i = i + 1;
    }
    assert(strs(parts@).take(parts@.len() as int) =~= strs(parts@));
    parameters
}

// ---------------------------------------------------------------------------
// The header line
// ---------------------------------------------------------------------------

/// Name and parameters of a declaration `name(params)`, `name p1 p2=x` or `name`.
pub open spec fn spec_declaration(d: Seq<char>) -> (Seq<char>, Seq<(Seq<char>, Option<Seq<char>>, Option<Seq<char>>)>) {
    match (find_char(d, '('), rfind_char(d, ')')) {
        (Some(ps), Some(pe)) => (
            trim(d.subrange(0, ps as int)),
            spec_parse_parameters(d.subrange((ps + 1) as int, pe as int)),
        ),
        _ => if d.contains(' ') {
            (words(d)[0], words(d).drop_first().map_values(|w: Seq<char>| spec_param(w)))
        } else {
            (d, seq![])
        },
    }
}

/// Whether a declaration can be read: a `)` after the first `(`, a word
/// when there is a space, and no default that is a lone quote.
pub open spec fn declaration_readable(d: Seq<char>) -> bool {
    match (find_char(d, '('), rfind_char(d, ')')) {
        (Some(ps), Some(pe)) => ps < pe && parameters_readable(d.subrange((ps + 1) as int, pe as int)),
        _ => d.contains(' ') ==> words(d).len() > 0 && words_readable(words(d).drop_first()),
    }
}

/// All but the first of a list of strings.
fn tail_strings(v: &Vec<String>) -> (r: Vec<String>)
    requires
        v@.len() > 0,
    ensures
        strs(r@) == strs(v@).drop_first(),
{
    let mut r: Vec<String> = Vec::new();
    let mut i: usize = 1;
    while i < v.len()
        invariant
            1 <= i <= v@.len(),
            strs(r@) == strs(v@).subrange(1, i as int),
        decreases v.len() - i,
    {
        let ghost prev = strs(r@);
        r.push(v[i].clone());
        assert(strs(r@) =~= prev.push(v@[i as int]@));
        assert(strs(v@).subrange(1, i + 1) =~= strs(v@).subrange(1, i as int).push(v@[i as int]@));
        i = i + 1;
    }
    assert(strs(v@).subrange(1, v@.len() as int) =~= strs(v@).drop_first());
    r
}

/// Name and parameters of a recipe declaration: parameters in parentheses
/// separated by commas, or words after the name.
pub fn parse_recipe_declaration(declaration: &str) -> (r: (String, Vec<Parameter>))
    requires
        declaration_readable(declaration@),
    ensures
        (r.0@, params_view(r.1@)) == spec_declaration(declaration@),
{
    let v = chars_of(declaration);
    match (find_char_exec(&v, '('), rfind_char_exec(&v, ')')) {
        (Some(ps), Some(pe)) => {
            let name = str_trim(substring(&v, 0, ps).as_str());
            let params_str = substring(&v, ps + 1, pe);
            let parameters = parse_parameters(params_str.as_str());
            (name, parameters)
        },
        _ => {
            if has_char(&v, ' ') {
                let parts = crate::text::split_whitespace(declaration);
                assert(strs(parts@) == words(declaration@));
                let name = parts[0].clone();
                let rest = tail_strings(&parts);
                let parameters = parse_space_separated_parameters(rest.as_slice());
                (name, parameters)
            } else {
                (owned(declaration), Vec::new())
            }
        },
    }
}

/// Whether a header line can be read.
pub open spec fn line_readable(line: Seq<char>) -> bool {
    match find_char(line, ':') {
        Some(c) => declaration_readable(trim(line.subrange(0, c as int))),
        None => true,
    }
}

/// Name, parameters and dependencies of a header line `decl: deps`.
pub open spec fn spec_recipe_line(line: Seq<char>) -> Option<
    (Seq<char>, Seq<(Seq<char>, Option<Seq<char>>, Option<Seq<char>>)>, Seq<Seq<char>>),
> {
    match find_char(line, ':') {
        Some(c) => {
            let d = spec_declaration(trim(line.subrange(0, c as int)));
            Some((d.0, d.1, words(trim(line.subrange((c + 1) as int, line.len() as int)))))
        },
        None => None,
    }
}

/// Name, parameters and dependencies of a header line; an error when the
/// line has no colon.
pub fn parse_recipe_line(line: &str) -> (r: Result<(String, Vec<Parameter>, Vec<String>), ASTError>)
    requires
        line_readable(line@),
    ensures
        match spec_recipe_line(line@) {
            Some(x) => r matches Ok(t) && t.0@ == x.0 && params_view(t.1@) == x.1 && strs(t.2@) == x.2,
            None => r matches Err(ASTError::ParameterParsing { recipe_name: n, details: d }) && n@ == "unknown"@
                && d@ == "Recipe line does not contain colon"@,
        },
{
    let v = chars_of(line);
    match find_char_exec(&v, ':') {
        None => Err(ASTError::parameter_parsing("unknown", "Recipe line does not contain colon")),
        Some(c) => {
            let recipe_part = str_trim(substring(&v, 0, c).as_str());
            let n = v.len();
            let deps_part = str_trim(substring(&v, c + 1, n).as_str());
            let (name, parameters) = parse_recipe_declaration(recipe_part.as_str());
            let dependencies = if deps_part.as_str().is_empty() {
                let d: Vec<String> = Vec::new();
                assert(strs(d@) =~= words(deps_part@));
                d
            } else {
                crate::text::split_whitespace(deps_part.as_str())
            };
            Ok((name, parameters, dependencies))
        },
    }
}

// ---------------------------------------------------------------------------
// The body
// ---------------------------------------------------------------------------

/// A line that continues a recipe body: indented or blank.
pub open spec fn is_body_line(l: Seq<char>) -> bool {
    (l.len() > 0 && (l[0] == ' ' || l[0] == '\t')) || trim(l).len() == 0
}

/// First index from `i` on of a line whose trimmed text is `t`.
pub open spec fn line_index_from(lines: Seq<Seq<char>>, t: Seq<char>, i: nat) -> Option<nat>
    decreases lines.len() - i,
{
    if i >= lines.len() {
        None
    } else if trim(lines[i as int]) == t {
        Some(i)
    } else {
        line_index_from(lines, t, i + 1)
    }
}

/// The run of body lines starting at `i`.
pub open spec fn body_run(lines: Seq<Seq<char>>, i: nat) -> Seq<Seq<char>>
    decreases lines.len() - i,
{
    if i >= lines.len() || !is_body_line(lines[i as int]) {
        seq![]
    } else {
        seq![lines[i as int]] + body_run(lines, i + 1)
    }
}

/// The body under the header `t`: the body lines after it, joined and trimmed.
pub open spec fn spec_body(lines: Seq<Seq<char>>, t: Seq<char>) -> Seq<char> {
    match line_index_from(lines, t, 0) {
        Some(k) => trim(join(body_run(lines, k + 1), "\n"@)),
        None => seq![],
    }
}

/// The body lines following the header `recipe_line`, joined and trimmed.
pub fn extract_recipe_body(lines: &Vec<String>, recipe_line: &str) -> (r: String)
    ensures
        r@ == spec_body(strs(lines@), recipe_line@),
{
    let ghost ls = strs(lines@);
    let mut i: usize = 0;
    let mut found = false;
    while i < lines.len() && !found
        invariant
            i <= lines@.len(),
            ls == strs(lines@),
            line_index_from(ls, recipe_line@, 0) == line_index_from(ls, recipe_line@, i as nat),
            found ==> i < lines@.len() && trim(ls[i as int]) == recipe_line@,
        decreases lines.len() - i, if found { 0int } else { 1int },
    {
        assert(ls[i as int] == lines@[i as int]@);
        if crate::text::str_eq(str_trim(lines[i].as_str()).as_str(), recipe_line) {
            found = true;
        } else {
            i = i + 1;
        }
    }
    if !found {
        return String::new();
    }
    let start = i + 1;
    let mut j: usize = start;
    let mut stop = false;
    let mut body_lines: Vec<String> = Vec::new();
    while j < lines.len() && !stop
        invariant
            start <= j <= lines@.len(),
            ls == strs(lines@),
            body_run(ls, start as nat) == strs(body_lines@) + body_run(ls, j as nat),
            stop ==> body_run(ls, j as nat) =~= Seq::<Seq<char>>::empty(),
        decreases lines.len() - j, if stop { 0int } else { 1int },
    {
        assert(ls[j as int] == lines@[j as int]@);
        let l = &lines[j];
        let lv = chars_of(l.as_str());
        let indented = lv.len() > 0 && (lv[0] == ' ' || lv[0] == '\t');
        if indented || crate::text::is_blank(l.as_str()) {
            let ghost prev = strs(body_lines@);
            body_lines.push(l.clone());
            assert(strs(body_lines@) =~= prev.push(l@));
            assert(strs(body_lines@) + body_run(ls, (j + 1) as nat) =~= prev + body_run(ls, j as nat));
            j = j + 1;
        } else {
            stop = true;
        }
    }
    assert(body_run(ls, j as nat) =~= Seq::<Seq<char>>::empty());
    assert(body_run(ls, start as nat) =~= strs(body_lines@));
    let joined = crate::text::join_strings(&body_lines, "\n");
    str_trim(joined.as_str())
}

// ---------------------------------------------------------------------------
// A whole recipe
// ---------------------------------------------------------------------------

/// A header line: not a comment, with a colon that is not part of `:=`.
pub open spec fn is_header_line(l: Seq<char>) -> bool {
    let t = trim(l);
    !starts_with(t, "#"@) && t.contains(':') && !contains(t, ":="@)
}

/// Index of the first header line from `i` on.
pub open spec fn header_from(lines: Seq<Seq<char>>, i: nat) -> Option<nat>
    decreases lines.len() - i,
{
    if i >= lines.len() {
        None
    } else if is_header_line(lines[i as int]) {
        Some(i)
    } else {
        header_from(lines, i + 1)
    }
}

/// The text of the comment lines among `lines`, without `#` and trimmed.
pub open spec fn comment_texts(lines: Seq<Seq<char>>) -> Seq<Seq<char>>
    decreases lines.len(),
{
    if lines.len() == 0 {
        seq![]
    } else {
        let t = trim(lines.last());
        comment_texts(lines.drop_last()) + if starts_with(t, "#"@) {
            seq![trim(crate::text::drop_leading(t, '#'))]
        } else {
            seq![]
        }
    }
}

/// Whether the header line of `text`, if any, can be read.
pub open spec fn text_readable(text: Seq<char>) -> bool {
    let lines = crate::text::text_lines(text);
    header_from(lines, 0) matches Some(k) ==> line_readable(trim(lines[k as int]))
}

/// Whether reading `part` as a parameter meets a default that is a lone
/// quote.
fn param_fails_exec(part: &str) -> (b: bool)
    ensures
        b == param_fails(part@),
{
    let v = chars_of(part);
    match find_char_exec(&v, '=') {
        Some(e) => {
            let n = v.len();
            let d = trim_chars(&sub_chars(&v, e + 1, n));
            let b = d.len() == 1 && (d[0] == '"' || d[0] == '\'');
            proof {
                if d@.len() == 1 {
                    assert(d@ =~= seq![d@[0]]);
                }
            }
            b
        },
        None => false,
    }
}

/// Whether a parameter list can be read.
pub fn parameters_readable_exec(s: &str) -> (b: bool)
    ensures
        b == parameters_readable(s@),
{
    if crate::text::is_blank(s) {
        return true;
    }
    let parts = split_parameters(s);
    let mut k: usize = 0;
    while k < parts.len()
        invariant
            k <= parts@.len(),
            strs(parts@) == split_params(s@),
            trim(s@).len() != 0,
            forall|j: int| 0 <= j < k ==> !param_fails(trim(#[trigger] split_params(s@)[j])),
        decreases parts@.len() - k,
    {
        assert(split_params(s@)[k as int] == parts@[k as int]@);
        let t = str_trim(parts[k].as_str());
        if param_fails_exec(t.as_str()) {
            assert(param_fails(trim(split_params(s@)[k as int])));
            assert(!pieces_readable(split_params(s@)));
            return false;
        }
        k = k + 1;
    }
    true
}

/// Whether every word can be read as a parameter.
fn words_readable_exec(parts: &Vec<String>) -> (b: bool)
    ensures
        b == words_readable(strs(parts@)),
{
    let mut k: usize = 0;
    while k < parts.len()
        invariant
            k <= parts@.len(),
            forall|j: int| 0 <= j < k ==> !param_fails(#[trigger] strs(parts@)[j]),
        decreases parts@.len() - k,
    {
        assert(strs(parts@)[k as int] == parts@[k as int]@);
        if param_fails_exec(parts[k].as_str()) {
            return false;
        }
        k = k + 1;
    }
    true
}

/// Whether a declaration can be read.
pub fn declaration_readable_exec(d: &str) -> (b: bool)
    ensures
        b == declaration_readable(d@),
{
    let v = chars_of(d);
    match (find_char_exec(&v, '('), rfind_char_exec(&v, ')')) {
        (Some(ps), Some(pe)) => {
            if ps < pe {
                let inner = substring(&v, ps + 1, pe);
                parameters_readable_exec(inner.as_str())
            } else {
                false
            }
        },
        _ => {
            if has_char(&v, ' ') {
                let parts = crate::text::split_whitespace(d);
                assert(strs(parts@) == words(d@));
                if parts.len() == 0 {
                    false
                } else {
                    let rest = tail_strings(&parts);
                    words_readable_exec(&rest)
                }
            } else {
                true
            }
        },
    }
}

/// Whether a header line can be read.
pub fn line_readable_exec(line: &str) -> (b: bool)
    ensures
        b == line_readable(line@),
{
    let v = chars_of(line);
    match find_char_exec(&v, ':') {
        Some(c) => {
            let decl = str_trim(substring(&v, 0, c).as_str());
            declaration_readable_exec(decl.as_str())
        },
        None => true,
    }
}

/// Whether the header line of `text`, if any, can be read.
pub fn text_readable_exec(text: &str) -> (b: bool)
    ensures
        b == text_readable(text@),
{
    let lines = crate::text::lines_of(text);
    let ghost ls = strs(lines@);
    let mut i: usize = 0;
    while i < lines.len()
        invariant
            i <= lines@.len(),
            ls == strs(lines@),
            ls == crate::text::text_lines(text@),
            header_from(ls, 0) == header_from(ls, i as nat),
        decreases lines@.len() - i,
    {
        assert(ls[i as int] == lines@[i as int]@);
        let t = str_trim(lines[i].as_str());
        if !crate::text::str_starts_with(t.as_str(), "#") && has_char(&chars_of(t.as_str()), ':')
            && !crate::text::str_contains(t.as_str(), ":=") {
            return line_readable_exec(t.as_str());
        }
        i = i + 1;
    }
    true
}

/// `t` is the recipe read from `lines` whose header is line `k`.
pub open spec fn is_text_task(t: JustTask, lines: Seq<Seq<char>>, k: nat, line_number: usize) -> bool {
    let h = trim(lines[k as int]);
    spec_recipe_line(h) matches Some(x) && {
        &&& t.name@ == x.0
        &&& params_view(t.parameters@) == x.1
        &&& strs(t.dependencies@) == x.2
        &&& strs(t.comments@) == comment_texts(lines.take(k as int))
        &&& t.body@ == spec_body(lines, h)
        &&& t.line_number == line_number
        &&& t.group is None
        &&& t.is_private == starts_with(t.name@, "_"@)
        &&& t.confirm_message is None
        &&& t.doc is None
        &&& t.attributes@.len() == 0
    }
}

/// The recipe written in `text`: the comments before its header, the name,
/// parameters and dependencies of the header and the indented body below it.
/// Privacy follows the leading `_` convention. An error when no line is a
/// header.
pub fn parse_recipe_text(text: &str, line_number: usize) -> (r: Result<JustTask, ASTError>)
    requires
        text_readable(text@),
    ensures
        match header_from(crate::text::text_lines(text@), 0) {
            Some(k) => r matches Ok(t) && is_text_task(t, crate::text::text_lines(text@), k, line_number),
            None => r matches Err(ASTError::RecipeExtraction { recipe_name: n, reason: m }) && n@ == "unknown"@
                && m@ == "No recipe line found"@,
        },
{
    let lines = crate::text::lines_of(text);
    let ghost ls = strs(lines@);
    let mut comments: Vec<String> = Vec::new();
    let mut i: usize = 0;
    let mut found = false;
    while i < lines.len() && !found
        invariant
            i <= lines@.len(),
            ls == strs(lines@),
            header_from(ls, 0) == header_from(ls, i as nat),
            strs(comments@) == comment_texts(ls.take(i as int)),
            found ==> i < lines@.len() && is_header_line(ls[i as int]),
        decreases lines.len() - i, if found { 0int } else { 1int },
    {
        assert(ls[i as int] == lines@[i as int]@);
        assert(ls.take(i + 1).drop_last() =~= ls.take(i as int));
        let trimmed = str_trim(lines[i].as_str());
        if crate::text::str_starts_with(trimmed.as_str(), "#") {
            let ghost prev = strs(comments@);
            let c = str_trim(crate::text::drop_leading_exec(trimmed.as_str(), '#').as_str());
            comments.push(c);
            assert(strs(comments@) =~= prev.push(c@));
            assert(strs(comments@) =~= comment_texts(ls.take(i + 1)));
            i = i + 1;
        } else if has_char(&chars_of(trimmed.as_str()), ':') && !crate::text::str_contains(trimmed.as_str(), ":=") {
            found = true;
        } else {
            assert(comment_texts(ls.take(i + 1)) =~= comment_texts(ls.take(i as int)));
            i = i + 1;
        }
    }
    if !found {
        return Err(ASTError::recipe_extraction("unknown", "No recipe line found"));
    }
    let recipe_line = str_trim(lines[i].as_str());
    proof {
        crate::text::lemma_find_char_from(recipe_line@, ':', 0);
    }
    let (name, parameters, dependencies) = match parse_recipe_line(recipe_line.as_str()) {
        Ok(x) => x,
        Err(e) => {
            return Err(e);
        },
    };
    let body = extract_recipe_body(&lines, recipe_line.as_str());
    let is_private = crate::text::str_starts_with(name.as_str(), "_");
    Ok(
        JustTask {
            name,
            body,
            parameters,
            dependencies,
            comments,
            line_number,
            group: None,
            is_private,
            confirm_message: None,
            doc: None,
            attributes: Vec::new(),
        },
    )
}

/// Name declared by the part of a header before its colon: the text before
/// `(`, else the first word, else all of it; `None` when there is a space
/// but no word.
pub open spec fn declared_name(np: Seq<char>) -> Option<Seq<char>> {
    match find_char(np, '(') {
        Some(p) => Some(trim(np.subrange(0, p as int))),
        None => if np.contains(' ') {
            if words(np).len() > 0 {
                Some(words(np)[0])
            } else {
                None
            }
        } else {
            Some(np)
        },
    }
}

/// A line that may declare a recipe: a colon, not a comment, not `:=`.
pub open spec fn is_name_line(t: Seq<char>) -> bool {
    t.contains(':') && !starts_with(t, "#"@) && !contains(t, ":="@)
}

/// The first recipe name declared from line `i` on.
pub open spec fn name_from(lines: Seq<Seq<char>>, i: nat) -> Option<Seq<char>>
    decreases lines.len() - i,
{
    if i >= lines.len() {
        None
    } else {
        let t = trim(lines[i as int]);
        if is_name_line(t) {
            match find_char(t, ':') {
                Some(c) => match declared_name(trim(t.subrange(0, c as int))) {
                    None => None,
                    Some(n) => if n.len() > 0 {
                        Some(n)
                    } else {
                        name_from(lines, i + 1)
                    },
                },
                None => name_from(lines, i + 1),
            }
        } else {
            name_from(lines, i + 1)
        }
    }
}

/// The name of the first recipe declared in `text`, found without parsing.
pub fn extract_recipe_name_from_text(text: &str) -> (r: Option<String>)
    ensures
        opt_str(r) == name_from(crate::text::text_lines(text@), 0),
{
    let lines = crate::text::lines_of(text);
    let ghost ls = strs(lines@);
    let mut i: usize = 0;
    while i < lines.len()
        invariant
            i <= lines@.len(),
            ls == strs(lines@),
            ls == crate::text::text_lines(text@),
            name_from(ls, 0) == name_from(ls, i as nat),
        decreases lines.len() - i,
    {
        assert(ls[i as int] == lines@[i as int]@);
        let trimmed = str_trim(lines[i].as_str());
        let tv = chars_of(trimmed.as_str());
        if has_char(&tv, ':') && !crate::text::str_starts_with(trimmed.as_str(), "#")
            && !crate::text::str_contains(trimmed.as_str(), ":=") {
            match find_char_exec(&tv, ':') {
                Some(c) => {
                    let np = str_trim(substring(&tv, 0, c).as_str());
                    let nv = chars_of(np.as_str());
                    let name = match find_char_exec(&nv, '(') {
                        Some(p) => str_trim(substring(&nv, 0, p).as_str()),
                        None => {
                            if has_char(&nv, ' ') {
                                let ws = crate::text::split_whitespace(np.as_str());
                                assert(strs(ws@) == words(np@));
                                if ws.len() == 0 {
                                    return None;
                                }
                                assert(strs(ws@)[0] == ws@[0]@);
                                ws[0].clone()
                            } else {
                                np
                            }
                        },
                    };
                    assert(declared_name(np@) == Some(name@));
                    if !name.as_str().is_empty() {
                        return Some(name);
                    }
                },
                None => {},
            }
        }
        i = i + 1;
    }
    None
}

// ---------------------------------------------------------------------------
// Recipes from the syntax tree
// ---------------------------------------------------------------------------

/// Group, privacy, confirmation message and documentation given by a list
/// of attributes; a later attribute overrides an earlier one.
pub open spec fn spec_metadata(attrs: Seq<AttributeInfo>) -> (
    Option<Seq<char>>,
    bool,
    Option<Seq<char>>,
    Option<Seq<char>>,
)
    decreases attrs.len(),
{
    if attrs.len() == 0 {
        (None, false, None, None)
    } else {
        let m = spec_metadata(attrs.drop_last());
        let a = attrs.last();
        let v = opt_str(a.value);
        match a.attribute_type {
            AttributeType::Group => if v is Some {
                (v, m.1, m.2, m.3)
            } else {
                m
            },
            AttributeType::Private => (m.0, true, m.2, m.3),
            AttributeType::Confirm => (m.0, m.1, if v is Some {
                v
            } else {
                Some("Are you sure?"@)
            }, m.3),
            AttributeType::Doc => if v is Some {
                (m.0, m.1, m.2, v)
            } else {
                m
            },
            _ => m,
        }
    }
}

/// `a` is an attribute of kind `k` that carries a value.
pub open spec fn is_valued(a: AttributeInfo, k: AttributeType) -> bool {
    a.attribute_type == k && a.value is Some
}

/// The group of a recipe is the value of its last `group` attribute that
/// carries one; without such an attribute it has no group.
pub proof fn lemma_group_from_last_valued(attrs: Seq<AttributeInfo>)
    ensures
        forall|i: int|
            0 <= i < attrs.len() && is_valued(attrs[i], AttributeType::Group) && (forall|j: int|
                i < j < attrs.len() ==> !#[trigger] is_valued(attrs[j], AttributeType::Group))
                ==> spec_metadata(attrs).0 == Some(attrs[i].value->0@),
        (forall|j: int| 0 <= j < attrs.len() ==> !#[trigger] is_valued(attrs[j], AttributeType::Group))
            ==> spec_metadata(attrs).0 is None,
    decreases attrs.len(),
{
    if attrs.len() > 0 {
        let init = attrs.drop_last();
        lemma_group_from_last_valued(init);
        let last = attrs.len() - 1;
        assert forall|i: int|
            0 <= i < attrs.len() && is_valued(attrs[i], AttributeType::Group) && (forall|j: int|
                i < j < attrs.len() ==> !#[trigger] is_valued(attrs[j], AttributeType::Group))
                implies spec_metadata(attrs).0 == Some(attrs[i].value->0@) by {
            if i < last {
                assert(!is_valued(attrs[last], AttributeType::Group));
                assert(init[i] == attrs[i]);
                assert forall|j: int| i < j < init.len() implies !#[trigger] is_valued(init[j], AttributeType::Group) by {
                    assert(init[j] == attrs[j]);
                    assert(!is_valued(attrs[j], AttributeType::Group));
                }
            }
        }
        if forall|j: int| 0 <= j < attrs.len() ==> !#[trigger] is_valued(attrs[j], AttributeType::Group) {
            assert(!is_valued(attrs[last], AttributeType::Group));
            assert forall|j: int| 0 <= j < init.len() implies !#[trigger] is_valued(init[j], AttributeType::Group) by {
                assert(init[j] == attrs[j]);
                assert(!is_valued(attrs[j], AttributeType::Group));
            }
        }
    }
}

/// The documentation of a recipe is the value of its last `doc` attribute
/// that carries one; without such an attribute it has none.
pub proof fn lemma_doc_from_last_valued(attrs: Seq<AttributeInfo>)
    ensures
        forall|i: int|
            0 <= i < attrs.len() && is_valued(attrs[i], AttributeType::Doc) && (forall|j: int|
                i < j < attrs.len() ==> !#[trigger] is_valued(attrs[j], AttributeType::Doc))
                ==> spec_metadata(attrs).3 == Some(attrs[i].value->0@),
        (forall|j: int| 0 <= j < attrs.len() ==> !#[trigger] is_valued(attrs[j], AttributeType::Doc))
            ==> spec_metadata(attrs).3 is None,
    decreases attrs.len(),
{
    if attrs.len() > 0 {
        let init = attrs.drop_last();
        lemma_doc_from_last_valued(init);
        let last = attrs.len() - 1;
        assert forall|i: int|
            0 <= i < attrs.len() && is_valued(attrs[i], AttributeType::Doc) && (forall|j: int|
                i < j < attrs.len() ==> !#[trigger] is_valued(attrs[j], AttributeType::Doc))
                implies spec_metadata(attrs).3 == Some(attrs[i].value->0@) by {
            if i < last {
                assert(!is_valued(attrs[last], AttributeType::Doc));
                assert(init[i] == attrs[i]);
                assert forall|j: int| i < j < init.len() implies !#[trigger] is_valued(init[j], AttributeType::Doc) by {
                    assert(init[j] == attrs[j]);
                    assert(!is_valued(attrs[j], AttributeType::Doc));
                }
            }
        }
        if forall|j: int| 0 <= j < attrs.len() ==> !#[trigger] is_valued(attrs[j], AttributeType::Doc) {
            assert(!is_valued(attrs[last], AttributeType::Doc));
            assert forall|j: int| 0 <= j < init.len() implies !#[trigger] is_valued(init[j], AttributeType::Doc) by {
                assert(init[j] == attrs[j]);
                assert(!is_valued(attrs[j], AttributeType::Doc));
            }
        }
    }
}

/// The confirmation message of a recipe comes from its last `confirm`
/// attribute: that attribute's own message when it has one, and "Are you
/// sure?" when it has none. Without a `confirm` attribute there is no
/// confirmation message, and the recipe is private exactly when one of its
/// attributes is `private`.
pub proof fn lemma_confirm_message(attrs: Seq<AttributeInfo>)
    ensures
        forall|i: int|
            0 <= i < attrs.len() && attrs[i].attribute_type is Confirm && (forall|j: int|
                i < j < attrs.len() ==> !(#[trigger] attrs[j].attribute_type is Confirm)) ==> spec_metadata(
                attrs,
            ).2 == match attrs[i].value {
                Some(v) => Some(v@),
                None => Some("Are you sure?"@),
            },
        (forall|j: int| 0 <= j < attrs.len() ==> !(#[trigger] attrs[j].attribute_type is Confirm)) ==> spec_metadata(
            attrs,
        ).2 is None,
        spec_metadata(attrs).1 == exists|j: int| 0 <= j < attrs.len() && #[trigger] attrs[j].attribute_type is Private,
    decreases attrs.len(),
{
    if attrs.len() > 0 {
        let init = attrs.drop_last();
        lemma_confirm_message(init);
        let last = attrs.len() - 1;
        assert forall|i: int|
            0 <= i < attrs.len() && attrs[i].attribute_type is Confirm && (forall|j: int|
                i < j < attrs.len() ==> !(#[trigger] attrs[j].attribute_type is Confirm)) implies spec_metadata(
                attrs,
            ).2 == match attrs[i].value {
                Some(v) => Some(v@),
                None => Some("Are you sure?"@),
            } by {
            if i < last {
                assert(!(attrs[last].attribute_type is Confirm));
                assert(init[i] == attrs[i]);
                assert forall|j: int| i < j < init.len() implies !(#[trigger] init[j].attribute_type is Confirm) by {
                    assert(init[j] == attrs[j]);
                }
            }
        }
        if forall|j: int| 0 <= j < attrs.len() ==> !(#[trigger] attrs[j].attribute_type is Confirm) {
            assert(!(attrs[last].attribute_type is Confirm));
            assert forall|j: int| 0 <= j < init.len() implies !(#[trigger] init[j].attribute_type is Confirm) by {
                assert(init[j] == attrs[j]);
            }
        }
        if exists|j: int| 0 <= j < init.len() && #[trigger] init[j].attribute_type is Private {
            let j = choose|j: int| 0 <= j < init.len() && #[trigger] init[j].attribute_type is Private;
            assert(attrs[j] == init[j]);
        }
        if exists|j: int| 0 <= j < attrs.len() && #[trigger] attrs[j].attribute_type is Private {
            let j = choose|j: int| 0 <= j < attrs.len() && #[trigger] attrs[j].attribute_type is Private;
            if j < last {
                assert(attrs[j] == init[j]);
            }
        }
    }
}

/// Group, privacy, confirmation message and documentation given by
/// attributes: `[group(..)]`, `[private]`, `[confirm]` (asking "Are you
/// sure?" when it has no message) and `[doc(..)]`.
pub fn extract_attribute_metadata(attributes: &[AttributeInfo]) -> (r: (
    Option<String>,
    bool,
    Option<String>,
    Option<String>,
))
    ensures
        (opt_str(r.0), r.1, opt_str(r.2), opt_str(r.3)) == spec_metadata(attributes@),
{
    let mut group: Option<String> = None;
    let mut is_private = false;
    let mut confirm_message: Option<String> = None;
    let mut doc: Option<String> = None;
    let mut i: usize = 0;
    while i < attributes.len()
        invariant
            i <= attributes@.len(),
            (opt_str(group), is_private, opt_str(confirm_message), opt_str(doc)) == spec_metadata(
                attributes@.take(i as int),
            ),
        decreases attributes.len() - i,
    {
        let attr = &attributes[i];
        assert(attributes@.take(i + 1).drop_last() =~= attributes@.take(i as int));
        assert(attributes@.take(i + 1).last() == attributes@[i as int]);
        match &attr.attribute_type {
            AttributeType::Group => {
                match attr.get_value() {
                    Some(v) => {
                        group = Some(owned(v));
                    },
                    None => {},
                }
            },
            AttributeType::Private => {
                is_private = true;
            },
            AttributeType::Confirm => {
                confirm_message = match attr.get_value() {
                    Some(v) => Some(owned(v)),
                    None => Some(owned("Are you sure?")),
                };
            },
            AttributeType::Doc => {
                match attr.get_value() {
                    Some(v) => {
                        doc = Some(owned(v));
                    },
                    None => {},
                }
            },
            _ => {},
        }
        i = i + 1;
    }
    assert(attributes@.take(attributes@.len() as int) =~= attributes@);
    (group, is_private, confirm_message, doc)
}

/// A parameter written within five lines before and ten lines after the
/// recipe line.
pub open spec fn param_near(p: ParameterInfo, line: usize) -> bool {
    match p.position {
        Some((pl, _)) => pl >= (if line >= 5 {
            line - 5
        } else {
            0
        }) && pl <= line + 10,
        None => false,
    }
}

/// A dependency within two lines of the recipe line, or one without position.
pub open spec fn dep_near(d: DependencyInfo, line: usize) -> bool {
    match d.position {
        Some((dl, _)) => -2 <= line - dl <= 2,
        None => true,
    }
}

/// A comment at most five lines above the recipe line.
pub open spec fn comment_near(c: CommentInfo, line: usize) -> bool {
    c.line_number < line && line - c.line_number <= 5
}

/// An attribute at most two lines above the recipe line.
pub open spec fn attribute_near(a: AttributeInfo, line: usize) -> bool {
    a.line_number < line && line - a.line_number <= 2
}

/// A dependency as listed in a task: formatted when it has arguments or a
/// condition, its name otherwise.
pub open spec fn dep_text(d: DependencyInfo) -> Seq<char> {
    if d.arguments@.len() > 0 || (d.is_conditional && d.condition is Some) {
        spec_format_dependency(d)
    } else {
        d.name@
    }
}

/// A parameter of a task taken from extracted parameter information.
pub open spec fn info_param_view(p: ParameterInfo) -> (Seq<char>, Option<Seq<char>>, Option<Seq<char>>) {
    (p.name@, opt_str(p.default_value), opt_str(p.description))
}

/// The fields of an attribute, by value.
pub open spec fn attr_view(a: AttributeInfo) -> (
    Seq<char>,
    Seq<Seq<char>>,
    Option<Seq<char>>,
    usize,
    bool,
    Option<(usize, usize)>,
    AttributeType,
) {
    (a.name@, strs(a.arguments@), opt_str(a.value), a.line_number, a.is_boolean, a.position, a.attribute_type)
}

/// Line numbers small enough for the distance computations.
pub open spec fn task_lines_fit(recipes: Seq<RecipeInfo>, deps: Seq<DependencyInfo>) -> bool {
    crate::parser::ast::queries::deps::lines_fit(recipes, deps)
}

/// The parameters near `line`, as task parameters.
fn parameters_near(parameters: &[ParameterInfo], line: usize) -> (r: Vec<Parameter>)
    requires
        line <= i32::MAX,
    ensures
        params_view(r@) == parameters@.filter(|p: ParameterInfo| param_near(p, line)).map_values(
            |p: ParameterInfo| info_param_view(p),
        ),
{
    let ghost f = |p: ParameterInfo| param_near(p, line);
    let mut out: Vec<Parameter> = Vec::new();
    let mut i: usize = 0;
    while i < parameters.len()
        invariant
            i <= parameters@.len(),
            line <= i32::MAX,
            f == (|p: ParameterInfo| param_near(p, line)),
            params_view(out@) == parameters@.take(i as int).filter(f).map_values(|p: ParameterInfo| info_param_view(p)),
        decreases parameters.len() - i,
    {
        proof {
            crate::parser::ast::queries::processor::lemma_filter_take(parameters@, f, i as int);
        }
        let p = &parameters[i];
        let low = if line >= 5 {
            line - 5
        } else {
            0
        };
        let near = match p.position {
            Some((pl, _)) => pl >= low && pl <= line + 10,
            None => false,
        };
        if near {
            let q = Parameter {
                name: p.name.clone(),
                default: match &p.default_value {
                    Some(d) => Some(d.clone()),
                    None => None,
                },
                description: match &p.description {
                    Some(d) => Some(d.clone()),
                    None => None,
                },
            };
            let ghost prev = params_view(out@);
            out.push(q);
            assert(params_view(out@) =~= prev.push(param_view(q)));
            assert(parameters@.take(i + 1).filter(f).map_values(|p: ParameterInfo| info_param_view(p))
                =~= parameters@.take(i as int).filter(f).map_values(|p: ParameterInfo| info_param_view(p)).push(
                info_param_view(*p),
            ));
        }
        i = i + 1;
    }
    assert(parameters@.take(parameters@.len() as int) =~= parameters@);
    out
}

/// The dependencies near `line`, as task dependency texts.
fn dependencies_near(dependencies: &[DependencyInfo], line: usize) -> (r: Vec<String>)
    requires
        line <= i32::MAX,
        forall|i: int|
            0 <= i < dependencies@.len() ==> (#[trigger] dependencies@[i].position matches Some((l, _)) ==> l
                <= i32::MAX),
    ensures
        strs(r@) == dependencies@.filter(|d: DependencyInfo| dep_near(d, line)).map_values(
            |d: DependencyInfo| dep_text(d),
        ),
{
    let ghost f = |d: DependencyInfo| dep_near(d, line);
    let mut out: Vec<String> = Vec::new();
    let mut i: usize = 0;
    while i < dependencies.len()
        invariant
            i <= dependencies@.len(),
            line <= i32::MAX,
            f == (|d: DependencyInfo| dep_near(d, line)),
            strs(out@) == dependencies@.take(i as int).filter(f).map_values(|d: DependencyInfo| dep_text(d)),
        decreases dependencies.len() - i,
    {
        proof {
            crate::parser::ast::queries::processor::lemma_filter_take(dependencies@, f, i as int);
        }
        let d = &dependencies[i];
        let near = match d.position {
            Some((dl, _)) => if line >= dl {
                line - dl <= 2
            } else {
                dl - line <= 2
            },
            None => true,
        };
        if near {
            let t = if d.has_arguments() || d.has_condition() {
                d.format_dependency()
            } else {
                d.name.clone()
            };
            let ghost prev = strs(out@);
            out.push(t);
            assert(strs(out@) =~= prev.push(t@));
            assert(dependencies@.take(i + 1).filter(f).map_values(|d: DependencyInfo| dep_text(d))
                =~= dependencies@.take(i as int).filter(f).map_values(|d: DependencyInfo| dep_text(d)).push(
                dep_text(*d),
            ));
        }
        i = i + 1;
    }
    assert(dependencies@.take(dependencies@.len() as int) =~= dependencies@);
    out
}

/// The texts of the comments near `line`.
fn comments_near(comments: &[CommentInfo], line: usize) -> (r: Vec<String>)
    ensures
        strs(r@) == comments@.filter(|c: CommentInfo| comment_near(c, line)).map_values(|c: CommentInfo| c.text@),
{
    let ghost f = |c: CommentInfo| comment_near(c, line);
    let mut out: Vec<String> = Vec::new();
    let mut i: usize = 0;
    while i < comments.len()
        invariant
            i <= comments@.len(),
            f == (|c: CommentInfo| comment_near(c, line)),
            strs(out@) == comments@.take(i as int).filter(f).map_values(|c: CommentInfo| c.text@),
        decreases comments.len() - i,
    {
        proof {
            crate::parser::ast::queries::processor::lemma_filter_take(comments@, f, i as int);
        }
        let c = &comments[i];
        if c.line_number < line && line - c.line_number <= 5 {
            let ghost prev = strs(out@);
            out.push(c.text.clone());
            assert(strs(out@) =~= prev.push(c.text@));
            assert(comments@.take(i + 1).filter(f).map_values(|c: CommentInfo| c.text@) =~= comments@.take(
                i as int,
            ).filter(f).map_values(|c: CommentInfo| c.text@).push(c.text@));
        }
        i = i + 1;
    }
    assert(comments@.take(comments@.len() as int) =~= comments@);
    out
}

/// Copies of the attributes near `line`.
fn attributes_near(attributes: &[AttributeInfo], line: usize) -> (r: Vec<AttributeInfo>)
    ensures
        r@.map_values(|a: AttributeInfo| attr_view(a)) == attributes@.filter(
            |a: AttributeInfo| attribute_near(a, line),
        ).map_values(|a: AttributeInfo| attr_view(a)),
{
    let ghost f = |a: AttributeInfo| attribute_near(a, line);
    let mut out: Vec<AttributeInfo> = Vec::new();
    let mut i: usize = 0;
    while i < attributes.len()
        invariant
            i <= attributes@.len(),
            f == (|a: AttributeInfo| attribute_near(a, line)),
            out@.map_values(|a: AttributeInfo| attr_view(a)) == attributes@.take(i as int).filter(f).map_values(
                |a: AttributeInfo| attr_view(a),
            ),
        decreases attributes.len() - i,
    {
        proof {
            crate::parser::ast::queries::processor::lemma_filter_take(attributes@, f, i as int);
        }
        let a = &attributes[i];
        if a.line_number < line && line - a.line_number <= 2 {
            let c = a.clone();
            let ghost prev = out@.map_values(|a: AttributeInfo| attr_view(a));
            out.push(c);
            assert(out@.map_values(|a: AttributeInfo| attr_view(a)) =~= prev.push(attr_view(c)));
            assert(attributes@.take(i + 1).filter(f).map_values(|a: AttributeInfo| attr_view(a))
                =~= attributes@.take(i as int).filter(f).map_values(|a: AttributeInfo| attr_view(a)).push(
                attr_view(*a),
            ));
        }
        i = i + 1;
    }
    assert(attributes@.take(attributes@.len() as int) =~= attributes@);
    out
}

/// `t` is the task assembled for recipe `r` from the extracted information.
pub open spec fn is_assembled_task(
    t: JustTask,
    r: RecipeInfo,
    parameters: Seq<ParameterInfo>,
    dependencies: Seq<DependencyInfo>,
    comments: Seq<CommentInfo>,
    attributes: Seq<AttributeInfo>,
) -> bool {
    let line = r.line_number;
    &&& t.name@ == r.name@
    &&& t.body@.len() == 0
    &&& params_view(t.parameters@) == parameters.filter(|p: ParameterInfo| param_near(p, line)).map_values(
        |p: ParameterInfo| info_param_view(p),
    )
    &&& strs(t.dependencies@) == dependencies.filter(|d: DependencyInfo| dep_near(d, line)).map_values(
        |d: DependencyInfo| dep_text(d),
    )
    &&& strs(t.comments@) == comments.filter(|c: CommentInfo| comment_near(c, line)).map_values(
        |c: CommentInfo| c.text@,
    )
    &&& t.line_number == line
    &&& t.attributes@.map_values(|a: AttributeInfo| attr_view(a)) == attributes.filter(
        |a: AttributeInfo| attribute_near(a, line),
    ).map_values(|a: AttributeInfo| attr_view(a))
    &&& (opt_str(t.group), t.is_private, opt_str(t.confirm_message), opt_str(t.doc)) == spec_metadata(
        t.attributes@,
    )
}

/// One task per recipe, in order, with the parameters, dependencies,
/// comments and attributes found near its line: parameters from five lines
/// above to ten below, dependencies within two lines (or without position),
/// comments up to five lines above and attributes up to two lines above.
/// The body is left empty.
pub fn assemble_tasks(
    recipes: &[RecipeInfo],
    parameters: &[ParameterInfo],
    dependencies: &[DependencyInfo],
    comments: &[CommentInfo],
    attributes: &[AttributeInfo],
) -> (r: Vec<JustTask>)
    requires
        task_lines_fit(recipes@, dependencies@),
    ensures
        r@.len() == recipes@.len(),
        forall|k: int|
            0 <= k < r@.len() ==> is_assembled_task(
                #[trigger] r@[k],
                recipes@[k],
                parameters@,
                dependencies@,
                comments@,
                attributes@,
            ),
{
    let mut tasks: Vec<JustTask> = Vec::new();
    let mut i: usize = 0;
    while i < recipes.len()
        invariant
            i <= recipes@.len(),
            task_lines_fit(recipes@, dependencies@),
            tasks@.len() == i,
            forall|k: int|
                0 <= k < i ==> is_assembled_task(
                    #[trigger] tasks@[k],
                    recipes@[k],
                    parameters@,
                    dependencies@,
                    comments@,
                    attributes@,
                ),
        decreases recipes.len() - i,
    {
        let recipe = &recipes[i];
        let line = recipe.line_number;
        assert(line <= i32::MAX);
        let params = parameters_near(parameters, line);
        let deps = dependencies_near(dependencies, line);
        let notes = comments_near(comments, line);
        let attrs = attributes_near(attributes, line);
        let (group, is_private, confirm_message, doc) = extract_attribute_metadata(attrs.as_slice());
        let task = JustTask {
            name: recipe.name.clone(),
            body: String::new(),
            parameters: params,
            dependencies: deps,
            comments: notes,
            line_number: line,
            group,
            is_private,
            confirm_message,
            doc,
            attributes: attrs,
        };
        tasks.push(task);
        i = i + 1;
    }
    tasks
}

/// A parameter written `name="default"` reads back as that name and that
/// default, when the name has no `=` and no surrounding blanks.
pub proof fn lemma_parameter_round_trip(name: Seq<char>, default: Seq<char>)
    requires
        !name.contains('='),
        trim(name) == name,
    ensures
        spec_param(name + "=\""@ + default + "\""@) == (name, Some(default), None::<Seq<char>>),
{
    reveal_strlit("=\"");
    reveal_strlit("\"");
    let part = name + "=\""@ + default + "\""@;
    crate::text::lemma_find_char_from(part, '=', 0);
    assert(part[name.len() as int] == '=');
    assert forall|j: int| 0 <= j < name.len() implies part[j] != '=' by {
        assert(part[j] == name[j]);
        if name[j] == '=' {
            assert(name.contains('='));
        }
    }
    assert(crate::text::find_char(part, '=') == Some(name.len() as nat));
    assert(part.subrange(0, name.len() as int) =~= name);
    let after = part.subrange((name.len() + 1) as int, part.len() as int);
    assert(after =~= seq!['"'] + default + seq!['"']);
    assert(!crate::text::is_ws(after[0]));
    assert(!crate::text::is_ws(after.last()));
    assert(crate::text::trim_start(after) == after);
    assert(crate::text::trim_end(after) == after);
    assert(after.subrange(1, after.len() - 1) =~= default);
}

} // verus!

//! The line-based justfile reader, which recognises recipes, comments,
//! attributes and parameters with regular expressions.
use vstd::prelude::*;
use vstd::utf8::encode_utf8;
use crate::text::{
    trim, words, starts_with, ends_with, contains, chars_of, substring, str_trim, str_starts_with, str_ends_with,
    str_contains, owned, push_str, push_char, split_whitespace, text_lines, lines_of, drop_leading,
    drop_leading_exec, is_blank, str_eq,
};
use crate::pattern::{Pattern, regex_captures, group, group_text};
use crate::parser::ast::queries::info::{strs, opt_str};
use crate::parser::legacy::{
    cuts_on_boundaries, spec_split_pieces, split_parameters, on_boundary, byte_slice, str_byte_slice,
    depth_fits, spec_parse_dependencies, parse_dependencies, cuts_on_boundaries_exec, depth_fits_exec,
    lemma_boundary_within, lemma_end_on_boundary,
};
use crate::types::{JustTask, Parameter};
use crate::error::Error;

verus! {

/// A recipe header: a name, optional parameters, a colon.
pub const RECIPE_PATTERN: &'static str = r"^([a-zA-Z_][a-zA-Z0-9_-]*)(\s+[^:]+)?\s*:";

/// A parameter with an optional default.
pub const LEGACY_PARAMETER_PATTERN: &'static str = r#"(\w+)(?:\s*=\s*(?:"([^"]*)"|'([^']*)'|([^"',\s\)]+)))?"#;

/// An attribute line `[...]`.
pub const ATTRIBUTE_PATTERN: &'static str = r"^\s*\[([^\]]+)\]";

/// A parameter description `{{name}}: description`.
pub const DESCRIPTION_PATTERN: &'static str = r"^\s*\{\{(\w+)\}\}\s*:\s*(.+)$";

/// Reads justfiles line by line with regular expressions.
pub struct JustfileParser {
    recipe_regex: Pattern,
    parameter_regex: Pattern,
    attribute_regex: Pattern,
    param_desc_regex: Pattern,
}

/// A parameter as (name, default, description).
pub type ParamView = (Seq<char>, Option<Seq<char>>, Option<Seq<char>>);

/// A parameter of a task as (name, default, description).
pub open spec fn task_param_view(p: Parameter) -> ParamView {
    (p.name@, opt_str(p.default), opt_str(p.description))
}

/// Views of task parameters.
pub open spec fn task_params_view(ps: Seq<Parameter>) -> Seq<ParamView> {
    ps.map_values(|p: Parameter| task_param_view(p))
}

// ---------------------------------------------------------------------------
// Parameters
// ---------------------------------------------------------------------------

/// The default of a parameter match: the double-quoted, single-quoted or bare value.
pub open spec fn legacy_default(g: Seq<Option<Seq<char>>>) -> Option<Seq<char>> {
    match group(g, 2) {
        Some(x) => Some(x),
        None => match group(g, 3) {
            Some(x) => Some(x),
            None => group(g, 4),
        },
    }
}

/// The parameter matched in `part`, if any (the name group always takes
/// part in a match; a match without it is read as no parameter).
pub open spec fn legacy_param(part: Seq<char>) -> Option<ParamView> {
    match regex_captures(LEGACY_PARAMETER_PATTERN@, part) {
        Some(g) => match group(g, 1) {
            Some(n) => Some((n, legacy_default(g), None)),
            None => None,
        },
        None => None,
    }
}

/// The parameters matched in the pieces, each trimmed when `trim_each`.
pub open spec fn legacy_params_of(pieces: Seq<Seq<char>>, trim_each: bool) -> Seq<ParamView>
    decreases pieces.len(),
{
    if pieces.len() == 0 {
        seq![]
    } else {
        let p = if trim_each {
            trim(pieces.last())
        } else {
            pieces.last()
        };
        legacy_params_of(pieces.drop_last(), trim_each) + match legacy_param(p) {
            Some(v) => seq![v],
            None => seq![],
        }
    }
}

/// The parameters of a comma-separated list.
pub open spec fn spec_legacy_parameters(s: Seq<char>) -> Seq<ParamView> {
    if trim(s).len() == 0 {
        seq![]
    } else {
        legacy_params_of(spec_split_pieces(s), true)
    }
}

/// Whether a comma-separated list can be cut into pieces.
pub open spec fn legacy_parameters_ok(s: Seq<char>) -> bool {
    trim(s).len() == 0 || cuts_on_boundaries(s)
}

/// The parameters of a space-separated list.
pub open spec fn spec_legacy_space_parameters(s: Seq<char>) -> Seq<ParamView> {
    legacy_params_of(words(s), false)
}

// ---------------------------------------------------------------------------
// Tasks
// ---------------------------------------------------------------------------

/// `s` without its trailing `c` characters.
pub open spec fn drop_trailing(s: Seq<char>, c: char) -> Seq<char>
    decreases s.len(),
{
    if s.len() > 0 && s.last() == c {
        drop_trailing(s.drop_last(), c)
    } else {
        s
    }
}

/// `s` without leading and trailing `c` characters.
pub open spec fn strip_char(s: Seq<char>, c: char) -> Seq<char> {
    drop_trailing(drop_leading(s, c), c)
}

/// The name and description of a `{{name}}: description` comment text.
pub open spec fn comment_doc(comment: Seq<char>) -> Option<(Seq<char>, Seq<char>)> {
    match regex_captures(DESCRIPTION_PATTERN@, comment) {
        Some(g) => match (group(g, 1), group(g, 2)) {
            (Some(n), Some(d)) => Some((n, trim(d))),
            _ => None,
        },
        None => None,
    }
}

/// The text inside an attribute line `[...]`.
pub open spec fn attribute_text(line: Seq<char>) -> Option<Seq<char>> {
    match regex_captures(ATTRIBUTE_PATTERN@, line) {
        Some(g) => group(g, 1),
        None => None,
    }
}

/// The documentation of an attribute `doc(...)`, without quotes.
pub open spec fn doc_of_attribute(attr: Seq<char>) -> Option<Seq<char>> {
    if starts_with(attr, "doc("@) && ends_with(attr, ")"@) {
        Some(strip_char(strip_char(attr.subrange(4, attr.len() - 1), '"'), '\''))
    } else {
        None
    }
}

/// A line skipped before a recipe: blank, a shebang, or an assignment.
pub open spec fn is_skipped(line: Seq<char>) -> bool {
    line.len() == 0 || starts_with(line, "#!"@) || (contains(line, ":="@) && !ends_with(line, ":"@))
}

/// What precedes a recipe, read from line `ci`: how the reading ended (0 a
/// recipe header, 1 another line, 2 the end), where, and the comments,
/// parameter descriptions and documentation gathered.
pub type Prelude = (int, nat, Seq<Seq<char>>, Seq<(Seq<char>, Seq<char>)>, Option<Seq<char>>);

/// Reads comments and attributes from line `ci` until a recipe header.
pub open spec fn prelude(
    lines: Seq<Seq<char>>,
    ci: nat,
    comments: Seq<Seq<char>>,
    docs: Seq<(Seq<char>, Seq<char>)>,
    doc: Option<Seq<char>>,
) -> Prelude
    decreases lines.len() - ci,
{
    if ci >= lines.len() {
        (2, ci, comments, docs, doc)
    } else {
        let line = trim(lines[ci as int]);
        if is_skipped(line) {
            prelude(lines, ci + 1, comments, docs, doc)
        } else if starts_with(line, "#"@) {
            let comment = line.subrange(1, line.len() as int);
            match comment_doc(comment) {
                Some(d) => prelude(lines, ci + 1, comments, docs.push(d), doc),
                None => prelude(lines, ci + 1, comments.push(trim(comment)), docs, doc),
            }
        } else {
            match attribute_text(line) {
                Some(attr) => prelude(
                    lines,
                    ci + 1,
                    comments,
                    docs,
                    match doc_of_attribute(attr) {
                        Some(d) => Some(d),
                        None => doc,
                    },
                ),
                None => if regex_captures(RECIPE_PATTERN@, line) is Some {
                    (0, ci, comments, docs, doc)
                } else {
                    (1, ci, comments, docs, doc)
                },
            }
        }
    }
}

/// The description recorded last for parameter `name`.
pub open spec fn doc_lookup(docs: Seq<(Seq<char>, Seq<char>)>, name: Seq<char>) -> Option<Seq<char>>
    decreases docs.len(),
{
    if docs.len() == 0 {
        None
    } else if docs.last().0 == name {
        Some(docs.last().1)
    } else {
        doc_lookup(docs.drop_last(), name)
    }
}

/// A parameter with its description: the documented one, else a note of its default.
pub open spec fn with_doc(p: ParamView, docs: Seq<(Seq<char>, Seq<char>)>) -> ParamView {
    match doc_lookup(docs, p.0) {
        Some(d) => (p.0, p.1, Some(d)),
        None => match p.1 {
            Some(v) => (p.0, p.1, Some("(default: "@ + v + ")"@)),
            None => p,
        },
    }
}

/// The parameter list written after a recipe name, without parentheses.
pub open spec fn paren_content(p: Seq<char>) -> Seq<char> {
    drop_trailing(drop_leading(p, '('), ')')
}

/// Whether a parameter list is in parentheses.
pub open spec fn is_parenthesised(p: Seq<char>) -> bool {
    starts_with(p, "("@) && ends_with(p, ")"@)
}

/// The parameters of a header's parameter group.
pub open spec fn header_parameters(params: Option<Seq<char>>) -> Seq<ParamView> {
    match params {
        Some(p) => {
            let t = trim(p);
            if is_parenthesised(t) {
                spec_legacy_parameters(paren_content(t))
            } else {
                spec_legacy_space_parameters(t)
            }
        },
        None => seq![],
    }
}

/// Whether a header's parameter group can be read.
pub open spec fn header_parameters_ok(params: Option<Seq<char>>) -> bool {
    match params {
        Some(p) => {
            let t = trim(p);
            is_parenthesised(t) ==> legacy_parameters_ok(paren_content(t))
        },
        None => true,
    }
}

/// Reads the body from line `ci`: indented lines, and blank ones inside it.
pub open spec fn body_scan(lines: Seq<Seq<char>>, ci: nat, body: Seq<char>, first: bool) -> (nat, Seq<char>)
    decreases lines.len() - ci,
{
    if ci >= lines.len() {
        (ci, body)
    } else {
        let line = lines[ci as int];
        if (line.len() > 0 && (line[0] == ' ' || line[0] == '\t')) || (first && trim(line).len() == 0) {
            body_scan(lines, ci + 1, (if !first {
                body.push('\n')
            } else {
                body
            }) + line, false)
        } else if trim(line).len() == 0 && body.len() > 0 {
            body_scan(lines, ci + 1, body.push('\n'), first)
        } else {
            (ci, body)
        }
    }
}

/// Byte length of the encoding of `s`.
pub open spec fn byte_len(s: Seq<char>) -> int {
    encode_utf8(s).len() as int
}

/// A task as (name, body, parameters, dependencies, comments, line).
pub type TaskView = (Seq<char>, Seq<char>, Seq<ParamView>, Seq<Seq<char>>, Seq<Seq<char>>, nat);

/// Reading a task from line `i`: whether it would cut text at a byte that
/// starts no character, or count parentheses past 32 bits; the task, if
/// one starts there; and the line where reading goes on.
pub open spec fn task_at(lines: Seq<Seq<char>>, i: nat) -> (bool, Option<TaskView>, nat) {
    let pre = prelude(lines, i, seq![], seq![], None);
    if pre.0 == 2 {
        (false, None, lines.len())
    } else if pre.0 == 1 {
        (false, None, pre.1 + 1)
    } else {
        let ci = pre.1;
        let raw = lines[ci as int];
        match regex_captures(RECIPE_PATTERN@, raw) {
            Some(g) => match (group(g, 1), group(g, 0)) {
                (Some(name), Some(whole)) => {
                    let params = group(g, 2);
                    let rest = byte_slice(raw, byte_len(whole), byte_len(raw));
                    let fails = !header_parameters_ok(params) || !on_boundary(raw, byte_len(whole)) || !depth_fits(
                        trim(rest),
                    );
                    let body = body_scan(lines, ci + 1, seq![], true);
                    let task = (
                        name,
                        trim(body.1),
                        header_parameters(params).map_values(|p: ParamView| with_doc(p, pre.3)),
                        spec_parse_dependencies(rest),
                        match pre.4 {
                            Some(d) => seq![d],
                            None => pre.2,
                        },
                        body.0,
                    );
                    (fails, Some(task), body.0)
                },
                _ => (false, None, ci + 1),
            },
            None => (false, None, ci + 1),
        }
    }
}

/// The tasks read from line `i` on, or `None` when reading would fail.
pub open spec fn tasks_from(lines: Seq<Seq<char>>, i: nat) -> Option<Seq<TaskView>>
    decreases lines.len() + 1 - i,
{
    if i >= lines.len() {
        Some(seq![])
    } else {
        let t = task_at(lines, i);
        let next = match t.1 {
            Some(_) => t.2,
            None => t.2 + 1,
        };
        if t.0 || !(i < next <= lines.len() + 1) {
            None
        } else {
            match tasks_from(lines, next) {
                Some(rest) => match t.1 {
                    Some(task) => Some(seq![task] + rest),
                    None => Some(rest),
                },
                None => None,
            }
        }
    }
}

/// A task read by the line-based reader.
pub open spec fn is_legacy_task(t: JustTask, v: TaskView) -> bool {
    &&& t.name@ == v.0
    &&& t.body@ == v.1
    &&& task_params_view(t.parameters@) == v.2
    &&& strs(t.dependencies@) == v.3
    &&& strs(t.comments@) == v.4
    &&& t.line_number == v.5
    &&& t.group is None
    &&& t.is_private == starts_with(v.0, "_"@)
    &&& t.confirm_message is None
    &&& t.doc is None
    &&& t.attributes@.len() == 0
}

/// The tasks of a justfile's text, or `None` when reading would fail.
pub open spec fn spec_legacy_tasks(content: Seq<char>) -> Option<Seq<TaskView>> {
    tasks_from(text_lines(content), 0)
}

/// Views of recorded parameter descriptions.
pub open spec fn docs_view(v: Seq<(String, String)>) -> Seq<(Seq<char>, Seq<char>)> {
    v.map_values(|e: (String, String)| (e.0@, e.1@))
}

/// A copy of an optional string.
fn copy_opt(o: &Option<String>) -> (r: Option<String>)
    ensures
        opt_str(r) == opt_str(*o),
{
    match o {
        Some(s) => Some(s.clone()),
        None => None,
    }
}

/// `s` without its trailing `c` characters (`str::trim_end_matches`).
pub fn drop_trailing_exec(s: &str, c: char) -> (r: String)
    ensures
        r@ == drop_trailing(s@, c),
{
    let v = chars_of(s);
    let mut j: usize = v.len();
    assert(v@.subrange(0, v.len() as int) =~= v@);
    while j > 0 && v[j - 1] == c
        invariant
            j <= v.len(),
            drop_trailing(v@, c) == drop_trailing(v@.subrange(0, j as int), c),
        decreases j,
    {
        assert(v@.subrange(0, j as int).drop_last() =~= v@.subrange(0, j - 1));
        j = j - 1;
    }
    substring(&v, 0, j)
}

/// `s` without leading and trailing `c` characters (`str::trim_matches`).
pub fn strip_char_exec(s: &str, c: char) -> (r: String)
    ensures
        r@ == strip_char(s@, c),
{
    let t = drop_leading_exec(s, c);
    drop_trailing_exec(t.as_str(), c)
}

/// The documentation of an attribute `doc(...)`, without quotes.
pub fn doc_of_attribute_exec(attr: &str) -> (r: Option<String>)
    ensures
        opt_str(r) == doc_of_attribute(attr@),
{
    if str_starts_with(attr, "doc(") && str_ends_with(attr, ")") {
        let v = chars_of(attr);
        proof {
            reveal_strlit("doc(");
            reveal_strlit(")");
            assert(v@.subrange(0, 4)[3] == '(');
            assert(v@.subrange(v@.len() - 1, v@.len() as int)[0] == ')');
        }
        let inner = substring(&v, 4, v.len() - 1);
        let once = strip_char_exec(inner.as_str(), '"');
        Some(strip_char_exec(once.as_str(), '\''))
    } else {
        None
    }
}

impl JustfileParser {
    /// The expressions hold the four patterns.
    #[verifier::type_invariant]
    spec fn holds_patterns(self) -> bool {
        &&& self.recipe_regex.source() == RECIPE_PATTERN@
        &&& self.parameter_regex.source() == LEGACY_PARAMETER_PATTERN@
        &&& self.attribute_regex.source() == ATTRIBUTE_PATTERN@
        &&& self.param_desc_regex.source() == DESCRIPTION_PATTERN@
    }

    /// Compiles the four patterns in order; fails with the `regex` crate's
    /// message for the first that does not compile.
    pub fn new() -> (r: Result<Self, Error>)
        ensures
            match r {
                Ok(_) => crate::pattern::first_regex_error(seq![RECIPE_PATTERN@, LEGACY_PARAMETER_PATTERN@, ATTRIBUTE_PATTERN@, DESCRIPTION_PATTERN@]) is None,
                Err(e) => crate::pattern::first_regex_error(seq![RECIPE_PATTERN@, LEGACY_PARAMETER_PATTERN@, ATTRIBUTE_PATTERN@, DESCRIPTION_PATTERN@]) matches Some(m) && e matches Error::Regex(
                    em,
                ) && em@ == m,
            },
    {
        proof {
            reveal_with_fuel(crate::pattern::first_regex_error, 6);
            assert(seq![RECIPE_PATTERN@, LEGACY_PARAMETER_PATTERN@, ATTRIBUTE_PATTERN@, DESCRIPTION_PATTERN@].drop_first() =~= seq![LEGACY_PARAMETER_PATTERN@, ATTRIBUTE_PATTERN@, DESCRIPTION_PATTERN@]);
            assert(seq![LEGACY_PARAMETER_PATTERN@, ATTRIBUTE_PATTERN@, DESCRIPTION_PATTERN@].drop_first() =~= seq![ATTRIBUTE_PATTERN@, DESCRIPTION_PATTERN@]);
            assert(seq![ATTRIBUTE_PATTERN@, DESCRIPTION_PATTERN@].drop_first() =~= seq![DESCRIPTION_PATTERN@]);
            assert(seq![DESCRIPTION_PATTERN@].drop_first() =~= Seq::<Seq<char>>::empty());
        }
        let recipe_regex = match Pattern::new(RECIPE_PATTERN) {
            Ok(p) => p,
            Err(e) => {
                return Err(Error::Regex(e));
            },
        };
        let parameter_regex = match Pattern::new(LEGACY_PARAMETER_PATTERN) {
            Ok(p) => p,
            Err(e) => {
                return Err(Error::Regex(e));
            },
        };
        let attribute_regex = match Pattern::new(ATTRIBUTE_PATTERN) {
            Ok(p) => p,
            Err(e) => {
                return Err(Error::Regex(e));
            },
        };
        let param_desc_regex = match Pattern::new(DESCRIPTION_PATTERN) {
            Ok(p) => p,
            Err(e) => {
                return Err(Error::Regex(e));
            },
        };
        Ok(JustfileParser { recipe_regex, parameter_regex, attribute_regex, param_desc_regex })
    }

    /// The parameter matched in `part`.
    fn match_parameter(&self, part: &str) -> (r: Option<Parameter>)
        ensures
            match r {
                Some(p) => legacy_param(part@) == Some(task_param_view(p)),
                None => legacy_param(part@) is None,
            },
    {
        proof {
            use_type_invariant(self);
        }
        match self.parameter_regex.captures(part) {
            Some(g) => match group_text(&g, 1) {
                Some(name) => {
                    let default = match group_text(&g, 2) {
                        Some(x) => Some(x),
                        None => match group_text(&g, 3) {
                            Some(x) => Some(x),
                            None => group_text(&g, 4),
                        },
                    };
                    Some(Parameter { name, default, description: None })
                },
                None => None,
            },
            None => None,
        }
    }

    /// The parameters matched in the pieces, each trimmed when `trim_each`.
    fn params_of_pieces(&self, pieces: &Vec<String>, trim_each: bool) -> (r: Vec<Parameter>)
        ensures
            task_params_view(r@) == legacy_params_of(strs(pieces@), trim_each),
    {
        let ghost ps = strs(pieces@);
        let mut out: Vec<Parameter> = Vec::new();
        let mut i: usize = 0;
        assert(task_params_view(out@) =~= legacy_params_of(ps.take(0), trim_each));
        while i < pieces.len()
            invariant
                i <= pieces@.len(),
                ps == strs(pieces@),
                task_params_view(out@) == legacy_params_of(ps.take(i as int), trim_each),
            decreases pieces.len() - i,
        {
            assert(ps.take(i + 1).drop_last() =~= ps.take(i as int));
            assert(ps.take(i + 1).last() == pieces@[i as int]@);
            let part = if trim_each {
                str_trim(pieces[i].as_str())
            } else {
                pieces[i].clone()
            };
            let ghost prev = task_params_view(out@);
            match self.match_parameter(part.as_str()) {
                Some(p) => {
                    out.push(p);
                    assert(task_params_view(out@) =~= prev + seq![task_param_view(p)]);
                },
                None => {
                    assert(prev + Seq::<ParamView>::empty() =~= prev);
                },
            }
            i = i + 1;
        }
        assert(ps.take(pieces@.len() as int) =~= ps);
        out
    }

    /// The parameters of a comma-separated list; a piece that holds no
    /// parameter is skipped.
    fn parse_parameters(&self, params_str: &str) -> (r: Result<Vec<Parameter>, Error>)
        requires
            legacy_parameters_ok(params_str@),
        ensures
            r matches Ok(v) && task_params_view(v@) == spec_legacy_parameters(params_str@),
    {
        if is_blank(params_str) {
            let v: Vec<Parameter> = Vec::new();
            assert(task_params_view(v@) =~= Seq::<ParamView>::empty());
            return Ok(v);
        }
        let parts = split_parameters(params_str);
        Ok(self.params_of_pieces(&parts, true))
    }

    /// The parameters of a space-separated list.
    fn parse_space_separated_parameters(&self, params_str: &str) -> (r: Result<Vec<Parameter>, Error>)
        ensures
            r matches Ok(v) && task_params_view(v@) == spec_legacy_space_parameters(params_str@),
    {
        let parts = split_whitespace(params_str);
        assert(strs(parts@) =~= parts@.map_values(|x: String| x@));
        Ok(self.params_of_pieces(&parts, false))
    }
}

/// The description recorded last for parameter `name`.
fn doc_lookup_exec(docs: &Vec<(String, String)>, name: &str) -> (r: Option<String>)
    ensures
        opt_str(r) == doc_lookup(docs_view(docs@), name@),
{
    let ghost d = docs_view(docs@);
    let mut j: usize = docs.len();
    assert(d.take(docs@.len() as int) =~= d);
    while j > 0
        invariant
            j <= docs@.len(),
            d == docs_view(docs@),
            doc_lookup(d, name@) == doc_lookup(d.take(j as int), name@),
        decreases j,
    {
        assert(d.take(j as int).drop_last() =~= d.take(j - 1));
        assert(d.take(j as int).last() == (docs@[j - 1].0@, docs@[j - 1].1@));
        if str_eq(docs[j - 1].0.as_str(), name) {
            return Some(docs[j - 1].1.clone());
        }
        j = j - 1;
    }
    None
}

/// A parameter with its description: the documented one, else a note of its default.
fn describe(p: &Parameter, docs: &Vec<(String, String)>) -> (r: Parameter)
    ensures
        task_param_view(r) == with_doc(task_param_view(*p), docs_view(docs@)),
{
    let description = match doc_lookup_exec(docs, p.name.as_str()) {
        Some(d) => Some(d),
        None => match &p.default {
            Some(v) => {
                let mut note = owned("(default: ");
                push_str(&mut note, v.as_str());
                push_str(&mut note, ")");
                Some(note)
            },
            None => copy_opt(&p.description),
        },
    };
    Parameter { name: p.name.clone(), default: copy_opt(&p.default), description }
}

/// Reads the body from line `start`: indented lines, and blank ones inside it.
fn read_body(lines: &Vec<String>, start: usize) -> (r: (usize, String))
    requires
        start <= lines@.len(),
    ensures
        (r.0 as nat, r.1@) == body_scan(strs(lines@), start as nat, seq![], true),
        start <= r.0 <= lines@.len(),
{
    let ghost ls = strs(lines@);
    let mut ci = start;
    let mut body = String::new();
    let mut first = true;
    assert(body@ =~= Seq::<char>::empty());
    while ci < lines.len()
        invariant
            start <= ci <= lines@.len(),
            ls == strs(lines@),
            body_scan(ls, start as nat, seq![], true) == body_scan(ls, ci as nat, body@, first),
        decreases lines.len() - ci,
    {
        let line = lines[ci].as_str();
        let v = chars_of(line);
        assert(ls[ci as int] == line@);
        let blank = is_blank(line);
        if (v.len() > 0 && (v[0] == ' ' || v[0] == '\t')) || (first && blank) {
            if !first {
                push_char(&mut body, '\n');
            }
            push_str(&mut body, line);
            first = false;
            ci = ci + 1;
        } else if blank && !body.as_str().is_empty() {
            push_char(&mut body, '\n');
            ci = ci + 1;
        } else {
            return (ci, body);
        }
    }
    (ci, body)
}

impl JustfileParser {
    /// Reads comments and attributes from line `start` until a recipe header:
    /// how the reading ended (0 a header, 1 another line, 2 the end), where,
    /// and the comments, parameter descriptions and documentation gathered.
    fn read_prelude(&self, lines: &Vec<String>, start: usize) -> (r: (
        u8,
        usize,
        Vec<String>,
        Vec<(String, String)>,
        Option<String>,
    ))
        requires
            start <= lines@.len(),
        ensures
            prelude(strs(lines@), start as nat, seq![], seq![], None) == (
                r.0 as int,
                r.1 as nat,
                strs(r.2@),
                docs_view(r.3@),
                opt_str(r.4),
            ),
            start <= r.1 <= lines@.len(),
            r.0 != 2 ==> r.1 < lines@.len(),
    {
        proof {
            use_type_invariant(self);
        }
        let ghost ls = strs(lines@);
        let mut ci = start;
        let mut comments: Vec<String> = Vec::new();
        let mut docs: Vec<(String, String)> = Vec::new();
        let mut doc: Option<String> = None;
        assert(strs(comments@) =~= Seq::<Seq<char>>::empty());
        assert(docs_view(docs@) =~= Seq::<(Seq<char>, Seq<char>)>::empty());
        while ci < lines.len()
            invariant
                start <= ci <= lines@.len(),
                ls == strs(lines@),
                self.attribute_regex.source() == ATTRIBUTE_PATTERN@,
                self.param_desc_regex.source() == DESCRIPTION_PATTERN@,
                self.recipe_regex.source() == RECIPE_PATTERN@,
                prelude(ls, start as nat, seq![], seq![], None) == prelude(
                    ls,
                    ci as nat,
                    strs(comments@),
                    docs_view(docs@),
                    opt_str(doc),
                ),
            decreases lines.len() - ci,
        {
            let line = str_trim(lines[ci].as_str());
            assert(ls[ci as int] == lines@[ci as int]@);
            let v = chars_of(line.as_str());
            if v.len() == 0 || str_starts_with(line.as_str(), "#!") || (str_contains(line.as_str(), ":=")
                && !str_ends_with(line.as_str(), ":")) {
                ci = ci + 1;
            } else if str_starts_with(line.as_str(), "#") {
                let comment = substring(&v, 1, v.len());
                let described = match self.param_desc_regex.captures(comment.as_str()) {
                    Some(g) => match (group_text(&g, 1), group_text(&g, 2)) {
                        (Some(n), Some(d)) => Some((n, str_trim(d.as_str()))),
                        _ => None,
                    },
                    None => None,
                };
                match described {
                    Some(entry) => {
                        let ghost prev = docs_view(docs@);
                        let ghost e = (entry.0@, entry.1@);
                        docs.push(entry);
                        assert(docs_view(docs@) =~= prev.push(e));
                    },
                    None => {
                        let ghost prev = strs(comments@);
                        let t = str_trim(comment.as_str());
                        comments.push(t);
                        assert(strs(comments@) =~= prev.push(trim(comment@)));
                    },
                }
                ci = ci + 1;
            } else {
                let attr = match self.attribute_regex.captures(line.as_str()) {
                    Some(g) => group_text(&g, 1),
                    None => None,
                };
                match attr {
                    Some(a) => {
                        match doc_of_attribute_exec(a.as_str()) {
                            Some(d) => {
                                doc = Some(d);
                            },
                            None => {},
                        }
                        ci = ci + 1;
                    },
                    None => {
                        if self.recipe_regex.is_match(line.as_str()) {
                            return (0, ci, comments, docs, doc);
                        } else {
                            return (1, ci, comments, docs, doc);
                        }
                    },
                }
            }
        }
        (2, ci, comments, docs, doc)
    }

    /// The parameters of a header's parameter group, described; `None` when
    /// a parenthesised list would be cut inside a character.
    fn task_parameters(&self, params: &Option<String>, docs: &Vec<(String, String)>) -> (r: Option<Vec<Parameter>>)
        ensures
            r is None <==> !header_parameters_ok(opt_str(*params)),
            r matches Some(v) ==> task_params_view(v@) == header_parameters(opt_str(*params)).map_values(
                |p: ParamView| with_doc(p, docs_view(docs@)),
            ),
    {
        let found = match params {
            Some(p) => {
                let t = str_trim(p.as_str());
                if str_starts_with(t.as_str(), "(") && str_ends_with(t.as_str(), ")") {
                    let opened = drop_leading_exec(t.as_str(), '(');
                    let content = drop_trailing_exec(opened.as_str(), ')');
                    if !(is_blank(content.as_str()) || cuts_on_boundaries_exec(content.as_str())) {
                        return None;
                    }
                    match self.parse_parameters(content.as_str()) {
                        Ok(v) => v,
                        Err(_) => {
                            return None;
                        },
                    }
                } else {
                    match self.parse_space_separated_parameters(t.as_str()) {
                        Ok(v) => v,
                        Err(_) => {
                            return None;
                        },
                    }
                }
            },
            None => Vec::new(),
        };
        assert(task_params_view(found@) == header_parameters(opt_str(*params)));
        let ghost base = task_params_view(found@);
        let mut out: Vec<Parameter> = Vec::new();
        let mut k: usize = 0;
        while k < found.len()
            invariant
                k <= found@.len(),
                base == task_params_view(found@),
                task_params_view(out@) == base.take(k as int).map_values(
                    |p: ParamView| with_doc(p, docs_view(docs@)),
                ),
            decreases found.len() - k,
        {
            let ghost prev = task_params_view(out@);
            let q = describe(&found[k], docs);
            out.push(q);
            assert(task_params_view(out@) =~= prev.push(task_param_view(q)));
            assert(base.take(k + 1) =~= base.take(k as int).push(base[k as int]));
            assert(task_params_view(out@) =~= base.take(k + 1).map_values(
                |p: ParamView| with_doc(p, docs_view(docs@)),
            ));
            k = k + 1;
        }
        assert(base.take(found@.len() as int) =~= base);
        Some(out)
    }
}

/// The tasks read so far followed by those still to read, if reading succeeds.
pub open spec fn prepend(acc: Seq<TaskView>, rest: Option<Seq<TaskView>>) -> Option<Seq<TaskView>> {
    match rest {
        Some(r) => Some(acc + r),
        None => None,
    }
}

/// Each task is the one read at its place.
pub open spec fn legacy_tasks_match(ts: Seq<JustTask>, vs: Seq<TaskView>) -> bool {
    &&& ts.len() == vs.len()
    &&& forall|k: int| 0 <= k < ts.len() ==> is_legacy_task(#[trigger] ts[k], vs[k])
}

impl JustfileParser {
    /// Reads the task that starts at line `index`, if any, and the line where
    /// reading goes on; `None` when the header would be cut inside a
    /// character or its dependencies nest past 32 bits.
    fn parse_task(&self, lines: &Vec<String>, index: usize) -> (r: Option<(Option<JustTask>, usize)>)
        requires
            index < lines@.len(),
        ensures
            r is None <==> task_at(strs(lines@), index as nat).0,
            r matches Some((t, j)) ==> {
                &&& j == task_at(strs(lines@), index as nat).2
                &&& (t is None <==> task_at(strs(lines@), index as nat).1 is None)
                &&& t matches Some(task) ==> is_legacy_task(task, task_at(strs(lines@), index as nat).1->0)
                &&& t is Some ==> index < j <= lines@.len()
                &&& t is None ==> index <= j <= lines@.len()
            },
    {
        proof {
            use_type_invariant(self);
        }
        let ghost ls = strs(lines@);
        let n = lines.len();
        let (code, ci, comments, docs, doc) = self.read_prelude(lines, index);
        if code == 2 {
            return Some((None, lines.len()));
        }
        if code == 1 {
            return Some((None, ci + 1));
        }
        let raw = lines[ci].as_str();
        assert(ls[ci as int] == raw@);
        let g = match self.recipe_regex.captures(raw) {
            Some(g) => g,
            None => {
                return Some((None, ci + 1));
            },
        };
        let name = match group_text(&g, 1) {
            Some(n) => n,
            None => {
                return Some((None, ci + 1));
            },
        };
        let whole = match group_text(&g, 0) {
            Some(w) => w,
            None => {
                return Some((None, ci + 1));
            },
        };
        let params = group_text(&g, 2);
        let parameters = match self.task_parameters(&params, &docs) {
            Some(v) => v,
            None => {
                return None;
            },
        };
        let wlen = whole.as_str().as_bytes().len();
        let rlen = raw.as_bytes().len();
        if !raw.is_char_boundary(wlen) {
            return None;
        }
        proof {
            lemma_boundary_within(raw@, wlen as int);
            lemma_end_on_boundary(raw@);
        }
        let rest = str_byte_slice(raw, wlen, rlen);
        let rest_trimmed = str_trim(rest.as_str());
        if !depth_fits_exec(rest_trimmed.as_str()) {
            return None;
        }
        let dependencies = parse_dependencies(rest.as_str());
        let (end, body) = read_body(lines, ci + 1);
        let final_comments = match doc {
            Some(d) => {
                let mut v: Vec<String> = Vec::new();
                v.push(d);
                v
            },
            None => comments,
        };
        let is_private = str_starts_with(name.as_str(), "_");
        let task = JustTask {
            name,
            body: str_trim(body.as_str()),
            parameters,
            dependencies,
            comments: final_comments,
            line_number: end,
            group: None,
            is_private,
            confirm_message: None,
            doc: None,
            attributes: Vec::new(),
        };
        assert(strs(task.comments@) == match opt_str(doc) {
            Some(d) => seq![d],
            None => strs(comments@),
        }) by {
            if doc is Some {
                assert(strs(task.comments@) =~= seq![opt_str(doc)->0]);
            }
        }
        Some((Some(task), end))
    }

    /// Reads the tasks of the lines; `None` when reading a task fails.
    fn collect_tasks(&self, lines: &Vec<String>) -> (r: Option<Vec<JustTask>>)
        ensures
            r is None <==> tasks_from(strs(lines@), 0) is None,
            r matches Some(v) ==> legacy_tasks_match(v@, tasks_from(strs(lines@), 0)->0),
    {
        let ghost ls = strs(lines@);
        let ghost mut acc: Seq<TaskView> = seq![];
        let mut tasks: Vec<JustTask> = Vec::new();
        let mut i: usize = 0;
        assert(prepend(acc, tasks_from(ls, 0)) == tasks_from(ls, 0)) by {
            if tasks_from(ls, 0) is Some {
                assert(acc + tasks_from(ls, 0)->0 =~= tasks_from(ls, 0)->0);
            }
        }
        while i < lines.len()
            invariant
                i <= lines@.len(),
                ls == strs(lines@),
                tasks_from(ls, 0) == prepend(acc, tasks_from(ls, i as nat)),
                legacy_tasks_match(tasks@, acc),
            decreases lines@.len() + 1 - i,
        {
            let ghost t = task_at(ls, i as nat);
            match self.parse_task(lines, i) {
                None => {
                    assert(tasks_from(ls, i as nat) is None);
                    return None;
                },
                Some((Some(task), j)) => {
                    proof {
                        let tv = t.1->0;
                        let later = tasks_from(ls, j as nat);
                        assert(tasks_from(ls, i as nat) == prepend(seq![tv], later));
                        if later is Some {
                            assert(acc + (seq![tv] + later->0) =~= acc.push(tv) + later->0);
                        }
                        acc = acc.push(tv);
                    }
                    tasks.push(task);
                    i = j;
                },
                Some((None, j)) => {
                    assert(tasks_from(ls, i as nat) == tasks_from(ls, (j + 1) as nat));
                    if j < lines.len() {
                        i = j + 1;
                    } else {
                        assert(tasks_from(ls, (j + 1) as nat) == tasks_from(ls, j as nat));
                        i = j;
                    }
                },
            }
        }
        assert(acc + seq![] =~= acc);
        Some(tasks)
    }

    /// The tasks of a justfile's text.
    pub fn parse_content(&self, content: &str) -> (r: Result<Vec<JustTask>, Error>)
        requires
            spec_legacy_tasks(content@) is Some,
        ensures
            r matches Ok(v) && legacy_tasks_match(v@, spec_legacy_tasks(content@)->0),
    {
        let lines = lines_of(content);
        match self.collect_tasks(&lines) {
            Some(v) => Ok(v),
            None => Ok(Vec::new()),
        }
    }

    /// The tasks of a justfile's text, or `None` where reading would cut a
    /// parameter list or header inside a character, or count parentheses
    /// past 32 bits.
    pub fn try_parse_content(&self, content: &str) -> (r: Option<Vec<JustTask>>)
        ensures
            r is None <==> spec_legacy_tasks(content@) is None,
            r matches Some(v) ==> legacy_tasks_match(v@, spec_legacy_tasks(content@)->0),
    {
        let lines = lines_of(content);
        if self.collect_tasks(&lines).is_none() {
            return None;
        }
        match self.parse_content(content) {
            Ok(v) => Some(v),
            Err(_) => None,
        }
    }
}

} // verus!

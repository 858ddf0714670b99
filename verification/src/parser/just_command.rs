//! Recipe descriptions as the `just` command reports them, and how the
//! recipe source that `just --show` prints is read.
use vstd::prelude::*;
use crate::text::{
    trim, words, join, starts_with, find_char, chars_of, substring, str_trim, str_starts_with, owned, push_str,
    find_char_exec, split_whitespace, join_strings, has_char, text_lines,
};
use crate::strmap::{StrMap, lookup};
use crate::pattern::{Pattern, regex_captures, regex_find_all, group, group_text, groups_view};
use crate::parser::ast::queries::info::{strs, opt_str};
use crate::error::Error;
use crate::types::{JustTask, Parameter};
use crate::parser::justfile::task_params_view;

verus! {

/// What `just` reports of a recipe.
#[derive(Debug, Clone)]
pub struct RecipeMetadata {
    pub name: String,
    pub description: Option<String>,
    pub parameters: Vec<RecipeParameter>,
    pub dependencies: Vec<String>,
    pub group: Option<String>,
    /// Whether the name starts with `_`.
    pub is_private: bool,
    /// The recipe's source, line by line.
    pub source_lines: Vec<String>,
}

/// A parameter of a recipe as `just` reports it.
#[derive(Debug, Clone)]
pub struct RecipeParameter {
    pub name: String,
    pub default_value: Option<String>,
    pub description: Option<String>,
}

/// A parameter with an optional default: `name`, `name="x"`, `name='x'` or `name=x`.
pub const PARAMETER_PATTERN: &'static str = r#"(\w+)(?:\s*=\s*(?:"([^"]*)"|'([^']*)'|([^\s,)]+)))?"#;

/// A group attribute `[group('name')]`.
pub const GROUP_PATTERN: &'static str = r#"\[group\(['"]([^'"]+)['"]\)\]"#;

/// A parameter description `{{name}}: description`.
pub const PARAMETER_DOC_PATTERN: &'static str = r"^\s*\{\{(\w+)\}\}\s*:\s*(.+)$";

/// Reads the recipe source that `just` prints.
pub struct JustCommandParser {
    parameter_regex: Pattern,
    group_regex: Pattern,
    param_desc_regex: Pattern,
}

/// A parameter as (name, default, description).
pub open spec fn recipe_param_view(p: RecipeParameter) -> (Seq<char>, Option<Seq<char>>, Option<Seq<char>>) {
    (p.name@, opt_str(p.default_value), opt_str(p.description))
}

/// Views of parameters.
pub open spec fn recipe_params_view(ps: Seq<RecipeParameter>) -> Seq<(Seq<char>, Option<Seq<char>>, Option<Seq<char>>)> {
    ps.map_values(|p: RecipeParameter| recipe_param_view(p))
}

/// The default of a parameter match: the double-quoted, single-quoted or bare value.
pub open spec fn match_default(g: Seq<Option<Seq<char>>>) -> Option<Seq<char>> {
    match group(g, 2) {
        Some(x) => Some(x),
        None => match group(g, 3) {
            Some(x) => Some(x),
            None => group(g, 4),
        },
    }
}

/// The parameters read from parameter matches; a match whose name group
/// took no part (which the pattern does not allow) gives none.
pub open spec fn params_of_matches(ms: Seq<Seq<char>>) -> Seq<(Seq<char>, Option<Seq<char>>, Option<Seq<char>>)>
    decreases ms.len(),
{
    if ms.len() == 0 {
        seq![]
    } else {
        params_of_matches(ms.drop_last()) + match regex_captures(PARAMETER_PATTERN@, ms.last()) {
            Some(g) => match group(g, 1) {
                Some(n) => seq![(n, match_default(g), None::<Seq<char>>)],
                None => seq![],
            },
            None => seq![],
        }
    }
}

/// The parameter list of a recipe header: the words after the name, joined
/// by spaces, without enclosing parentheses.
pub open spec fn header_params_text(header: Seq<char>) -> Seq<char> {
    let p = join(words(header).drop_first(), " "@);
    if p.len() > 0 && p[0] == '(' && p.last() == ')' {
        p.subrange(1, p.len() - 1)
    } else {
        p
    }
}

/// The parameters of a recipe header.
pub open spec fn spec_header_params(header: Seq<char>) -> Seq<(Seq<char>, Option<Seq<char>>, Option<Seq<char>>)> {
    if words(header).len() <= 1 {
        seq![]
    } else {
        params_of_matches(regex_find_all(PARAMETER_PATTERN@, header_params_text(header)))
    }
}

/// The description a source line gives of a parameter: a comment of the
/// form `{{name}}: description`.
pub open spec fn line_param_doc(l: Seq<char>) -> Option<(Seq<char>, Seq<char>)> {
    if starts_with(l, "#"@) {
        match regex_captures(PARAMETER_DOC_PATTERN@, trim(l.subrange(1, l.len() as int))) {
            Some(g) => match (group(g, 1), group(g, 2)) {
                (Some(n), Some(d)) => Some((n, trim(d))),
                _ => None,
            },
            None => None,
        }
    } else {
        None
    }
}

/// The description of parameter `name` given by the last line that describes it.
pub open spec fn doc_for(lines: Seq<Seq<char>>, name: Seq<char>) -> Option<Seq<char>>
    decreases lines.len(),
{
    if lines.len() == 0 {
        None
    } else {
        match line_param_doc(lines.last()) {
            Some((n, d)) => if n == name {
                Some(d)
            } else {
                doc_for(lines.drop_last(), name)
            },
            None => doc_for(lines.drop_last(), name),
        }
    }
}

/// A parameter with its description: the documented one, else a note of its default.
pub open spec fn described(
    p: (Seq<char>, Option<Seq<char>>, Option<Seq<char>>),
    lines: Seq<Seq<char>>,
) -> (Seq<char>, Option<Seq<char>>, Option<Seq<char>>) {
    match doc_for(lines, p.0) {
        Some(d) => (p.0, p.1, Some(d)),
        None => match p.1 {
            Some(v) => (p.0, p.1, Some("(default: "@ + v + ")"@)),
            None => p,
        },
    }
}

/// A recipe definition line: a colon, not a comment.
pub open spec fn is_definition_line(l: Seq<char>) -> bool {
    l.contains(':') && !starts_with(trim(l), "#"@)
}

/// Index of the first definition line.
pub open spec fn definition_index(lines: Seq<Seq<char>>, i: nat) -> Option<nat>
    decreases lines.len() - i,
{
    if i >= lines.len() {
        None
    } else if is_definition_line(lines[i as int]) {
        Some(i)
    } else {
        definition_index(lines, i + 1)
    }
}

/// The body of a recipe's source: the lines after its definition, joined and trimmed.
pub open spec fn spec_source_body(lines: Seq<Seq<char>>) -> Seq<char> {
    match definition_index(lines, 0) {
        Some(k) => trim(join(lines.subrange((k + 1) as int, lines.len() as int), "\n"@)),
        None => seq![],
    }
}

/// Trimmed lines up to the first that (trimmed) has a colon and is no comment.
pub open spec fn scanned_prefix(lines: Seq<Seq<char>>, i: nat) -> nat
    decreases lines.len() - i,
{
    if i >= lines.len() {
        lines.len()
    } else {
        let t = trim(lines[i as int]);
        if t.contains(':') && !starts_with(t, "#"@) {
            i + 1
        } else {
            scanned_prefix(lines, i + 1)
        }
    }
}

/// The group named by the last group attribute among `lines`.
pub open spec fn last_group(lines: Seq<Seq<char>>) -> Option<Seq<char>>
    decreases lines.len(),
{
    if lines.len() == 0 {
        None
    } else {
        match regex_captures(GROUP_PATTERN@, trim(lines.last())) {
            Some(g) => match group(g, 1) {
                Some(n) => Some(n),
                None => last_group(lines.drop_last()),
            },
            None => last_group(lines.drop_last()),
        }
    }
}

/// The comments among `lines` that are not parameter descriptions, trimmed.
pub open spec fn plain_comments(lines: Seq<Seq<char>>) -> Seq<Seq<char>>
    decreases lines.len(),
{
    if lines.len() == 0 {
        seq![]
    } else {
        let t = trim(lines.last());
        let c = trim(t.subrange(1, t.len() as int));
        plain_comments(lines.drop_last()) + if starts_with(t, "#"@) && regex_captures(PARAMETER_DOC_PATTERN@, c)
            is None && c.len() > 0 {
            seq![c]
        } else {
            seq![]
        }
    }
}

/// Description and group of a recipe's source: its comments joined by `. `,
/// and its group attribute, both read up to the definition line.
pub open spec fn spec_source_metadata(lines: Seq<Seq<char>>) -> (Option<Seq<char>>, Option<Seq<char>>) {
    let seen = lines.take(scanned_prefix(lines, 0) as int);
    let cs = plain_comments(seen);
    (if cs.len() > 0 {
        Some(join(cs, ". "@))
    } else {
        None
    }, last_group(seen))
}

impl JustCommandParser {
    /// The expressions hold the parameter, group and description patterns.
    #[verifier::type_invariant]
    spec fn holds_patterns(self) -> bool {
        &&& self.parameter_regex.source() == PARAMETER_PATTERN@
        &&& self.group_regex.source() == GROUP_PATTERN@
        &&& self.param_desc_regex.source() == PARAMETER_DOC_PATTERN@
    }

    /// Compiles the three patterns in order; fails with the `regex` crate's
    /// message for the first that does not compile.
    pub fn new() -> (r: Result<Self, Error>)
        ensures
            match r {
                Ok(_) => crate::pattern::first_regex_error(seq![PARAMETER_PATTERN@, GROUP_PATTERN@, PARAMETER_DOC_PATTERN@]) is None,
                Err(e) => crate::pattern::first_regex_error(seq![PARAMETER_PATTERN@, GROUP_PATTERN@, PARAMETER_DOC_PATTERN@]) matches Some(m) && e matches Error::Regex(
                    em,
                ) && em@ == m,
            },
    {
        proof {
            reveal_with_fuel(crate::pattern::first_regex_error, 5);
            assert(seq![PARAMETER_PATTERN@, GROUP_PATTERN@, PARAMETER_DOC_PATTERN@].drop_first() =~= seq![GROUP_PATTERN@, PARAMETER_DOC_PATTERN@]);
            assert(seq![GROUP_PATTERN@, PARAMETER_DOC_PATTERN@].drop_first() =~= seq![PARAMETER_DOC_PATTERN@]);
            assert(seq![PARAMETER_DOC_PATTERN@].drop_first() =~= Seq::<Seq<char>>::empty());
        }
        let parameter_regex = match Pattern::new(PARAMETER_PATTERN) {
            Ok(p) => p,
            Err(e) => {
                return Err(Error::Regex(e));
            },
        };
        let group_regex = match Pattern::new(GROUP_PATTERN) {
            Ok(p) => p,
            Err(e) => {
                return Err(Error::Regex(e));
            },
        };
        let param_desc_regex = match Pattern::new(PARAMETER_DOC_PATTERN) {
            Ok(p) => p,
            Err(e) => {
                return Err(Error::Regex(e));
            },
        };
        Ok(JustCommandParser { parameter_regex, group_regex, param_desc_regex })
    }

    /// The parameters of a recipe header `name p1 p2="x"` or `name(p1, p2)`.
    pub fn extract_parameters_from_header(&self, header: &str) -> (r: Vec<RecipeParameter>)
        ensures
            recipe_params_view(r@) == spec_header_params(header@),
    {
        proof {
            use_type_invariant(self);
        }
        let mut parameters: Vec<RecipeParameter> = Vec::new();
        let parts = split_whitespace(header);
        if parts.len() <= 1 {
            assert(recipe_params_view(parameters@) =~= Seq::<(Seq<char>, Option<Seq<char>>, Option<Seq<char>>)>::empty());
            return parameters;
        }
        let mut rest: Vec<String> = Vec::new();
        let mut k: usize = 1;
        while k < parts.len()
            invariant
                1 <= k <= parts@.len(),
                strs(rest@) == strs(parts@).subrange(1, k as int),
            decreases parts.len() - k,
        {
            let ghost prev = strs(rest@);
            rest.push(parts[k].clone());
            assert(strs(rest@) =~= prev.push(parts@[k as int]@));
            assert(strs(parts@).subrange(1, k + 1) =~= strs(parts@).subrange(1, k as int).push(parts@[k as int]@));
            k = k + 1;
        }
        assert(strs(parts@).subrange(1, parts@.len() as int) =~= words(header@).drop_first());
        let param_str = join_strings(&rest, " ");
        let pv = chars_of(param_str.as_str());
        let n = pv.len();
        let clean = if n > 0 && pv[0] == '(' && pv[n - 1] == ')' {
            substring(&pv, 1, n - 1)
        } else {
            param_str
        };
        assert(clean@ == header_params_text(header@));
        let matches = self.parameter_regex.find_all(clean.as_str());
        let ghost ms = matches@.map_values(|s: String| s@);
        let mut i: usize = 0;
        while i < matches.len()
            invariant
                i <= matches@.len(),
                ms == matches@.map_values(|s: String| s@),
                self.parameter_regex.source() == PARAMETER_PATTERN@,
                recipe_params_view(parameters@) == params_of_matches(ms.take(i as int)),
            decreases matches.len() - i,
        {
            assert(ms.take(i + 1).drop_last() =~= ms.take(i as int));
            assert(ms.take(i + 1).last() == matches@[i as int]@);
            match self.parameter_regex.captures(matches[i].as_str()) {
                Some(g) => {
                    let ghost gv = groups_view(Some(g))->0;
                    match group_text(&g, 1) {
                        Some(name) => {
                            let default_value = match group_text(&g, 2) {
                                Some(x) => Some(x),
                                None => match group_text(&g, 3) {
                                    Some(x) => Some(x),
                                    None => group_text(&g, 4),
                                },
                            };
                            let p = RecipeParameter { name, default_value, description: None };
                            let ghost prev = recipe_params_view(parameters@);
                            parameters.push(p);
                            assert(recipe_params_view(parameters@) =~= prev.push(recipe_param_view(p)));
                            assert(match_default(gv) == opt_str(p.default_value));
                        },
                        None => {},
                    }
                },
                None => {},
            }
            i = i + 1;
        }
        assert(ms.take(ms.len() as int) =~= ms);
        parameters
    }

    /// The dependencies after a recipe's colon: its words.
    pub fn extract_dependencies(&self, after_colon: &str) -> (r: Vec<String>)
        ensures
            strs(r@) == words(after_colon@),
    {
        split_whitespace(after_colon)
    }

    /// The parameters before the first colon of a definition line and the
    /// dependencies after it; nothing for a line without a colon.
    pub fn parse_recipe_definition_line(&self, line: &str) -> (r: (Vec<RecipeParameter>, Vec<String>))
        ensures
            match find_char(line@, ':') {
                Some(c) => recipe_params_view(r.0@) == spec_header_params(line@.subrange(0, c as int))
                    && strs(r.1@) == words(line@.subrange((c + 1) as int, line@.len() as int)),
                None => r.0@.len() == 0 && r.1@.len() == 0,
            },
    {
        let v = chars_of(line);
        match find_char_exec(&v, ':') {
            None => (Vec::new(), Vec::new()),
            Some(c) => {
                let header = substring(&v, 0, c);
                let n = v.len();
                let after = substring(&v, c + 1, n);
                let parameters = self.extract_parameters_from_header(header.as_str());
                let dependencies = self.extract_dependencies(after.as_str());
                (parameters, dependencies)
            },
        }
    }

    /// The description a source line gives of a parameter.
    fn line_param_doc_exec(&self, line: &str) -> (r: Option<(String, String)>)
        ensures
            match r {
                Some((n, d)) => line_param_doc(line@) == Some((n@, d@)),
                None => line_param_doc(line@) is None,
            },
    {
        proof {
            use_type_invariant(self);
            reveal_strlit("#");
        }
        if !str_starts_with(line, "#") {
            return None;
        }
        let v = chars_of(line);
        let n = v.len();
        let comment = str_trim(substring(&v, 1, n).as_str());
        match self.param_desc_regex.captures(comment.as_str()) {
            Some(g) => match (group_text(&g, 1), group_text(&g, 2)) {
                (Some(name), Some(desc)) => Some((name, str_trim(desc.as_str()))),
                _ => None,
            },
            None => None,
        }
    }

    /// Each parameter with its description: the one given by a
    /// `{{name}}: description` comment (the last one for a name), else a note
    /// of its default.
    pub fn add_parameter_descriptions(&self, parameters: Vec<RecipeParameter>, source_lines: &[String]) -> (r: Vec<
        RecipeParameter,
    >)
        ensures
            recipe_params_view(r@) == recipe_params_view(parameters@).map_values(
                |p: (Seq<char>, Option<Seq<char>>, Option<Seq<char>>)| described(p, strs(source_lines@)),
            ),
    {
        let ghost ls = strs(source_lines@);
        let mut descriptions: StrMap<String> = StrMap::new();
        let mut i: usize = 0;
        while i < source_lines.len()
            invariant
                i <= source_lines@.len(),
                ls == strs(source_lines@),
                forall|k: Seq<char>|
                    #[trigger] lookup(descriptions@, k) matches Some(d) ==> doc_for(ls.take(i as int), k) == Some(d@),
                forall|k: Seq<char>| #[trigger] lookup(descriptions@, k) is None ==> doc_for(ls.take(i as int), k) is None,
            decreases source_lines.len() - i,
        {
            assert(ls.take(i + 1).drop_last() =~= ls.take(i as int));
            assert(ls.take(i + 1).last() == source_lines@[i as int]@);
            match self.line_param_doc_exec(source_lines[i].as_str()) {
                Some((name, desc)) => {
                    descriptions.insert(name, desc);
                },
                None => {},
            }
            i = i + 1;
        }
        assert(ls.take(ls.len() as int) =~= ls);
        let mut out: Vec<RecipeParameter> = Vec::new();
        let mut j: usize = 0;
        while j < parameters.len()
            invariant
                j <= parameters@.len(),
                ls == strs(source_lines@),
                forall|k: Seq<char>|
                    #[trigger] lookup(descriptions@, k) matches Some(d) ==> doc_for(ls, k) == Some(d@),
                forall|k: Seq<char>| #[trigger] lookup(descriptions@, k) is None ==> doc_for(ls, k) is None,
                recipe_params_view(out@) == recipe_params_view(parameters@).take(j as int).map_values(
                    |p: (Seq<char>, Option<Seq<char>>, Option<Seq<char>>)| described(p, ls),
                ),
            decreases parameters.len() - j,
        {
            let p = &parameters[j];
            let description = match descriptions.get(p.name.as_str()) {
                Some(d) => Some(d.clone()),
                None => match &p.default_value {
                    Some(v) => {
                        let mut note = owned("(default: ");
                        push_str(&mut note, v.as_str());
                        push_str(&mut note, ")");
                        Some(note)
                    },
                    None => match &p.description {
                        Some(d) => Some(d.clone()),
                        None => None,
                    },
                },
            };
            let q = RecipeParameter {
                name: p.name.clone(),
                default_value: match &p.default_value {
                    Some(v) => Some(v.clone()),
                    None => None,
                },
                description,
            };
            let ghost prev = recipe_params_view(out@);
            out.push(q);
            assert(recipe_params_view(out@) =~= prev.push(recipe_param_view(q)));
            assert(recipe_params_view(parameters@).take(j + 1) =~= recipe_params_view(parameters@).take(j as int).push(
                recipe_param_view(parameters@[j as int]),
            ));
            j = j + 1;
        }
        assert(recipe_params_view(parameters@).take(parameters@.len() as int) =~= recipe_params_view(parameters@));
        out
    }

    /// Description and group of a recipe's source, read up to its definition line.
    pub fn extract_metadata_from_source(&self, source_lines: &[String]) -> (r: (Option<String>, Option<String>))
        ensures
            (opt_str(r.0), opt_str(r.1)) == spec_source_metadata(strs(source_lines@)),
    {
        proof {
            use_type_invariant(self);
            reveal_strlit("#");
        }
        let ghost ls = strs(source_lines@);
        let mut group: Option<String> = None;
        let mut comments: Vec<String> = Vec::new();
        let mut i: usize = 0;
        let mut stop = false;
        while i < source_lines.len() && !stop
            invariant
                i <= source_lines@.len(),
                ls == strs(source_lines@),
                self.group_regex.source() == GROUP_PATTERN@,
                self.param_desc_regex.source() == PARAMETER_DOC_PATTERN@,
                opt_str(group) == last_group(ls.take(i as int)),
                strs(comments@) == plain_comments(ls.take(i as int)),
                stop ==> scanned_prefix(ls, 0) == i,
                !stop ==> scanned_prefix(ls, 0) == scanned_prefix(ls, i as nat),
            decreases source_lines.len() - i, if stop { 0int } else { 1int },
        {
            assert(ls.take(i + 1).drop_last() =~= ls.take(i as int));
            assert(ls.take(i + 1).last() == source_lines@[i as int]@);
            let trimmed = str_trim(source_lines[i].as_str());
            match self.group_regex.captures(trimmed.as_str()) {
                Some(g) => match group_text(&g, 1) {
                    Some(name) => {
                        group = Some(name);
                    },
                    None => {},
                },
                None => {},
            }
            let tv = chars_of(trimmed.as_str());
            let n = tv.len();
            let is_comment = str_starts_with(trimmed.as_str(), "#");
            if is_comment {
                proof {
                    reveal_strlit("#");
                    assert(trimmed@.subrange(0, 1) == "#"@);
                    assert(tv@.len() >= 1);
                }
                let comment = str_trim(substring(&tv, 1, n).as_str());
                if !self.param_desc_regex.is_match(comment.as_str()) && !comment.as_str().is_empty() {
                    let ghost prev = strs(comments@);
                    comments.push(comment);
                    assert(strs(comments@) =~= prev.push(comment@));
                }
            }
            assert(strs(comments@) == plain_comments(ls.take(i + 1)));
            i = i + 1;
            if has_char(&tv, ':') && !is_comment {
                stop = true;
            }
        }
        assert(ls.take(scanned_prefix(ls, 0) as int) == ls.take(i as int)) by {
            if !stop {
                assert(i >= ls.len());
            }
        }
        let description = if comments.len() > 0 {
            Some(join_strings(&comments, ". "))
        } else {
            None
        };
        (description, group)
    }

    /// Parameters (with descriptions) and dependencies of a recipe's source;
    /// an error when no line defines the recipe.
    pub fn parse_recipe_header(&self, source_lines: &[String]) -> (r: Result<(Vec<RecipeParameter>, Vec<String>), Error>)
        ensures
            match definition_index(strs(source_lines@), 0) {
                Some(k) => r matches Ok((ps, ds)) && {
                    let l = source_lines@[k as int]@;
                    let c = find_char(l, ':')->0;
                    &&& recipe_params_view(ps@) == spec_header_params(l.subrange(0, c as int)).map_values(
                        |p: (Seq<char>, Option<Seq<char>>, Option<Seq<char>>)| described(p, strs(source_lines@)),
                    )
                    &&& strs(ds@) == words(l.subrange((c + 1) as int, l.len() as int))
                },
                None => r matches Err(Error::Parse { message, line, column }) && message@
                    == "Could not find recipe definition line"@ && line == 0 && column == 0,
            },
    {
        let ghost ls = strs(source_lines@);
        let mut i: usize = 0;
        while i < source_lines.len()
            invariant
                i <= source_lines@.len(),
                ls == strs(source_lines@),
                definition_index(ls, 0) == definition_index(ls, i as nat),
            decreases source_lines.len() - i,
        {
            assert(ls[i as int] == source_lines@[i as int]@);
            let line = source_lines[i].as_str();
            if has_char(&chars_of(line), ':') && !str_starts_with(str_trim(line).as_str(), "#") {
                proof {
                    crate::text::lemma_find_char_from(line@, ':', 0);
                }
                let (parameters, dependencies) = self.parse_recipe_definition_line(line);
                let described_params = self.add_parameter_descriptions(parameters, source_lines);
                return Ok((described_params, dependencies));
            }
            i = i + 1;
        }
        Err(Error::Parse { message: owned("Could not find recipe definition line"), line: 0, column: 0 })
    }

    /// The body of a recipe's source: the lines after its definition, joined and trimmed.
    pub fn extract_recipe_body(&self, source_lines: &[String]) -> (r: String)
        ensures
            r@ == spec_source_body(strs(source_lines@)),
    {
        let ghost ls = strs(source_lines@);
        let mut body_lines: Vec<String> = Vec::new();
        let mut in_body = false;
        let mut i: usize = 0;
        while i < source_lines.len()
            invariant
                i <= source_lines@.len(),
                ls == strs(source_lines@),
                !in_body ==> definition_index(ls, 0) == definition_index(ls, i as nat) && body_lines@.len() == 0,
                in_body ==> (definition_index(ls, 0) matches Some(k) && k < i && strs(body_lines@) == ls.subrange(
                    (k + 1) as int,
                    i as int,
                )),
            decreases source_lines.len() - i,
        {
            assert(ls[i as int] == source_lines@[i as int]@);
            let line = source_lines[i].as_str();
            if in_body {
                let ghost prev = strs(body_lines@);
                body_lines.push(source_lines[i].clone());
                assert(strs(body_lines@) =~= prev.push(line@));
                proof {
                    let k = definition_index(ls, 0)->0;
                    assert(ls.subrange((k + 1) as int, i + 1) =~= ls.subrange((k + 1) as int, i as int).push(line@));
                }
            } else if has_char(&chars_of(line), ':') && !str_starts_with(str_trim(line).as_str(), "#") {
                in_body = true;
                assert(strs(body_lines@) =~= ls.subrange(i + 1, i + 1));
            }
            i = i + 1;
        }
        if !in_body {
            assert(definition_index(ls, i as nat) is None);
        }
        let joined = join_strings(&body_lines, "\n");
        str_trim(joined.as_str())
    }

    /// What `just` reports of recipe `recipe_name`, read from its source.
    pub fn recipe_details(&self, recipe_name: &str, source_lines: Vec<String>) -> (r: Result<RecipeMetadata, Error>)
        ensures
            r is Ok == definition_index(strs(source_lines@), 0) is Some,
            definition_index(strs(source_lines@), 0) is None ==> (r matches Err(Error::Parse { message, line, column })
                && message@ == "Could not find recipe definition line"@ && line == 0 && column == 0),
            r matches Ok(m) ==> {
                &&& m.name@ == recipe_name@
                &&& strs(m.source_lines@) == strs(source_lines@)
                &&& (opt_str(m.description), opt_str(m.group)) == spec_source_metadata(strs(source_lines@))
                &&& m.is_private == starts_with(recipe_name@, "_"@)
                &&& definition_index(strs(source_lines@), 0) matches Some(k) && {
                    let l = source_lines@[k as int]@;
                    let c = find_char(l, ':')->0;
                    &&& recipe_params_view(m.parameters@) == spec_header_params(l.subrange(0, c as int)).map_values(
                        |p: (Seq<char>, Option<Seq<char>>, Option<Seq<char>>)| described(p, strs(source_lines@)),
                    )
                    &&& strs(m.dependencies@) == words(l.subrange((c + 1) as int, l.len() as int))
                }
            },
    {
        let (parameters, dependencies) = match self.parse_recipe_header(source_lines.as_slice()) {
            Ok(x) => x,
            Err(e) => {
                return Err(e);
            },
        };
        let (description, group) = self.extract_metadata_from_source(source_lines.as_slice());
        let is_private = str_starts_with(recipe_name, "_");
        Ok(
            RecipeMetadata {
                name: owned(recipe_name),
                description,
                parameters,
                dependencies,
                group,
                is_private,
                source_lines,
            },
        )
    }
}

/// The recipe names that `just --summary` prints, separated by blanks.
pub fn recipe_names_from_summary(summary: &str) -> (r: Vec<String>)
    ensures
        strs(r@) == words(summary@),
{
    split_whitespace(summary)
}

/// The lines of what `just --show` printed.
pub fn source_lines_of(output: &str) -> (r: Vec<String>)
    ensures
        strs(r@) == text_lines(output@),
{
    crate::text::lines_of(output)
}

/// The comment of a recipe that `just` reports without a description.
pub open spec fn run_note(name: Seq<char>) -> Seq<char> {
    "Execute '"@ + name + "' task"@
}

/// `Execute '<name>' task`.
fn run_note_exec(name: &str) -> (r: String)
    ensures
        r@ == run_note(name@),
{
    let mut note = owned("Execute '");
    push_str(&mut note, name);
    push_str(&mut note, "' task");
    note
}

/// A copy of an optional string.
fn copy_text(o: &Option<String>) -> (r: Option<String>)
    ensures
        opt_str(r) == opt_str(*o),
{
    match o {
        Some(s) => Some(s.clone()),
        None => None,
    }
}

/// The task standing for a recipe whose details `just` could not give: it
/// runs the recipe by name.
pub fn unanalyzed_task(recipe_name: &str) -> (t: JustTask)
    ensures
        t.name@ == recipe_name@,
        t.body@ == "just "@ + recipe_name@,
        t.parameters@.len() == 0,
        t.dependencies@.len() == 0,
        strs(t.comments@) == seq![run_note(recipe_name@)],
        t.line_number == 0,
        t.group is None,
        !t.is_private,
        t.confirm_message is None,
        t.doc is None,
        t.attributes@.len() == 0,
{
    let mut body = owned("just ");
    push_str(&mut body, recipe_name);
    let mut comments: Vec<String> = Vec::new();
    comments.push(run_note_exec(recipe_name));
    assert(strs(comments@) =~= seq![run_note(recipe_name@)]);
    JustTask {
        name: owned(recipe_name),
        body,
        parameters: Vec::new(),
        dependencies: Vec::new(),
        comments,
        line_number: 0,
        group: None,
        is_private: false,
        confirm_message: None,
        doc: None,
        attributes: Vec::new(),
    }
}

impl JustCommandParser {
    /// The task made of what `just` reports of a recipe: its description as
    /// the comment (else a note that runs it), the body after the definition
    /// line, and its group and privacy; line numbers mean nothing here.
    pub fn metadata_to_task(&self, metadata: RecipeMetadata) -> (r: Result<JustTask, Error>)
        ensures
            r matches Ok(t) && {
                &&& t.name@ == metadata.name@
                &&& t.body@ == spec_source_body(strs(metadata.source_lines@))
                &&& task_params_view(t.parameters@) == recipe_params_view(metadata.parameters@)
                &&& strs(t.dependencies@) == strs(metadata.dependencies@)
                &&& strs(t.comments@) == match opt_str(metadata.description) {
                    Some(d) => seq![d],
                    None => seq![run_note(metadata.name@)],
                }
                &&& t.line_number == 0
                &&& opt_str(t.group) == opt_str(metadata.group)
                &&& t.is_private == metadata.is_private
                &&& t.confirm_message is None
                &&& t.doc is None
                &&& t.attributes@.len() == 0
            },
    {
        let mut parameters: Vec<Parameter> = Vec::new();
        let mut i: usize = 0;
        while i < metadata.parameters.len()
            invariant
                i <= metadata.parameters@.len(),
                task_params_view(parameters@) == recipe_params_view(metadata.parameters@).take(i as int),
            decreases metadata.parameters.len() - i,
        {
            let p = &metadata.parameters[i];
            let q = Parameter { name: p.name.clone(), default: copy_text(&p.default_value), description: copy_text(&p.description) };
            let ghost prev = task_params_view(parameters@);
            parameters.push(q);
            assert(task_params_view(parameters@) =~= prev.push(recipe_param_view(*p)));
            assert(recipe_params_view(metadata.parameters@).take(i + 1) =~= recipe_params_view(metadata.parameters@).take(
                i as int,
            ).push(recipe_param_view(*p)));
            i = i + 1;
        }
        assert(recipe_params_view(metadata.parameters@).take(metadata.parameters@.len() as int) =~= recipe_params_view(
            metadata.parameters@,
        ));
        let comments = match &metadata.description {
            Some(d) => {
                let mut v: Vec<String> = Vec::new();
                v.push(d.clone());
                assert(strs(v@) =~= seq![d@]);
                v
            },
            None => {
                let mut v: Vec<String> = Vec::new();
                v.push(run_note_exec(metadata.name.as_str()));
                assert(strs(v@) =~= seq![run_note(metadata.name@)]);
                v
            },
        };
        let body = self.extract_recipe_body(metadata.source_lines.as_slice());
        let mut dependencies: Vec<String> = Vec::new();
        let mut k: usize = 0;
        while k < metadata.dependencies.len()
            invariant
                k <= metadata.dependencies@.len(),
                strs(dependencies@) == strs(metadata.dependencies@).take(k as int),
            decreases metadata.dependencies.len() - k,
        {
            let ghost prev = strs(dependencies@);
            dependencies.push(metadata.dependencies[k].clone());
            assert(strs(dependencies@) =~= prev.push(metadata.dependencies@[k as int]@));
            assert(strs(metadata.dependencies@).take(k + 1) =~= strs(metadata.dependencies@).take(k as int).push(
                metadata.dependencies@[k as int]@,
            ));
            k = k + 1;
        }
        assert(strs(metadata.dependencies@).take(metadata.dependencies@.len() as int) =~= strs(metadata.dependencies@));
        Ok(
            JustTask {
                name: metadata.name.clone(),
                body,
                parameters,
                dependencies,
                comments,
                line_number: 0,
                group: copy_text(&metadata.group),
                is_private: metadata.is_private,
                confirm_message: None,
                doc: None,
                attributes: Vec::new(),
            },
        )
    }
}

} // verus!

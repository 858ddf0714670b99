//! Association of comments with recipe parameters.
use vstd::prelude::*;
use crate::text::{
    owned, push_str, trim, str_trim, find, str_find, contains, str_contains, starts_with, str_starts_with,
    unicode_lowercase, to_lowercase, chars_of, string_of, trim_chars, sub_chars,
};
use crate::parser::ast::queries::info::{ParameterInfo, CommentInfo, opt_str};

verus! {

/// Attaches descriptions found in comments to parameters.
pub struct CommentAssociator;

/// Trimmed text after the first occurrence of `pat`, when that is not blank.
pub open spec fn text_after(text: Seq<char>, pat: Seq<char>) -> Option<Seq<char>> {
    match find(text, pat) {
        Some(i) => {
            let d = trim(text.subrange((i + pat.len()) as int, text.len() as int));
            if d.len() > 0 {
                Some(d)
            } else {
                None
            }
        },
        None => None,
    }
}

/// Description of parameter `name` in one comment: after `{{name}}:`, or else after `name:`.
pub open spec fn comment_description(text: Seq<char>, name: Seq<char>) -> Option<Seq<char>> {
    match text_after(text, "{{"@ + name + "}}:"@) {
        Some(d) => Some(d),
        None => text_after(text, name + ":"@),
    }
}

/// The first comment that describes `name` by pattern.
pub open spec fn pattern_description(comments: Seq<CommentInfo>, name: Seq<char>) -> Option<Seq<char>>
    decreases comments.len(),
{
    if comments.len() == 0 {
        None
    } else {
        match comment_description(comments[0].text@, name) {
            Some(d) => Some(d),
            None => pattern_description(comments.drop_first(), name),
        }
    }
}

/// The first comment at most three lines before `line` that mentions `name`, ignoring case.
pub open spec fn nearby_description(comments: Seq<CommentInfo>, name: Seq<char>, line: usize) -> Option<Seq<char>>
    decreases comments.len(),
{
    if comments.len() == 0 {
        None
    } else if comments[0].line_number < line && line - comments[0].line_number <= 3 && contains(
        unicode_lowercase(comments[0].text@),
        unicode_lowercase(name),
    ) {
        Some(comments[0].text@)
    } else {
        nearby_description(comments.drop_first(), name, line)
    }
}

/// Description of a parameter: by pattern first, then by proximity to its line.
pub open spec fn spec_parameter_description(
    comments: Seq<CommentInfo>,
    name: Seq<char>,
    position: Option<(usize, usize)>,
) -> Option<Seq<char>> {
    match pattern_description(comments, name) {
        Some(d) => Some(d),
        None => match position {
            Some((line, _)) => nearby_description(comments, name, line),
            None => None,
        },
    }
}

/// `(name, description)` from a comment of the form `{{name}}: description`.
pub open spec fn spec_doc_comment(comment: Seq<char>) -> Option<(Seq<char>, Seq<char>)> {
    let t = trim(comment);
    if starts_with(t, "{{"@) && contains(t, "}}: "@) {
        let k = find(t, "}}: "@)->0;
        let name = trim(t.subrange(2, k as int));
        let desc = trim(t.subrange((k + 4) as int, t.len() as int));
        if name.len() > 0 && desc.len() > 0 {
            Some((name, desc))
        } else {
            None
        }
    } else {
        None
    }
}

/// Parameter docs from the comments at most ten lines before `line`, in order.
pub open spec fn spec_recipe_docs(comments: Seq<CommentInfo>, line: usize) -> Seq<(Seq<char>, Seq<char>)>
    decreases comments.len(),
{
    if comments.len() == 0 {
        seq![]
    } else {
        let c = comments.last();
        let rest = spec_recipe_docs(comments.drop_last(), line);
        if c.line_number < line && line - c.line_number <= 10 && spec_doc_comment(c.text@) is Some {
            rest.push(spec_doc_comment(c.text@)->0)
        } else {
            rest
        }
    }
}

/// `text_after` on executable strings.
fn text_after_exec(text: &str, pat: &str) -> (r: Option<String>)
    ensures
        opt_str(r) == text_after(text@, pat@),
{
    match str_find(text, pat) {
        Some(i) => {
            let tc = chars_of(text);
            let pc = chars_of(pat);
            proof {
                crate::text::lemma_find_from_occurs(text@, pat@, 0);
                assert(i + pat@.len() <= text@.len());
                assert(i + pc@.len() <= tc@.len());
            }
            let plen = pc.len();
            let tlen = tc.len();
            assert(i + plen <= tlen);
            let rest = sub_chars(&tc, i + plen, tlen);
            let d = trim_chars(&rest);
            if d.len() > 0 {
                Some(string_of(&d))
            } else {
                None
            }
        },
        None => None,
    }
}

impl CommentAssociator {
    /// Sets the description of each parameter that some comment describes.
    pub fn associate_parameter_descriptions(parameters: &mut Vec<ParameterInfo>, comments: &Vec<CommentInfo>)
        ensures
            final(parameters)@.len() == old(parameters)@.len(),
            forall|i: int| 0 <= i < old(parameters)@.len() ==> {
                let p = #[trigger] old(parameters)@[i];
                let q = final(parameters)@[i];
                &&& q.name == p.name
                &&& q.default_value == p.default_value
                &&& q.is_variadic == p.is_variadic
                &&& q.is_required == p.is_required
                &&& q.parameter_type == p.parameter_type
                &&& q.raw_default == p.raw_default
                &&& q.position == p.position
                &&& opt_str(q.description) == match spec_parameter_description(comments@, p.name@, p.position) {
                    Some(d) => Some(d),
                    None => opt_str(p.description),
                }
            },
    {
        let n = parameters.len();
        let mut i: usize = 0;
        while i < n
            invariant
                n == old(parameters)@.len(),
                parameters@.len() == n,
                i <= n,
                forall|j: int| i <= j < n ==> #[trigger] parameters@[j] == old(parameters)@[j],
                forall|j: int| 0 <= j < i ==> {
                    let p = #[trigger] old(parameters)@[j];
                    let q = parameters@[j];
                    &&& q.name == p.name
                    &&& q.default_value == p.default_value
                    &&& q.is_variadic == p.is_variadic
                    &&& q.is_required == p.is_required
                    &&& q.parameter_type == p.parameter_type
                    &&& q.raw_default == p.raw_default
                    &&& q.position == p.position
                    &&& opt_str(q.description) == match spec_parameter_description(comments@, p.name@, p.position) {
                        Some(d) => Some(d),
                        None => opt_str(p.description),
                    }
                },
            decreases n - i,
        {
            let found = Self::find_parameter_description(parameters[i].name.as_str(), comments, parameters[i].position);
            match found {
                Some(d) => {
                    parameters[i].description = Some(d);
                },
                None => {},
            }
            i = i + 1;
        }
    }

    /// Description of parameter `param_name` found in the comments.
    pub fn find_parameter_description(
        param_name: &str,
        comments: &Vec<CommentInfo>,
        param_position: Option<(usize, usize)>,
    ) -> (r: Option<String>)
        ensures
            opt_str(r) == spec_parameter_description(comments@, param_name@, param_position),
    {
        let mut pat1 = owned("{{");
        push_str(&mut pat1, param_name);
        push_str(&mut pat1, "}}:");
        let mut pat2 = owned(param_name);
        push_str(&mut pat2, ":");
        let mut i: usize = 0;
        assert(comments@.subrange(0, comments@.len() as int) =~= comments@);
        while i < comments.len()
            invariant
                i <= comments@.len(),
                pat1@ == "{{"@ + param_name@ + "}}:"@,
                pat2@ == param_name@ + ":"@,
                pattern_description(comments@, param_name@) == pattern_description(
                    comments@.subrange(i as int, comments@.len() as int),
                    param_name@,
                ),
            decreases comments.len() - i,
        {
            let ghost rest = comments@.subrange(i as int, comments@.len() as int);
            assert(rest[0] == comments@[i as int]);
            assert(rest.drop_first() =~= comments@.subrange(i + 1, comments@.len() as int));
            let text = comments[i].text.as_str();
            match text_after_exec(text, pat1.as_str()) {
                Some(d) => {
                    return Some(d);
                },
                None => {},
            }
            match text_after_exec(text, pat2.as_str()) {
                Some(d) => {
                    return Some(d);
                },
                None => {},
            }
            i = i + 1;
        }
        assert(comments@.subrange(i as int, comments@.len() as int).len() == 0);
        match param_position {
            Some((line, col)) => {
                assert(pattern_description(comments@, param_name@) is None);
                let lname = to_lowercase(param_name);
                let mut k: usize = 0;
                assert(comments@.subrange(0, comments@.len() as int) =~= comments@);
                while k < comments.len()
                    invariant
                        k <= comments@.len(),
                        pattern_description(comments@, param_name@) is None,
                        param_position == Some((line, col)),
                        lname@ == unicode_lowercase(param_name@),
                        nearby_description(comments@, param_name@, line) == nearby_description(
                            comments@.subrange(k as int, comments@.len() as int),
                            param_name@,
                            line,
                        ),
                    decreases comments.len() - k,
                {
                    let ghost rest = comments@.subrange(k as int, comments@.len() as int);
                    assert(rest[0] == comments@[k as int]);
                    assert(rest.drop_first() =~= comments@.subrange(k + 1, comments@.len() as int));
                    let c = &comments[k];
                    if c.line_number < line && line - c.line_number <= 3 {
                        let ltext = to_lowercase(c.text.as_str());
                        if str_contains(ltext.as_str(), lname.as_str()) {
                            assert(nearby_description(rest, param_name@, line) == Some(c.text@));
                            return Some(c.text.clone());
                        }
                    }
                    k = k + 1;
                }
                None
            },
            None => None,
        }
    }

    /// Parameter docs from the comments up to ten lines before `recipe_line`.
    pub fn extract_recipe_parameter_docs(recipe_line: usize, comments: &Vec<CommentInfo>) -> (r: Vec<(String, String)>)
        ensures
            r@.map_values(|p: (String, String)| (p.0@, p.1@)) == spec_recipe_docs(comments@, recipe_line),
    {
        let mut out: Vec<(String, String)> = Vec::new();
        let mut i: usize = 0;
        assert(out@.map_values(|p: (String, String)| (p.0@, p.1@)) =~= spec_recipe_docs(comments@.take(0), recipe_line));
        while i < comments.len()
            invariant
                i <= comments@.len(),
                out@.map_values(|p: (String, String)| (p.0@, p.1@)) == spec_recipe_docs(comments@.take(i as int), recipe_line),
            decreases comments.len() - i,
        {
            let c = &comments[i];
            assert(comments@.take(i + 1).drop_last() =~= comments@.take(i as int));
            assert(comments@.take(i + 1).last() == comments@[i as int]);
            if c.line_number < recipe_line && recipe_line - c.line_number <= 10 {
                match Self::parse_parameter_doc_comment(c.text.as_str()) {
                    Some(pair) => {
                        let ghost prev = out@.map_values(|p: (String, String)| (p.0@, p.1@));
                        out.push(pair);
                        assert(out@.map_values(|p: (String, String)| (p.0@, p.1@)) =~= prev.push((pair.0@, pair.1@)));
                    },
                    None => {},
                }
            }
            i = i + 1;
        }
        assert(comments@.take(comments.len() as int) =~= comments@);
        out
    }

    /// `(name, description)` from `{{name}}: description`.
    pub fn parse_parameter_doc_comment(comment: &str) -> (r: Option<(String, String)>)
        ensures
            match r {
                Some((n, d)) => spec_doc_comment(comment@) == Some((n@, d@)),
                None => spec_doc_comment(comment@) is None,
            },
    {
        let ts = str_trim(comment);
        let t = ts.as_str();
        if str_starts_with(t, "{{") && str_contains(t, "}}: ") {
            match str_find(t, "}}: ") {
                Some(k) => {
                    let tc = chars_of(t);
                    proof {
                        crate::text::lemma_find_from_occurs(t@, "}}: "@, 0);
                        reveal_strlit("}}: ");
                        reveal_strlit("{{");
                        assert(t@.subrange(0, 2) == "{{"@);
                        assert("{{"@[0] == '{' && "{{"@[1] == '{');
                        assert(t@.subrange(0, 2)[0] == t@[0]);
                        assert(t@.subrange(0, 2)[1] == t@[1]);
                        assert(t@.subrange(k as int, k + 4) == "}}: "@);
                        assert("}}: "@[0] == '}');
                        assert(t@.subrange(k as int, k + 4)[0] == t@[k as int]);
                        assert(k >= 2) by {
                            if k < 2 {
                                assert(t@[k as int] == '}');
                            }
                        }
                    }
                    let name_c = sub_chars(&tc, 2, k);
                    let desc_c = sub_chars(&tc, k + 4, tc.len());
                    let name = trim_chars(&name_c);
                    let desc = trim_chars(&desc_c);
                    if name.len() > 0 && desc.len() > 0 {
                        return Some((string_of(&name), string_of(&desc)));
                    }
                    None
                },
                None => None,
            }
        } else {
            None
        }
    }
}

/// A parameter documentation comment `{{name}}: description` reads back as
/// that name and description, when the name has no `}` and neither part is
/// blank or has blanks around it.
pub proof fn lemma_doc_comment_round_trip(name: Seq<char>, desc: Seq<char>)
    requires
        name.len() > 0,
        trim(name) == name,
        !name.contains('}'),
        desc.len() > 0,
        trim(desc) == desc,
    ensures
        spec_doc_comment("{{"@ + name + "}}: "@ + desc) == Some((name, desc)),
{
    reveal_strlit("{{");
    reveal_strlit("}}: ");
    let t = "{{"@ + name + "}}: "@ + desc;
    let k = name.len() + 2;
    assert(!crate::text::is_ws(t[0]));
    assert(t.last() == desc.last());
    crate::text::lemma_trimmed_ends(desc);
    crate::text::lemma_trim_identity(t);
    assert(t.subrange(0, 2) =~= "{{"@);
    assert(t.subrange(k as int, (k + 4) as int) =~= "}}: "@);
    assert forall|j: int| 0 <= j < k implies !crate::text::occurs_at(t, "}}: "@, j) by {
        if crate::text::occurs_at(t, "}}: "@, j) {
            assert(t.subrange(j, j + 4)[0] == t[j]);
            assert(t[j] == '}');
            if j >= 2 {
                assert(t[j] == name[j - 2]);
            }
        }
    }
    crate::text::lemma_find_from_first(t, "}}: "@, 0, k as nat);
    assert(t.subrange(2, k as int) =~= name);
    assert(t.subrange((k + 4) as int, t.len() as int) =~= desc);
}

} // verus!

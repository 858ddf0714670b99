//! Parsing of command-line values.
use vstd::prelude::*;
use crate::text::{chars_of, substring, find_char, find_char_exec, concat, push_str, owned};

verus! {

/// `KEY=value` split at its first `=`, or the message for a missing `=`.
pub open spec fn spec_key_val(s: Seq<char>) -> Result<(Seq<char>, Seq<char>), Seq<char>> {
    match find_char(s, '=') {
        Some(i) => Ok((s.subrange(0, i as int), s.subrange((i + 1) as int, s.len() as int))),
        None => Err("invalid KEY=value: no `=` found in `"@ + s + "`"@),
    }
}

/// Splits `KEY=value` at the first `=`.
pub fn parse_key_val(s: &str) -> (r: Result<(String, String), String>)
    ensures
        match r {
            Ok((k, v)) => spec_key_val(s@) == Ok::<(Seq<char>, Seq<char>), Seq<char>>((k@, v@)),
            Err(e) => spec_key_val(s@) == Err::<(Seq<char>, Seq<char>), Seq<char>>(e@),
        },
{
    let v = chars_of(s);
    match find_char_exec(&v, '=') {
        Some(i) => {
            proof {
                crate::text::lemma_find_char_from(v@, '=', 0);
            }
            let n = v.len();
            Ok((substring(&v, 0, i), substring(&v, i + 1, n)))
        },
        None => {
            let mut e = concat("invalid KEY=value: no `=` found in `", s);
            push_str(&mut e, "`");
            Err(e)
        },
    }
}

/// A watched directory written `path` or `path:name`: split at the first `:`.
pub open spec fn spec_watch_dir(spec: Seq<char>) -> (Seq<char>, Option<Seq<char>>) {
    match find_char(spec, ':') {
        Some(i) => (spec.subrange(0, i as int), Some(spec.subrange((i + 1) as int, spec.len() as int))),
        None => (spec, None),
    }
}

/// The path and the optional name of a watched directory `path` or `path:name`.
pub fn parse_watch_dir(dir_spec: &str) -> (r: (String, Option<String>))
    ensures
        (r.0@, match r.1 {
            Some(n) => Some(n@),
            None => None,
        }) == spec_watch_dir(dir_spec@),
{
    let v = chars_of(dir_spec);
    match find_char_exec(&v, ':') {
        Some(i) => {
            proof {
                crate::text::lemma_find_char_from(v@, ':', 0);
            }
            let n = v.len();
            (substring(&v, 0, i), Some(substring(&v, i + 1, n)))
        },
        None => (owned(dir_spec), None),
    }
}

/// A directory named `path:name` reads back as that path and name when the
/// path holds no `:`; one written without `:` has no name.
pub proof fn lemma_watch_dir_round_trip(path: Seq<char>, name: Seq<char>)
    requires
        !path.contains(':'),
    ensures
        spec_watch_dir(path + ":"@ + name) == (path, Some(name)),
        spec_watch_dir(path) == (path, None::<Seq<char>>),
{
    reveal_strlit(":");
    let s = path + ":"@ + name;
    crate::text::lemma_find_char_from(s, ':', 0);
    crate::text::lemma_find_char_from(path, ':', 0);
    assert(s[path.len() as int] == ':');
    match find_char(s, ':') {
        Some(i) => {
            if i < path.len() {
                assert(s[i as int] == path[i as int]);
                assert(path.contains(':'));
            }
        },
        None => {},
    }
    match find_char(path, ':') {
        Some(k) => {
            assert(path[k as int] == ':');
            assert(path.contains(':'));
        },
        None => {},
    }
    assert(s.subrange(0, path.len() as int) =~= path);
    assert(s.subrange(path.len() as int + 1, s.len() as int) =~= name);
}

} // verus!

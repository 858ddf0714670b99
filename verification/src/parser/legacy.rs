//! Pieces of the line-based justfile reader that work on plain text.
use vstd::prelude::*;
use vstd::utf8::{encode_utf8, decode_utf8, is_char_boundary, valid_utf8};
use vstd::string::StringSliceAdditionalSpecFns;
use crate::text::{trim, chars_of, string_of, trim_chars, str_trim, owned};
use crate::parser::ast::queries::info::strs;

verus! {

/// Open parentheses minus closing ones in `s`.
pub open spec fn paren_depth(s: Seq<char>) -> int
    decreases s.len(),
{
    if s.len() == 0 {
        0
    } else {
        paren_depth(s.drop_last()) + if s.last() == '(' {
            1int
        } else if s.last() == ')' {
            -1int
        } else {
            0int
        }
    }
}

/// State of the dependency splitter after reading `s`: the dependencies so
/// far and the current one.
pub open spec fn dependency_state(s: Seq<char>) -> (Seq<Seq<char>>, Seq<char>)
    decreases s.len(),
{
    if s.len() == 0 {
        (seq![], seq![])
    } else {
        let st = dependency_state(s.drop_last());
        let ch = s.last();
        if (ch == ' ' || ch == '\t') && paren_depth(s.drop_last()) == 0 {
            if st.1.len() > 0 {
                (st.0.push(trim(st.1)), seq![])
            } else {
                st
            }
        } else {
            (st.0, st.1.push(ch))
        }
    }
}

/// The dependencies written after a recipe's colon: words separated by
/// spaces or tabs outside parentheses.
pub open spec fn spec_parse_dependencies(after_colon: Seq<char>) -> Seq<Seq<char>> {
    let t = trim(after_colon);
    if t.len() == 0 {
        seq![]
    } else {
        let st = dependency_state(t);
        if st.1.len() > 0 {
            st.0.push(trim(st.1))
        } else {
            st.0
        }
    }
}

/// Parentheses never nest deeper, nor close further, than a 32-bit counter holds.
pub open spec fn depth_fits(s: Seq<char>) -> bool {
    forall|k: int| 0 <= k <= s.len() ==> i32::MIN <= #[trigger] paren_depth(s.take(k)) <= i32::MAX
}

/// The dependencies written after a recipe's colon; a dependency with
/// arguments in parentheses stays whole.
pub fn parse_dependencies(after_colon: &str) -> (r: Vec<String>)
    requires
        depth_fits(trim(after_colon@)),
    ensures
        strs(r@) == spec_parse_dependencies(after_colon@),
{
    let mut dependencies: Vec<String> = Vec::new();
    let trimmed = str_trim(after_colon);
    if trimmed.as_str().is_empty() {
        assert(strs(dependencies@) =~= Seq::<Seq<char>>::empty());
        return dependencies;
    }
    let v = chars_of(trimmed.as_str());
    let mut current: Vec<char> = Vec::new();
    let mut depth: i32 = 0;
    let mut i: usize = 0;
    while i < v.len()
        invariant
            i <= v@.len(),
            v@ == trimmed@,
            depth_fits(v@),
            depth == paren_depth(v@.take(i as int)),
            dependency_state(v@.take(i as int)) == (strs(dependencies@), current@),
        decreases v.len() - i,
    {
        let ch = v[i];
        assert(v@.take(i + 1).drop_last() =~= v@.take(i as int));
        assert(v@.take(i + 1).last() == ch);
        assert(i32::MIN <= paren_depth(v@.take(i + 1)) <= i32::MAX);
        if ch == '(' {
            current.push(ch);
            depth = depth + 1;
        } else if ch == ')' {
            current.push(ch);
            depth = depth - 1;
        } else if (ch == ' ' || ch == '\t') && depth == 0 {
            if current.len() > 0 {
                let t = trim_chars(&current);
                let ghost prev = strs(dependencies@);
                dependencies.push(string_of(&t));
                assert(strs(dependencies@) =~= prev.push(t@));
                current = Vec::new();
            }
        } else {
            current.push(ch);
        }
        i = i + 1;
    }
    assert(v@.take(v@.len() as int) =~= v@);
    if current.len() > 0 {
        let t = trim_chars(&current);
        let ghost prev = strs(dependencies@);
        dependencies.push(string_of(&t));
        assert(strs(dependencies@) =~= prev.push(t@));
    }
    dependencies
}

// ---------------------------------------------------------------------------
// Byte positions
// ---------------------------------------------------------------------------

/// The text whose UTF-8 encoding is bytes `a` to `b` of the encoding of `s`.
pub open spec fn byte_slice(s: Seq<char>, a: int, b: int) -> Seq<char> {
    decode_utf8(encode_utf8(s).subrange(a, b))
}

/// Byte `a` of the encoding of `s` starts a character (or ends the text).
pub open spec fn on_boundary(s: Seq<char>, a: int) -> bool {
    is_char_boundary(encode_utf8(s), a)
}

/// A boundary of a text is a boundary of any prefix that reaches it.
pub proof fn lemma_boundary_in_prefix(bytes: Seq<u8>, a: int, b: int)
    requires
        valid_utf8(bytes),
        is_char_boundary(bytes, a),
        is_char_boundary(bytes, b),
        0 <= a <= b,
    ensures
        valid_utf8(bytes.subrange(0, b)),
        is_char_boundary(bytes.subrange(0, b), a),
{
    vstd::utf8::valid_utf8_split(bytes, b);
    let left = bytes.subrange(0, b);
    if a == b {
        vstd::utf8::is_char_boundary_start_end_of_seq(left);
    } else {
        assert(b <= bytes.len()) by {
            if b > bytes.len() {
                reveal_with_fuel(is_char_boundary, 1);
            }
        }
        assert(a < bytes.len());
        vstd::utf8::is_char_boundary_iff_not_is_continuation_byte(bytes, a);
        vstd::utf8::is_char_boundary_iff_not_is_continuation_byte(left, a);
        assert(left[a] == bytes[a]);
    }
}

/// A character boundary lies within the encoding.
pub proof fn lemma_boundary_within(s: Seq<char>, a: int)
    requires
        on_boundary(s, a),
    ensures
        0 <= a <= encode_utf8(s).len(),
{
    vstd::utf8::encode_utf8_valid_utf8(s);
    reveal_with_fuel(is_char_boundary, 1);
}

/// The end of the encoding is a character boundary.
pub proof fn lemma_end_on_boundary(s: Seq<char>)
    ensures
        on_boundary(s, encode_utf8(s).len() as int),
{
    vstd::utf8::encode_utf8_valid_utf8(s);
    vstd::utf8::is_char_boundary_start_end_of_seq(encode_utf8(s));
}

/// Bytes `a` to `b` of `s`, both on character boundaries.
pub fn str_byte_slice(s: &str, a: usize, b: usize) -> (r: String)
    requires
        a <= b,
        on_boundary(s@, a as int),
        on_boundary(s@, b as int),
    ensures
        r@ == byte_slice(s@, a as int, b as int),
{
    proof {
        vstd::utf8::encode_utf8_valid_utf8(s@);
        lemma_boundary_in_prefix(encode_utf8(s@), a as int, b as int);
    }
    let (left, _) = s.split_at(b);
    let (_, mid) = left.split_at(a);
    proof {
        vstd::utf8::encode_utf8_decode_utf8(mid@);
        assert(mid.spec_bytes() =~= encode_utf8(s@).subrange(a as int, b as int));
    }
    owned(mid)
}

// ---------------------------------------------------------------------------
// Parameter lists
// ---------------------------------------------------------------------------

/// State of the comma splitter after `s`: the (start, comma) positions cut
/// so far, the start of the current piece, whether inside quotes and the
/// opening quote. Positions count characters.
pub open spec fn cut_state(s: Seq<char>) -> (Seq<(nat, nat)>, nat, bool, char)
    decreases s.len(),
{
    if s.len() == 0 {
        (seq![], 0, false, ' ')
    } else {
        let st = cut_state(s.drop_last());
        let i = (s.len() - 1) as nat;
        let ch = s.last();
        if (ch == '"' || ch == '\'') && !st.2 {
            (st.0, st.1, true, ch)
        } else if (ch == '"' || ch == '\'') && st.2 && ch == st.3 {
            (st.0, st.1, false, st.3)
        } else if ch == ',' && !st.2 {
            (st.0.push((st.1, i)), i + 1, st.2, st.3)
        } else {
            st
        }
    }
}

/// Whether every cut of `s`, read as a byte range, falls on character
/// boundaries (always so for ASCII text).
pub open spec fn cuts_on_boundaries(s: Seq<char>) -> bool {
    let st = cut_state(s);
    &&& forall|k: int|
        0 <= k < st.0.len() ==> on_boundary(s, (#[trigger] st.0[k]).0 as int) && on_boundary(s, st.0[k].1 as int)
    &&& st.1 < encode_utf8(s).len() ==> on_boundary(s, st.1 as int)
}

/// The pieces between commas outside quotes, each cut by taking the
/// character positions as byte positions.
pub open spec fn spec_split_pieces(s: Seq<char>) -> Seq<Seq<char>> {
    let st = cut_state(s);
    st.0.map_values(|c: (nat, nat)| byte_slice(s, c.0 as int, c.1 as int)) + if st.1 < encode_utf8(s).len() {
        seq![byte_slice(s, st.1 as int, encode_utf8(s).len() as int)]
    } else {
        seq![]
    }
}

/// Splits a parameter list at the commas outside quotes. Each piece is cut
/// from the text by taking character positions as byte positions, which is
/// exact for ASCII text.
pub fn split_parameters(params_str: &str) -> (r: Vec<String>)
    requires
        cuts_on_boundaries(params_str@),
    ensures
        strs(r@) == spec_split_pieces(params_str@),
{
    let v = chars_of(params_str);
    let ghost s = params_str@;
    let ghost fin = cut_state(s);
    let mut parts: Vec<String> = Vec::new();
    let mut current_start: usize = 0;
    let mut in_quotes = false;
    let mut quote_char = ' ';
    let mut i: usize = 0;
    while i < v.len()
        invariant
            i <= v@.len(),
            v@ == s,
            s == params_str@,
            fin == cut_state(s),
            cuts_on_boundaries(s),
            cut_state(s.take(i as int)).1 == current_start,
            cut_state(s.take(i as int)).2 == in_quotes,
            cut_state(s.take(i as int)).3 == quote_char,
            current_start <= i,
            strs(parts@) == cut_state(s.take(i as int)).0.map_values(
                |c: (nat, nat)| byte_slice(s, c.0 as int, c.1 as int),
            ),
            fin.0.len() >= cut_state(s.take(i as int)).0.len(),
            forall|k: int|
                0 <= k < cut_state(s.take(i as int)).0.len() ==> #[trigger] cut_state(s.take(i as int)).0[k]
                    == fin.0[k],
        decreases v.len() - i,
    {
        let ch = v[i];
        assert(s.take(i + 1).drop_last() =~= s.take(i as int));
        assert(s.take(i + 1).last() == ch);
        proof {
            lemma_cuts_grow(s, s.len());
            assert(s.take(s.len() as int) =~= s);
            assert(cut_state(s.take((i + 1) as nat as int)) == cut_state(s.take(i + 1)));
        }
        if (ch == '"' || ch == '\'') && !in_quotes {
            in_quotes = true;
            quote_char = ch;
        } else if (ch == '"' || ch == '\'') && in_quotes && ch == quote_char {
            in_quotes = false;
        } else if ch == ',' && !in_quotes {
            let ghost k = cut_state(s.take(i as int)).0.len();
            assert(cut_state(s.take(i + 1)).0[k as int] == (current_start as nat, i as nat));
            assert(fin.0[k as int] == (current_start as nat, i as nat));
            let piece = str_byte_slice(params_str, current_start, i);
            let ghost prev = strs(parts@);
            parts.push(piece);
            assert(strs(parts@) =~= prev.push(piece@));
            current_start = i + 1;
        }
        assert(strs(parts@) =~= cut_state(s.take(i + 1)).0.map_values(
            |c: (nat, nat)| byte_slice(s, c.0 as int, c.1 as int),
        ));
        i = i + 1;
    }
    assert(s.take(v@.len() as int) =~= s);
    let n = params_str.as_bytes().len();
    assert(n == encode_utf8(s).len());
    if current_start < n {
        proof {
            vstd::utf8::encode_utf8_valid_utf8(s);
            vstd::utf8::is_char_boundary_start_end_of_seq(encode_utf8(s));
        }
        let piece = str_byte_slice(params_str, current_start, n);
        let ghost prev = strs(parts@);
        parts.push(piece);
        assert(strs(parts@) =~= prev.push(piece@));
    }
    parts
}

/// The cuts made after a longer prefix extend those made after a shorter one.
proof fn lemma_cuts_grow(s: Seq<char>, n: nat)
    requires
        n <= s.len(),
    ensures
        forall|m: nat|
            m <= n ==> cut_state(s.take(n as int)).0.len() >= cut_state(s.take(m as int)).0.len() && forall|k: int|
                0 <= k < cut_state(s.take(m as int)).0.len() ==> #[trigger] cut_state(s.take(m as int)).0[k]
                    == cut_state(s.take(n as int)).0[k],
    decreases n,
{
    if n > 0 {
        lemma_cuts_grow(s, (n - 1) as nat);
        assert(s.take(n as int).drop_last() =~= s.take(n - 1));
    }
}

/// Whether every cut of `s` falls on character boundaries.
pub fn cuts_on_boundaries_exec(params_str: &str) -> (r: bool)
    ensures
        r == cuts_on_boundaries(params_str@),
{
    let v = chars_of(params_str);
    let ghost s = params_str@;
    let mut current_start: usize = 0;
    let mut in_quotes = false;
    let mut quote_char = ' ';
    let mut ok = true;
    let mut i: usize = 0;
    while i < v.len()
        invariant
            i <= v@.len(),
            v@ == s,
            s == params_str@,
            cut_state(s.take(i as int)).1 == current_start,
            cut_state(s.take(i as int)).2 == in_quotes,
            cut_state(s.take(i as int)).3 == quote_char,
            current_start <= i,
            ok == forall|k: int|
                0 <= k < cut_state(s.take(i as int)).0.len() ==> on_boundary(
                    s,
                    (#[trigger] cut_state(s.take(i as int)).0[k]).0 as int,
                ) && on_boundary(s, cut_state(s.take(i as int)).0[k].1 as int),
        decreases v.len() - i,
    {
        let ch = v[i];
        assert(s.take(i + 1).drop_last() =~= s.take(i as int));
        assert(s.take(i + 1).last() == ch);
        let ghost before = cut_state(s.take(i as int)).0;
        if (ch == '"' || ch == '\'') && !in_quotes {
            assert(cut_state(s.take(i + 1)).0 == before);
            in_quotes = true;
            quote_char = ch;
        } else if (ch == '"' || ch == '\'') && in_quotes && ch == quote_char {
            assert(cut_state(s.take(i + 1)).0 == before);
            in_quotes = false;
        } else if ch == ',' && !in_quotes {
            let here = params_str.is_char_boundary(current_start) && params_str.is_char_boundary(i);
            proof {
                let after = cut_state(s.take(i + 1)).0;
                assert(after == before.push((current_start as nat, i as nat)));
                if ok && here {
                    assert forall|k: int| 0 <= k < after.len() implies on_boundary(s, (#[trigger] after[k]).0 as int)
                        && on_boundary(s, after[k].1 as int) by {
                        if k < before.len() {
                            assert(after[k] == before[k]);
                        }
                    }
                }
                if !here {
                    assert(after[before.len() as int] == (current_start as nat, i as nat));
                }
                if !ok {
                    let k = choose|k: int|
                        0 <= k < before.len() && !(on_boundary(s, (#[trigger] before[k]).0 as int) && on_boundary(
                            s,
                            before[k].1 as int,
                        ));
                    assert(after[k] == before[k]);
                }
            }
            ok = ok && here;
            current_start = i + 1;
        } else {
            assert(cut_state(s.take(i + 1)).0 == before);
        }
        i = i + 1;
    }
    assert(s.take(v@.len() as int) =~= s);
    let n = params_str.as_bytes().len();
    if current_start < n {
        ok && params_str.is_char_boundary(current_start)
    } else {
        ok
    }
}

/// Whether parentheses in `s` never nest deeper, nor close further, than 32 bits count.
pub fn depth_fits_exec(s: &str) -> (r: bool)
    ensures
        r == depth_fits(s@),
{
    let v = chars_of(s);
    let mut depth: i64 = 0;
    let mut i: usize = 0;
    while i < v.len()
        invariant
            i <= v@.len(),
            v@ == s@,
            depth == paren_depth(s@.take(i as int)),
            forall|k: int| 0 <= k <= i ==> i32::MIN <= #[trigger] paren_depth(s@.take(k)) <= i32::MAX,
        decreases v.len() - i,
    {
        assert(s@.take(i + 1).drop_last() =~= s@.take(i as int));
        let ch = v[i];
        if ch == '(' {
            depth = depth + 1;
        } else if ch == ')' {
            depth = depth - 1;
        }
        if depth > 2147483647 || depth < -2147483648 {
            assert(!(i32::MIN <= paren_depth(s@.take(i + 1)) <= i32::MAX));
            return false;
        }
        i = i + 1;
    }
    assert(s@.take(v@.len() as int) =~= s@);
    true
}

} // verus!

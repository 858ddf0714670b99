//! Backslash escape sequences in justfile strings.
use vstd::prelude::*;
use crate::text::{chars_of, push_char, push_str, is_hex_digit, char_is_hex_digit};

verus! {

/// Value of a hexadecimal digit.
pub open spec fn hex_val(c: char) -> nat {
    if '0' <= c && c <= '9' {
        (c as nat - '0' as nat) as nat
    } else if 'a' <= c && c <= 'f' {
        (c as nat - 'a' as nat + 10) as nat
    } else {
        (c as nat - 'A' as nat + 10) as nat
    }
}

/// Value of a run of hexadecimal digits.
pub open spec fn hex_number(s: Seq<char>) -> nat
    decreases s.len(),
{
    if s.len() == 0 {
        0
    } else {
        hex_number(s.drop_last()) * 16 + hex_val(s.last())
    }
}

/// `u8::from_str_radix(d1d2, 16)`: two hex digits, or `+` and one hex digit.
pub open spec fn byte_of_pair(d1: char, d2: char) -> Option<u8> {
    if is_hex_digit(d1) && is_hex_digit(d2) {
        Some((16 * hex_val(d1) + hex_val(d2)) as u8)
    } else if d1 == '+' && is_hex_digit(d2) {
        Some(hex_val(d2) as u8)
    } else {
        None
    }
}

/// A Unicode scalar value: at most `0x10FFFF` and not a surrogate.
pub open spec fn is_scalar(n: nat) -> bool {
    n <= 0x10FFFF && !(0xD800 <= n && n <= 0xDFFF)
}

/// Index just past the hexadecimal digits starting at `i`.
pub open spec fn hex_end(s: Seq<char>, i: nat) -> nat
    decreases s.len() - i,
{
    if i < s.len() && is_hex_digit(s[i as int]) {
        hex_end(s, i + 1)
    } else {
        i
    }
}

/// Output of `\u{h}`: the character when `h` names a scalar value, else the escape as written.
pub open spec fn unicode_out(h: Seq<char>) -> Seq<char> {
    if h.len() > 0 && hex_number(h) <= u32::MAX && is_scalar(hex_number(h)) {
        seq![hex_number(h) as char]
    } else {
        "\\u{"@ + h + "}"@
    }
}

/// `hex_end` lies between its start and the end.
pub proof fn lemma_hex_end(s: Seq<char>, i: nat)
    requires
        i <= s.len(),
    ensures
        i <= hex_end(s, i) <= s.len(),
        forall|k: int| i <= k < hex_end(s, i) ==> is_hex_digit(#[trigger] s[k]),
        hex_end(s, i) < s.len() ==> !is_hex_digit(s[hex_end(s, i) as int]),
    decreases s.len() - i,
{
    if i < s.len() && is_hex_digit(s[i as int]) {
        lemma_hex_end(s, i + 1);
    }
}

/// The text with escape sequences resolved: `\n \t \r \\ \" \' \0`, `\xHH`
/// (as the Latin-1 character of the byte), `\u{H...}` (as the named scalar
/// value); any other escape is kept as written.
pub open spec fn escapes(s: Seq<char>) -> Seq<char>
    decreases s.len(),
{
    if s.len() == 0 {
        seq![]
    } else if s[0] != '\\' {
        seq![s[0]] + escapes(s.drop_first())
    } else if s.len() == 1 {
        seq!['\\']
    } else {
        let c = s[1];
        let rest = s.subrange(2, s.len() as int);
        if c == 'n' {
            seq!['\n'] + escapes(rest)
        } else if c == 't' {
            seq!['\t'] + escapes(rest)
        } else if c == 'r' {
            seq!['\r'] + escapes(rest)
        } else if c == '\\' {
            seq!['\\'] + escapes(rest)
        } else if c == '"' {
            seq!['"'] + escapes(rest)
        } else if c == '\'' {
            seq!['\''] + escapes(rest)
        } else if c == '0' {
            seq!['\0'] + escapes(rest)
        } else if c == 'x' {
            if s.len() >= 4 {
                (match byte_of_pair(s[2], s[3]) {
                    Some(b) => seq![b as char],
                    None => seq!['\\', 'x', s[2], s[3]],
                }) + escapes(s.subrange(4, s.len() as int))
            } else {
                seq!['\\', 'x']
            }
        } else if c == 'u' {
            if s.len() >= 3 && s[2] == '{' {
                let e = hex_end(s, 3);
                let next = if e < s.len() && s[e as int] == '}' {
                    e + 1
                } else {
                    e
                };
                if 3 <= e <= next <= s.len() {
                    unicode_out(s.subrange(3, e as int)) + escapes(s.subrange(next as int, s.len() as int))
                } else {
                    seq![]
                }
            } else {
                seq!['\\', 'u'] + escapes(rest)
            }
        } else {
            seq!['\\', c] + escapes(rest)
        }
    }
}

/// Calls `char::from_u32`, which gives the character of a scalar value.
#[verifier::external_body]
pub(crate) fn char_from_u32(n: u32) -> (r: Option<char>)
    ensures
        r is Some <==> is_scalar(n as nat),
        r matches Some(c) ==> c == (n as char),
{
    char::from_u32(n)
}

/// Value of a hexadecimal digit.
fn hex_val_exec(c: char) -> (v: u32)
    requires
        is_hex_digit(c),
    ensures
        v == hex_val(c),
        v < 16,
{
    if '0' <= c && c <= '9' {
        (c as u32) - ('0' as u32)
    } else if 'a' <= c && c <= 'f' {
        (c as u32) - ('a' as u32) + 10
    } else {
        (c as u32) - ('A' as u32) + 10
    }
}

/// The escapes of `v[i..]` that start at a backslash followed by `u{`.
fn unicode_escape(v: &Vec<char>, i: usize, out: &mut String) -> (next: usize)
    requires
        i + 3 <= v.len(),
        v@[i as int] == '\\',
        v@[i + 1] == 'u',
        v@[i + 2] == '{',
    ensures
        ({
            let s = v@.subrange(i as int, v.len() as int);
            let e = hex_end(s, 3);
            let nx = if e < s.len() && s[e as int] == '}' { e + 1 } else { e };
            &&& next == i + nx
            &&& i + 3 <= next <= v.len()
            &&& final(out)@ == old(out)@ + unicode_out(s.subrange(3, e as int))
        }),
{
    let ghost s = v@.subrange(i as int, v.len() as int);
    let mut k: usize = i + 3;
    let mut value: u64 = 0;
    let mut too_big = false;
    proof {
        lemma_hex_end(s, 3);
    }
    while k < v.len() && char_is_hex_digit(v[k])
        invariant
            i + 3 <= k <= v.len(),
            s == v@.subrange(i as int, v.len() as int),
            hex_end(s, 3) == hex_end(s, (k - i) as nat),
            too_big <==> hex_number(s.subrange(3, (k - i) as int)) > u32::MAX,
            !too_big ==> value == hex_number(s.subrange(3, (k - i) as int)),
            value <= u32::MAX,
        decreases v.len() - k,
    {
        let d = hex_val_exec(v[k]);
        let ghost h = s.subrange(3, (k - i) as int);
        assert(s.subrange(3, (k - i + 1) as int).drop_last() =~= h);
        assert(s.subrange(3, (k - i + 1) as int).last() == v@[k as int]);
        if !too_big {
            let nv = value * 16 + (d as u64);
            if nv > 0xFFFF_FFFF {
                too_big = true;
                value = 0;
            } else {
                value = nv;
            }
        } else {
            assert(hex_number(s.subrange(3, (k - i + 1) as int)) >= hex_number(h));
        }
        k = k + 1;
    }
    let e = k;
    let ghost h = s.subrange(3, (e - i) as int);
    let next = if e < v.len() && v[e] == '}' {
        e + 1
    } else {
        e
    };
    if e > i + 3 && !too_big {
        match char_from_u32(value as u32) {
            Some(c) => {
                push_char(out, c);
                assert(final(out)@ =~= old(out)@ + unicode_out(h));
                return next;
            },
            None => {},
        }
    }
    push_str(out, "\\u{");
    let mut j: usize = i + 3;
    while j < e
        invariant
            i + 3 <= j <= e <= v.len(),
            s == v@.subrange(i as int, v.len() as int),
            out@ == old(out)@ + "\\u{"@ + s.subrange(3, (j - i) as int),
        decreases e - j,
    {
        push_char(out, v[j]);
        j = j + 1;
        assert(out@ =~= old(out)@ + "\\u{"@ + s.subrange(3, (j - i) as int));
    }
    push_str(out, "}");
    assert(final(out)@ =~= old(out)@ + unicode_out(h));
    next
}

/// Resolves escape sequences: `\n \t \r \\ \" \' \0`, `\xHH` and `\u{...}`;
/// other escapes are kept as written.
pub fn process_escapes(content: &str) -> (r: String)
    ensures
        r@ == escapes(content@),
{
    let v = chars_of(content);
    let n = v.len();
    let mut out = String::new();
    let mut i: usize = 0;
    assert(v@.subrange(0, n as int) =~= v@);
    while i < n
        invariant
            n == v@.len(),
            v@ == content@,
            i <= n,
            escapes(v@) == out@ + escapes(v@.subrange(i as int, n as int)),
        decreases n - i,
    {
        let ghost s = v@.subrange(i as int, n as int);
        let ch = v[i];
        assert(s[0] == ch);
        if ch != '\\' {
            push_char(&mut out, ch);
            assert(s.drop_first() =~= v@.subrange(i + 1, n as int));
            i = i + 1;
        } else if i + 1 == n {
            push_char(&mut out, '\\');
            i = n;
            assert(v@.subrange(i as int, n as int) =~= Seq::<char>::empty());
        } else {
            let c = v[i + 1];
            assert(s[1] == c);
            assert(s.subrange(2, s.len() as int) =~= v@.subrange(i + 2, n as int));
            if c == 'n' {
                push_char(&mut out, '\n');
                i = i + 2;
            } else if c == 't' {
                push_char(&mut out, '\t');
                i = i + 2;
            } else if c == 'r' {
                push_char(&mut out, '\r');
                i = i + 2;
            } else if c == '\\' {
                push_char(&mut out, '\\');
                i = i + 2;
            } else if c == '"' {
                push_char(&mut out, '"');
                i = i + 2;
            } else if c == '\'' {
                push_char(&mut out, '\'');
                i = i + 2;
            } else if c == '0' {
                push_char(&mut out, '\0');
                i = i + 2;
            } else if c == 'x' {
                if n - i >= 4 {
                    let d1 = v[i + 2];
                    let d2 = v[i + 3];
                    assert(s[2] == d1 && s[3] == d2);
                    assert(s.subrange(4, s.len() as int) =~= v@.subrange(i + 4, n as int));
                    if char_is_hex_digit(d1) && char_is_hex_digit(d2) {
                        let b = (16 * hex_val_exec(d1) + hex_val_exec(d2)) as u8;
                        push_char(&mut out, b as char);
                    } else if d1 == '+' && char_is_hex_digit(d2) {
                        let b = hex_val_exec(d2) as u8;
                        push_char(&mut out, b as char);
                    } else {
                        push_char(&mut out, '\\');
                        push_char(&mut out, 'x');
                        push_char(&mut out, d1);
                        push_char(&mut out, d2);
                    }
                    i = i + 4;
                } else {
                    push_char(&mut out, '\\');
                    push_char(&mut out, 'x');
                    i = n;
                    assert(v@.subrange(i as int, n as int) =~= Seq::<char>::empty());
                }
            } else if c == 'u' {
                if n - i >= 3 && v[i + 2] == '{' {
                    assert(s[2] == '{');
                    let next = unicode_escape(&v, i, &mut out);
                    proof {
                        lemma_hex_end(s, 3);
                    }
                    assert(s.subrange((next - i) as int, s.len() as int) =~= v@.subrange(next as int, n as int));
                    i = next;
                } else {
                    push_char(&mut out, '\\');
                    push_char(&mut out, 'u');
                    i = i + 2;
                }
            } else {
                push_char(&mut out, '\\');
                push_char(&mut out, c);
                i = i + 2;
            }
        }
    }
    assert(v@.subrange(n as int, n as int) =~= Seq::<char>::empty());
    out
}

/// Text without backslashes has no escape sequence and comes back unchanged.
pub proof fn lemma_no_backslash_unchanged(s: Seq<char>)
    requires
        forall|i: int| 0 <= i < s.len() ==> s[i] != '\\',
    ensures
        escapes(s) == s,
    decreases s.len(),
{
    if s.len() > 0 {
        lemma_no_backslash_unchanged(s.drop_first());
        assert(seq![s[0]] + s.drop_first() =~= s);
    }
}

} // verus!

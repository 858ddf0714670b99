//! Sorted, duplicate-free lists of strings: the result of `sort` followed by `dedup`.
use vstd::prelude::*;
use crate::text::chars_of;
use crate::parser::ast::queries::info::strs;

verus! {

/// Lexicographic order of character sequences, the order of `String`.
pub open spec fn lex_lt(a: Seq<char>, b: Seq<char>) -> bool
    decreases a.len(),
{
    if a.len() == 0 {
        b.len() > 0
    } else if b.len() == 0 {
        false
    } else if a[0] < b[0] {
        true
    } else if a[0] == b[0] {
        lex_lt(a.drop_first(), b.drop_first())
    } else {
        false
    }
}

/// Every element is smaller than every later one.
pub open spec fn strictly_sorted(s: Seq<Seq<char>>) -> bool {
    forall|i: int, j: int| 0 <= i < j < s.len() ==> lex_lt(#[trigger] s[i], #[trigger] s[j])
}

/// `out` lists the elements of `items` in increasing order, each once.
pub open spec fn sorted_set_of(out: Seq<Seq<char>>, items: Set<Seq<char>>) -> bool {
    strictly_sorted(out) && out.to_set() == items
}

/// No sequence is smaller than itself.
pub proof fn lemma_lex_irreflexive(a: Seq<char>)
    ensures
        !lex_lt(a, a),
    decreases a.len(),
{
    if a.len() > 0 {
        lemma_lex_irreflexive(a.drop_first());
    }
}

/// The order is transitive.
pub proof fn lemma_lex_transitive(a: Seq<char>, b: Seq<char>, c: Seq<char>)
    requires
        lex_lt(a, b),
        lex_lt(b, c),
    ensures
        lex_lt(a, c),
    decreases a.len(),
{
    if a.len() > 0 && b.len() > 0 && c.len() > 0 && a[0] == b[0] && b[0] == c[0] {
        lemma_lex_transitive(a.drop_first(), b.drop_first(), c.drop_first());
    }
}

/// Distinct sequences are ordered one way or the other, and never both ways.
pub proof fn lemma_lex_total(a: Seq<char>, b: Seq<char>)
    ensures
        a != b ==> (lex_lt(a, b) || lex_lt(b, a)),
        !(lex_lt(a, b) && lex_lt(b, a)),
    decreases a.len(),
{
    if a.len() > 0 && b.len() > 0 && a[0] == b[0] {
        lemma_lex_total(a.drop_first(), b.drop_first());
        if a != b {
            assert(a.drop_first() != b.drop_first()) by {
                if a.drop_first() == b.drop_first() {
                    assert(a =~= seq![a[0]] + a.drop_first());
                    assert(b =~= seq![b[0]] + b.drop_first());
                }
            }
        }
    } else if a.len() == 0 && b.len() == 0 {
        assert(a =~= b);
    }
}

/// The set of a sequence with one more element.
pub proof fn lemma_push_to_set<A>(s: Seq<A>, a: A)
    ensures
        s.push(a).to_set() == s.to_set().insert(a),
{
    assert forall|x: A| s.push(a).to_set().contains(x) <==> s.to_set().insert(a).contains(x) by {
        if s.push(a).contains(x) && x != a {
            let k = choose|k: int| 0 <= k < s.push(a).len() && s.push(a)[k] == x;
            assert(s[k] == x);
        }
        if s.contains(x) {
            let k = choose|k: int| 0 <= k < s.len() && s[k] == x;
            assert(s.push(a)[k] == x);
        }
        if x == a {
            assert(s.push(a)[s.len() as int] == a);
        }
    }
    assert(s.push(a).to_set() =~= s.to_set().insert(a));
}

/// Whether `a` sorts before `b`.
pub fn lex_less_str(a: &str, b: &str) -> (r: bool)
    ensures
        r == lex_lt(a@, b@),
{
    let ac = chars_of(a);
    let bc = chars_of(b);
    lex_less(&ac, &bc)
}

/// Whether `a` sorts before `b`.
pub fn lex_less(a: &Vec<char>, b: &Vec<char>) -> (r: bool)
    ensures
        r == lex_lt(a@, b@),
{
    let mut i: usize = 0;
    assert(a@.subrange(0, a.len() as int) =~= a@);
    assert(b@.subrange(0, b.len() as int) =~= b@);
    while i < a.len() && i < b.len() && a[i] == b[i]
        invariant
            i <= a.len(),
            i <= b.len(),
            lex_lt(a@, b@) == lex_lt(a@.subrange(i as int, a.len() as int), b@.subrange(i as int, b.len() as int)),
        decreases a.len() - i,
    {
        assert(a@.subrange(i as int, a.len() as int).drop_first() =~= a@.subrange(i + 1, a.len() as int));
        assert(b@.subrange(i as int, b.len() as int).drop_first() =~= b@.subrange(i + 1, b.len() as int));
        i = i + 1;
    }
    proof {
        assert(a@.subrange(0, a.len() as int) =~= a@);
        assert(b@.subrange(0, b.len() as int) =~= b@);
    }
    if i == a.len() {
        i < b.len()
    } else if i == b.len() {
        false
    } else {
        a[i] < b[i]
    }
}

/// Adds `w` to a sorted duplicate-free list, keeping it so.
pub fn insert_sorted(v: &mut Vec<String>, w: String)
    requires
        strictly_sorted(strs(old(v)@)),
    ensures
        strictly_sorted(strs(final(v)@)),
        strs(final(v)@).to_set() == strs(old(v)@).to_set().insert(w@),
{
    let wc = chars_of(w.as_str());
    let mut i: usize = 0;
    let ghost s = strs(v@);
    while i < v.len() && lex_less_str(v[i].as_str(), w.as_str())
        invariant
            i <= v.len(),
            s == strs(v@),
            wc@ == w@,
            strictly_sorted(s),
            forall|j: int| 0 <= j < i ==> lex_lt(#[trigger] s[j], w@),
        decreases v.len() - i,
    {
        assert(s[i as int] == v@[i as int]@);
        i = i + 1;
    }
    assert(i < v.len() ==> !lex_lt(s[i as int], w@));
    if i < v.len() {
        let vc = chars_of(v[i].as_str());
        if crate::text::chars_eq(&vc, &wc) {
            assert(s.to_set() =~= s.to_set().insert(w@)) by {
                assert(s[i as int] == w@);
            }
            return;
        }
        proof {
            lemma_lex_total(s[i as int], w@);
        }
    }
    assert(i < s.len() ==> lex_lt(w@, s[i as int]));
    v.insert(i, w);
    proof {
        let t = strs(v@);
        assert(t =~= s.subrange(0, i as int).push(w@) + s.subrange(i as int, s.len() as int));
        assert forall|a: int, b: int| 0 <= a < b < t.len() implies lex_lt(#[trigger] t[a], #[trigger] t[b]) by {
            if b < i {
                assert(t[a] == s[a] && t[b] == s[b]);
            } else if b == i {
                assert(t[a] == s[a]);
            } else if a == i {
                assert(t[b] == s[b - 1]);
                if b - 1 > i {
                    assert(lex_lt(s[i as int], s[b - 1]));
                    lemma_lex_transitive(w@, s[i as int], s[b - 1]);
                }
            } else if a < i {
                assert(t[a] == s[a] && t[b] == s[b - 1]);
            } else {
                assert(t[a] == s[a - 1] && t[b] == s[b - 1]);
            }
        }
        assert(t.to_set() =~= s.to_set().insert(w@)) by {
            assert forall|x: Seq<char>| t.to_set().contains(x) <==> s.to_set().insert(w@).contains(x) by {
                if t.to_set().contains(x) {
                    let k = choose|k: int| 0 <= k < t.len() && t[k] == x;
                    if k < i {
                        assert(s[k] == x);
                    } else if k > i {
                        assert(s[k - 1] == x);
                    }
                }
                if s.to_set().contains(x) {
                    let k = choose|k: int| 0 <= k < s.len() && s[k] == x;
                    if k < i {
                        assert(t[k] == x);
                    } else {
                        assert(t[k + 1] == x);
                    }
                }
                if x == w@ {
                    assert(t[i as int] == x);
                }
            }
        }
    }
}

/// The items in increasing order, each once.
pub fn sorted_unique(items: Vec<String>) -> (r: Vec<String>)
    ensures
        sorted_set_of(strs(r@), strs(items@).to_set()),
{
    let mut r: Vec<String> = Vec::new();
    let mut i: usize = 0;
    let ghost all = strs(items@);
    assert(strs(r@).to_set() =~= all.subrange(0, 0).to_set());
    let mut items = items;
    let n = items.len();
    // walk the items from the front, cloning each
    while i < n
        invariant
            n == items@.len(),
            all == strs(items@),
            i <= n,
            strictly_sorted(strs(r@)),
            strs(r@).to_set() == all.subrange(0, i as int).to_set(),
        decreases n - i,
    {
        let w = items[i].clone();
        insert_sorted(&mut r, w);
        proof {
            assert(all.subrange(0, i + 1) =~= all.subrange(0, i as int).push(all[i as int]));
            lemma_push_to_set(all.subrange(0, i as int), all[i as int]);
        }
        i = i + 1;
    }
    assert(all.subrange(0, n as int) =~= all);
    r
}

} // verus!

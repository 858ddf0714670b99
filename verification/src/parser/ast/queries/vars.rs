//! Variable names found among the words of an expression.
use vstd::prelude::*;
use crate::text::{words, split_whitespace, chars_of, str_eq};
use crate::sorted::{sorted_set_of, strictly_sorted, insert_sorted, lemma_push_to_set};
use crate::parser::ast::queries::info::strs;
use crate::parser::ast::queries::evaluator::{all_word_chars, all_word_chars_exec};

verus! {

/// Words that are keywords, not variables; `extended` adds `and`, `or` and `not`.
pub open spec fn is_keyword(w: Seq<char>, extended: bool) -> bool {
    w == "if"@ || w == "then"@ || w == "else"@ || w == "true"@ || w == "false"@ || w == "null"@ || (
    extended && (w == "and"@ || w == "or"@ || w == "not"@))
}

/// A word made of letters, digits and underscores that is not a keyword.
pub open spec fn is_variable_word(w: Seq<char>, extended: bool) -> bool {
    all_word_chars(w) && !is_keyword(w, extended)
}

/// The variable words of a word list, in order.
pub open spec fn variable_words(ws: Seq<Seq<char>>, extended: bool) -> Seq<Seq<char>>
    decreases ws.len(),
{
    if ws.len() == 0 {
        seq![]
    } else if is_variable_word(ws.last(), extended) {
        variable_words(ws.drop_last(), extended).push(ws.last())
    } else {
        variable_words(ws.drop_last(), extended)
    }
}

/// The variables of the whitespace-separated words of `e`.
pub open spec fn word_variables(e: Seq<char>, extended: bool) -> Set<Seq<char>> {
    variable_words(words(e), extended).to_set()
}

/// Whether a word is a keyword.
pub fn is_keyword_exec(w: &str, extended: bool) -> (b: bool)
    ensures
        b == is_keyword(w@, extended),
{
    str_eq(w, "if") || str_eq(w, "then") || str_eq(w, "else") || str_eq(w, "true") || str_eq(w, "false")
        || str_eq(w, "null") || (extended && (str_eq(w, "and") || str_eq(w, "or") || str_eq(w, "not")))
}

/// The variables among the words of `e`, sorted, each once.
pub fn word_vars(e: &str, extended: bool) -> (r: Vec<String>)
    ensures
        sorted_set_of(strs(r@), word_variables(e@, extended)),
{
    let ws = split_whitespace(e);
    let ghost all = ws@.map_values(|x: String| x@);
    let mut out: Vec<String> = Vec::new();
    let mut i: usize = 0;
    assert(strs(out@).to_set() =~= variable_words(all.take(0), extended).to_set());
    while i < ws.len()
        invariant
            i <= ws@.len(),
            all == ws@.map_values(|x: String| x@),
            all == words(e@),
            strictly_sorted(strs(out@)),
            strs(out@).to_set() == variable_words(all.take(i as int), extended).to_set(),
        decreases ws.len() - i,
    {
        let w = ws[i].as_str();
        let wc = chars_of(w);
        assert(all.take(i + 1).drop_last() =~= all.take(i as int));
        assert(all.take(i + 1).last() == w@);
        if all_word_chars_exec(&wc) && !is_keyword_exec(w, extended) {
            insert_sorted(&mut out, ws[i].clone());
            proof {
                lemma_push_to_set(variable_words(all.take(i as int), extended), w@);
            }
        }
        i = i + 1;
    }
    assert(all.take(ws.len() as int) =~= all);
    out
}

/// Sorted union of two sorted, duplicate-free lists.
pub fn sorted_union(a: &Vec<String>, b: &Vec<String>) -> (r: Vec<String>)
    ensures
        sorted_set_of(strs(r@), strs(a@).to_set().union(strs(b@).to_set())),
{
    let mut out: Vec<String> = Vec::new();
    let mut i: usize = 0;
    assert(strs(out@).to_set() =~= strs(a@).take(0).to_set());
    while i < a.len()
        invariant
            i <= a@.len(),
            strictly_sorted(strs(out@)),
            strs(out@).to_set() == strs(a@).take(i as int).to_set(),
        decreases a.len() - i,
    {
        insert_sorted(&mut out, a[i].clone());
        proof {
            assert(strs(a@).take(i + 1) =~= strs(a@).take(i as int).push(a@[i as int]@));
            lemma_push_to_set(strs(a@).take(i as int), a@[i as int]@);
        }
        i = i + 1;
    }
    assert(strs(a@).take(a.len() as int) =~= strs(a@));
    let mut j: usize = 0;
    assert(strs(b@).take(0).to_set() =~= Set::<Seq<char>>::empty());
    assert(strs(a@).to_set().union(strs(b@).take(0).to_set()) =~= strs(a@).to_set());
    while j < b.len()
        invariant
            j <= b@.len(),
            strictly_sorted(strs(out@)),
            strs(out@).to_set() == strs(a@).to_set().union(strs(b@).take(j as int).to_set()),
        decreases b.len() - j,
    {
        insert_sorted(&mut out, b[j].clone());
        proof {
            assert(strs(b@).take(j + 1) =~= strs(b@).take(j as int).push(b@[j as int]@));
            lemma_push_to_set(strs(b@).take(j as int), b@[j as int]@);
            assert(strs(a@).to_set().union(strs(b@).take(j + 1).to_set()) =~= strs(a@).to_set().union(
                strs(b@).take(j as int).to_set(),
            ).insert(b@[j as int]@));
        }
        j = j + 1;
    }
    assert(strs(b@).take(b.len() as int) =~= strs(b@));
    out
}

} // verus!

//! Justfiles of a chosen size for timing the parser, and average times.
use vstd::prelude::*;
use crate::text::{decimal, owned, push_str, usize_to_string};

verus! {

/// The text of recipe `i`: the recipes cycle through five shapes.
pub open spec fn perf_recipe(i: nat) -> Seq<char> {
    let n = decimal(i);
    if i % 5 == 0 {
        "# Simple task "@ + n + "\ntask-"@ + n + ":\n    echo \"Task "@ + n + "\"\n\n"@
    } else if i % 5 == 1 {
        "# Parameterized task "@ + n + "\ntask-"@ + n + " param=\"default"@ + n + "\":\n    echo \"Task "@ + n
            + " with {{param}}\"\n\n"@
    } else if i % 5 == 2 {
        let dep = if i > 0 {
            "task-"@ + decimal((i - 1) as nat)
        } else {
            seq![]
        };
        "# Task "@ + n + " with dependency\ntask-"@ + n + ": "@ + dep + "\n    echo \"Task "@ + n
            + " after dependency\"\n\n"@
    } else if i % 5 == 3 {
        "# Complex task "@ + n + "\ntask-"@ + n
            + " arg1=\"a\" arg2=\"b\" arg3=\"c\":\n    echo \"Complex {{arg1}} {{arg2}} {{arg3}}\"\n\n"@
    } else {
        "[private]\n[group('test')]\n# Private task "@ + n + "\n_task-"@ + n + ":\n    echo \"Private task "@ + n
            + "\"\n\n"@
    }
}

/// The first `n` recipes.
pub open spec fn perf_recipes(n: nat) -> Seq<char>
    decreases n,
{
    if n == 0 {
        seq![]
    } else {
        perf_recipes((n - 1) as nat) + perf_recipe((n - 1) as nat)
    }
}

/// The header of a generated justfile.
pub open spec fn perf_header() -> Seq<char> {
    "# Generated justfile for performance testing\n\n"@ + "default_target := \"debug\"\n"@
        + "features := \"default\"\n\n"@
}

/// Text of recipe `i`.
fn push_recipe(content: &mut String, i: usize)
    ensures
        final(content)@ == old(content)@ + perf_recipe(i as nat),
{
    let n = usize_to_string(i);
    let s = n.as_str();
    if i % 5 == 0 {
        push_str(content, "# Simple task ");
        push_str(content, s);
        push_str(content, "\ntask-");
        push_str(content, s);
        push_str(content, ":\n    echo \"Task ");
        push_str(content, s);
        push_str(content, "\"\n\n");
    } else if i % 5 == 1 {
        push_str(content, "# Parameterized task ");
        push_str(content, s);
        push_str(content, "\ntask-");
        push_str(content, s);
        push_str(content, " param=\"default");
        push_str(content, s);
        push_str(content, "\":\n    echo \"Task ");
        push_str(content, s);
        push_str(content, " with {{param}}\"\n\n");
    } else if i % 5 == 2 {
        let dep = if i > 0 {
            let mut d = owned("task-");
            push_str(&mut d, usize_to_string(i - 1).as_str());
            d
        } else {
            proof {
                reveal_strlit("");
                assert(""@ =~= Seq::<char>::empty());
            }
            owned("")
        };
        push_str(content, "# Task ");
        push_str(content, s);
        push_str(content, " with dependency\ntask-");
        push_str(content, s);
        push_str(content, ": ");
        push_str(content, dep.as_str());
        push_str(content, "\n    echo \"Task ");
        push_str(content, s);
        push_str(content, " after dependency\"\n\n");
    } else if i % 5 == 3 {
        push_str(content, "# Complex task ");
        push_str(content, s);
        push_str(content, "\ntask-");
        push_str(content, s);
        push_str(content, " arg1=\"a\" arg2=\"b\" arg3=\"c\":\n    echo \"Complex {{arg1}} {{arg2}} {{arg3}}\"\n\n");
    } else {
        push_str(content, "[private]\n[group('test')]\n# Private task ");
        push_str(content, s);
        push_str(content, "\n_task-");
        push_str(content, s);
        push_str(content, ":\n    echo \"Private task ");
        push_str(content, s);
        push_str(content, "\"\n\n");
    }
}

/// A justfile with two variables and `recipe_count` recipes of five shapes
/// in turn: simple, with a parameter, with a dependency on the previous
/// one, with three parameters, private and grouped.
pub fn generate_justfile(recipe_count: usize) -> (content: String)
    ensures
        content@ == perf_header() + perf_recipes(recipe_count as nat),
{
    let mut content = owned("# Generated justfile for performance testing\n\n");
    push_str(&mut content, "default_target := \"debug\"\n");
    push_str(&mut content, "features := \"default\"\n\n");
    let mut i: usize = 0;
    while i < recipe_count
        invariant
            i <= recipe_count,
            content@ == perf_header() + perf_recipes(i as nat),
        decreases recipe_count - i,
    {
        push_recipe(&mut content, i);
        i = i + 1;
    }
    content
}

/// Sum of the first `n` durations.
pub open spec fn total_nanos(nanos: Seq<u128>, n: nat) -> nat
    decreases n,
{
    if n == 0 || n > nanos.len() {
        0
    } else {
        total_nanos(nanos, (n - 1) as nat) + nanos[n - 1] as nat
    }
}

/// Average of durations in nanoseconds, kept to 64 bits as a duration built
/// from nanoseconds keeps it.
pub fn average_nanos(nanos: &[u128]) -> (avg: u64)
    requires
        nanos@.len() > 0,
        total_nanos(nanos@, nanos@.len() as nat) <= u128::MAX,
    ensures
        avg == (total_nanos(nanos@, nanos@.len() as nat) / nanos@.len() as nat) as u64,
{
    let mut total: u128 = 0;
    let mut i: usize = 0;
    while i < nanos.len()
        invariant
            i <= nanos@.len(),
            total == total_nanos(nanos@, i as nat),
            total_nanos(nanos@, nanos@.len() as nat) <= u128::MAX,
        decreases nanos.len() - i,
    {
        proof {
            lemma_total_grows(nanos@, (i + 1) as nat, nanos@.len() as nat);
        }
        total = total + nanos[i];
        i = i + 1;
    }
    let avg = total / (nanos.len() as u128);
    avg as u64
}

/// Sums of longer prefixes are no smaller.
proof fn lemma_total_grows(nanos: Seq<u128>, a: nat, b: nat)
    requires
        a <= b <= nanos.len(),
    ensures
        total_nanos(nanos, a) <= total_nanos(nanos, b),
    decreases b,
{
    if a < b {
        lemma_total_grows(nanos, a, (b - 1) as nat);
    }
}

} // verus!

//! Justfiles of a chosen size for measuring the parser's memory use.
use vstd::prelude::*;
use crate::text::{decimal, push_str, usize_to_string};

verus! {

/// The text of recipe `i`: the recipes cycle through four shapes.
pub open spec fn memory_recipe(i: nat) -> Seq<char> {
    let n = decimal(i);
    if i % 4 == 0 {
        "# Simple task "@ + n + "\ntask-"@ + n + ":\n    echo \"Running task "@ + n + "\"\n\n"@
    } else if i % 4 == 1 {
        "# Parameterized task "@ + n + "\ntask-"@ + n + " param=\"value"@ + n
            + "\":\n    echo \"{{param}}\"\n    echo \"Task "@ + n + " complete\"\n\n"@
    } else if i % 4 == 2 {
        "# Complex task "@ + n + "\ntask-"@ + n
            + " arg1=\"a\" arg2=\"b\" arg3=\"c\":\n    echo \"{{arg1}} {{arg2}} {{arg3}}\"\n    command --flag={{arg1}}\n\n"@
    } else {
        "[private]\n# Private task "@ + n + "\n_task-"@ + n + ":\n    echo \"Private operation\"\n    rm -rf /tmp/task-"@
            + n + "\n\n"@
    }
}

/// The first `n` recipes.
pub open spec fn memory_recipes(n: nat) -> Seq<char>
    decreases n,
{
    if n == 0 {
        seq![]
    } else {
        memory_recipes((n - 1) as nat) + memory_recipe((n - 1) as nat)
    }
}

/// Text of recipe `i`.
fn push_recipe(content: &mut String, i: usize)
    ensures
        final(content)@ == old(content)@ + memory_recipe(i as nat),
{
    let n = usize_to_string(i);
    let s = n.as_str();
    if i % 4 == 0 {
        push_str(content, "# Simple task ");
        push_str(content, s);
        push_str(content, "\ntask-");
        push_str(content, s);
        push_str(content, ":\n    echo \"Running task ");
        push_str(content, s);
        push_str(content, "\"\n\n");
    } else if i % 4 == 1 {
        push_str(content, "# Parameterized task ");
        push_str(content, s);
        push_str(content, "\ntask-");
        push_str(content, s);
        push_str(content, " param=\"value");
        push_str(content, s);
        push_str(content, "\":\n    echo \"{{param}}\"\n    echo \"Task ");
        push_str(content, s);
        push_str(content, " complete\"\n\n");
    } else if i % 4 == 2 {
        push_str(content, "# Complex task ");
        push_str(content, s);
        push_str(content, "\ntask-");
        push_str(content, s);
        push_str(
            content,
            " arg1=\"a\" arg2=\"b\" arg3=\"c\":\n    echo \"{{arg1}} {{arg2}} {{arg3}}\"\n    command --flag={{arg1}}\n\n",
        );
    } else {
        push_str(content, "[private]\n# Private task ");
        push_str(content, s);
        push_str(content, "\n_task-");
        push_str(content, s);
        push_str(content, ":\n    echo \"Private operation\"\n    rm -rf /tmp/task-");
        push_str(content, s);
        push_str(content, "\n\n");
    }
}

/// A justfile of `recipe_count` recipes of four shapes in turn: simple,
/// with a parameter, with three parameters, private.
pub fn generate_justfile(recipe_count: usize) -> (content: String)
    ensures
        content@ == memory_recipes(recipe_count as nat),
{
    let mut content = String::new();
    let mut i: usize = 0;
    while i < recipe_count
        invariant
            i <= recipe_count,
            content@ == memory_recipes(i as nat),
        decreases recipe_count - i,
    {
        push_recipe(&mut content, i);
        i = i + 1;
    }
    content
}

} // verus!

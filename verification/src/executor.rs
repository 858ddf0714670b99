//! What the task executor decides before it runs `just`: which recipe of
//! which justfile a tool names, and the arguments the command gets.
use vstd::prelude::*;
use crate::text::{chars_of, substring, concat, starts_with, owned, str_eq};
use crate::strmap::{StrMap, lookup};
use crate::types::{JustTask, Parameter};
use crate::parser::ast::queries::info::strs;
use crate::error::Error;

verus! {

/// Index of the first `_` directly followed by `/` from index `i` on.
pub open spec fn separator_from(s: Seq<char>, i: nat) -> Option<nat>
    decreases s.len() - i,
{
    if i + 1 >= s.len() {
        None
    } else if s[i as int] == '_' && s[(i + 1) as int] == '/' {
        Some(i)
    } else {
        separator_from(s, i + 1)
    }
}

/// The recipe and the justfile path named by a tool name
/// `just_<recipe>_<path>`, the path starting with `/`.
pub open spec fn spec_tool_name(t: Seq<char>) -> Result<(Seq<char>, Seq<char>), Seq<char>> {
    if !starts_with(t, "just_"@) {
        Err("Invalid tool name: "@ + t)
    } else {
        let rest = t.subrange(5, t.len() as int);
        match separator_from(rest, 0) {
            Some(p) => Ok((rest.subrange(0, p as int), rest.subrange((p + 1) as int, rest.len() as int))),
            None => Err("Invalid tool name format: "@ + t),
        }
    }
}

/// The recipe name and the justfile path of a tool name of the form
/// `just_<recipe>_<path>`: the recipe ends at the first `_` that is
/// directly followed by `/`.
pub fn parse_tool_name(tool_name: &str) -> (r: Result<(String, String), Error>)
    ensures
        match spec_tool_name(tool_name@) {
            Ok((task, path)) => r matches Ok((a, b)) && a@ == task && b@ == path,
            Err(m) => r matches Err(Error::InvalidParameter(e)) && e@ == m,
        },
{
    if !crate::text::str_starts_with(tool_name, "just_") {
        return Err(Error::InvalidParameter(concat("Invalid tool name: ", tool_name)));
    }
    let v = chars_of(tool_name);
    proof {
        reveal_strlit("just_");
    }
    let rest = crate::text::sub_chars(&v, 5, v.len());
    let mut i: usize = 0;
    let mut found: Option<usize> = None;
    while i < rest.len() && found.is_none()
        invariant
            i <= rest@.len(),
            separator_from(rest@, 0) == match found {
                Some(p) => Some(p as nat),
                None => separator_from(rest@, i as nat),
            },
            found matches Some(p) ==> p + 1 < rest@.len(),
        decreases rest.len() - i, if found is None { 1int } else { 0int },
    {
        if i + 1 < rest.len() && rest[i] == '_' && rest[i + 1] == '/' {
            found = Some(i);
        } else {
            i = i + 1;
        }
    }
    match found {
        Some(p) => {
            let task_name = substring(&rest, 0, p);
            let n = rest.len();
            let justfile_path = substring(&rest, p + 1, n);
            Ok((task_name, justfile_path))
        },
        None => Err(Error::InvalidParameter(concat("Invalid tool name format: ", tool_name))),
    }
}

/// In `task + "_" + path`, no `_` before the task's end is followed by `/`.
proof fn lemma_separator_at_task_end(task: Seq<char>, path: Seq<char>, i: nat)
    requires
        i <= task.len(),
        path.len() > 0,
        path[0] == '/',
        forall|j: int| 0 <= j < task.len() && #[trigger] task[j] == '_' ==> j + 1 < task.len() && task[j + 1] != '/',
    ensures
        separator_from(task + "_"@ + path, i) == Some(task.len()),
    decreases task.len() - i,
{
    reveal_strlit("_");
    let rest = task + "_"@ + path;
    assert(rest[task.len() as int] == '_');
    assert(rest[(task.len() + 1) as int] == '/');
    if i < task.len() {
        assert(rest[i as int] == task[i as int]);
        if task[i as int] == '_' {
            assert(rest[(i + 1) as int] == task[(i + 1) as int]);
        }
        lemma_separator_at_task_end(task, path, i + 1);
    }
}

/// A tool name built as `just_<recipe>_<path>` from an absolute path reads
/// back as that recipe and that path, when no `_` of the recipe is followed
/// by `/` and the recipe does not end with `_`.
pub proof fn lemma_tool_name_round_trip(task: Seq<char>, path: Seq<char>)
    requires
        path.len() > 0,
        path[0] == '/',
        forall|j: int| 0 <= j < task.len() && #[trigger] task[j] == '_' ==> j + 1 < task.len() && task[j + 1] != '/',
    ensures
        spec_tool_name("just_"@ + task + "_"@ + path) == Ok::<(Seq<char>, Seq<char>), Seq<char>>((task, path)),
{
    reveal_strlit("just_");
    reveal_strlit("_");
    let t = "just_"@ + task + "_"@ + path;
    assert(t.subrange(0, 5) =~= "just_"@);
    let rest = t.subrange(5, t.len() as int);
    assert(rest =~= task + "_"@ + path);
    lemma_separator_at_task_end(task, path, 0);
    assert(rest.subrange(0, task.len() as int) =~= task);
    assert(rest.subrange((task.len() + 1) as int, rest.len() as int) =~= path);
}

/// The values handed to a recipe: for each parameter in order, the value
/// supplied for it, else its default; a parameter with neither is left out.
pub open spec fn parameter_arguments(ps: Seq<Parameter>, provided: Seq<(Seq<char>, String)>) -> Seq<Seq<char>>
    decreases ps.len(),
{
    if ps.len() == 0 {
        seq![]
    } else {
        let p = ps.last();
        parameter_arguments(ps.drop_last(), provided) + match lookup(provided, p.name@) {
            Some(v) => seq![v@],
            None => match p.default {
                Some(d) => seq![d@],
                None => seq![],
            },
        }
    }
}

/// Index of the first task named `name` from index `i` on.
pub open spec fn first_task_named(tasks: Seq<JustTask>, name: Seq<char>, i: nat) -> Option<nat>
    decreases tasks.len() - i,
{
    if i >= tasks.len() {
        None
    } else if tasks[i as int].name@ == name {
        Some(i)
    } else {
        first_task_named(tasks, name, i + 1)
    }
}

/// The arguments handed to `just` to run `task_name`: the justfile of the
/// working directory when there is one, the recipe, then the values of the
/// first task of that name.
pub open spec fn spec_just_arguments(
    task_name: Seq<char>,
    in_working_directory: bool,
    tasks: Seq<JustTask>,
    provided: Seq<(Seq<char>, String)>,
) -> Seq<Seq<char>> {
    (if in_working_directory {
        seq!["--justfile"@, "justfile"@]
    } else {
        seq![]
    }) + seq![task_name] + match first_task_named(tasks, task_name, 0) {
        Some(i) => parameter_arguments(tasks[i as int].parameters@, provided),
        None => seq![],
    }
}

/// When every parameter has a supplied value or a default, the recipe gets
/// one value per parameter, in parameter order: the supplied value where
/// there is one, the default otherwise.
pub proof fn lemma_one_value_per_parameter(ps: Seq<Parameter>, provided: Seq<(Seq<char>, String)>)
    requires
        forall|i: int| 0 <= i < ps.len() ==> lookup(provided, (#[trigger] ps[i]).name@) is Some || ps[i].default is Some,
    ensures
        parameter_arguments(ps, provided).len() == ps.len(),
        forall|i: int|
            0 <= i < ps.len() ==> #[trigger] parameter_arguments(ps, provided)[i] == match lookup(provided, ps[i].name@) {
                Some(v) => v@,
                None => ps[i].default->0@,
            },
    decreases ps.len(),
{
    if ps.len() > 0 {
        let init = ps.drop_last();
        assert forall|i: int| 0 <= i < init.len() implies lookup(provided, (#[trigger] init[i]).name@) is Some
            || init[i].default is Some by {
            assert(init[i] == ps[i]);
        }
        lemma_one_value_per_parameter(init, provided);
        let r = parameter_arguments(ps, provided);
        let ri = parameter_arguments(init, provided);
        assert forall|i: int| 0 <= i < ps.len() implies #[trigger] r[i] == match lookup(provided, ps[i].name@) {
            Some(v) => v@,
            None => ps[i].default->0@,
        } by {
            if i < init.len() {
                assert(r[i] == ri[i]);
                assert(init[i] == ps[i]);
            }
        }
    }
}

/// `first_task_named` finds the first task at or after `k` whose name is
/// exactly `name`.
proof fn lemma_first_task_named(tasks: Seq<JustTask>, name: Seq<char>, k: nat)
    ensures
        first_task_named(tasks, name, k) matches Some(i) ==> k <= i < tasks.len() && tasks[i as int].name@ == name
            && forall|j: int| k <= j < i ==> #[trigger] tasks[j].name@ != name,
        first_task_named(tasks, name, k) is None ==> forall|j: int| k <= j < tasks.len() ==> #[trigger] tasks[j].name@
            != name,
    decreases tasks.len() - k,
{
    if k < tasks.len() && tasks[k as int].name@ != name {
        lemma_first_task_named(tasks, name, k + 1);
    }
}

/// The arguments name the requested recipe, and the values after it are
/// those of the first task whose name is exactly the requested one; when no
/// task has that name, the recipe name is the last argument.
pub proof fn lemma_arguments_of_the_task_named(
    task_name: Seq<char>,
    in_working_directory: bool,
    tasks: Seq<JustTask>,
    provided: Seq<(Seq<char>, String)>,
)
    ensures
        ({
            let a = spec_just_arguments(task_name, in_working_directory, tasks, provided);
            let h: int = if in_working_directory { 2 } else { 0 };
            &&& a.len() > h
            &&& a[h] == task_name
            &&& (forall|j: int| 0 <= j < tasks.len() ==> #[trigger] tasks[j].name@ != task_name) ==> a.len() == h + 1
            &&& forall|i: int|
                0 <= i < tasks.len() && #[trigger] tasks[i].name@ == task_name && (forall|j: int|
                    0 <= j < i ==> #[trigger] tasks[j].name@ != task_name) ==> a.subrange(h + 1, a.len() as int)
                    == parameter_arguments(tasks[i].parameters@, provided)
        }),
{
    lemma_first_task_named(tasks, task_name, 0);
    let a = spec_just_arguments(task_name, in_working_directory, tasks, provided);
    let h: int = if in_working_directory { 2 } else { 0 };
    let head: Seq<Seq<char>> = if in_working_directory { seq!["--justfile"@, "justfile"@] } else { seq![] };
    let tail = match first_task_named(tasks, task_name, 0) {
        Some(i) => parameter_arguments(tasks[i as int].parameters@, provided),
        None => seq![],
    };
    assert(a == head + seq![task_name] + tail);
    assert(a.subrange(h + 1, a.len() as int) =~= tail);
    assert forall|i: int|
        0 <= i < tasks.len() && #[trigger] tasks[i].name@ == task_name && (forall|j: int|
            0 <= j < i ==> #[trigger] tasks[j].name@ != task_name) implies a.subrange(h + 1, a.len() as int)
            == parameter_arguments(tasks[i].parameters@, provided) by {
        match first_task_named(tasks, task_name, 0) {
            Some(f) => {
                if (f as int) < i {
                    assert(tasks[f as int].name@ != task_name);
                } else if (f as int) > i {
                    assert(tasks[i].name@ != task_name);
                }
            },
            None => {
                assert(tasks[i].name@ != task_name);
            },
        }
    }
}

/// The values handed to a recipe with parameters `ps`.
pub fn parameter_values(ps: &Vec<Parameter>, provided: &StrMap<String>) -> (r: Vec<String>)
    ensures
        strs(r@) == parameter_arguments(ps@, provided@),
{
    let mut out: Vec<String> = Vec::new();
    let mut i: usize = 0;
    assert(strs(out@) =~= parameter_arguments(ps@.take(0), provided@));
    while i < ps.len()
        invariant
            i <= ps@.len(),
            strs(out@) == parameter_arguments(ps@.take(i as int), provided@),
        decreases ps.len() - i,
    {
        assert(ps@.take(i + 1).drop_last() =~= ps@.take(i as int));
        assert(ps@.take(i + 1).last() == ps@[i as int]);
        let ghost prev = strs(out@);
        match provided.get(ps[i].name.as_str()) {
            Some(v) => {
                out.push(v.clone());
                assert(strs(out@) =~= prev + seq![v@]);
            },
            None => match &ps[i].default {
                Some(d) => {
                    out.push(d.clone());
                    assert(strs(out@) =~= prev + seq![d@]);
                },
                None => {
                    assert(prev + Seq::<Seq<char>>::empty() =~= prev);
                },
            },
        }
        i = i + 1;
    }
    assert(ps@.take(ps@.len() as int) =~= ps@);
    out
}

/// The arguments handed to `just` to run `task_name`, the working
/// directory's justfile named when there is one.
pub fn just_arguments(
    task_name: &str,
    in_working_directory: bool,
    tasks: &Vec<JustTask>,
    provided: &StrMap<String>,
) -> (r: Vec<String>)
    ensures
        strs(r@) == spec_just_arguments(task_name@, in_working_directory, tasks@, provided@),
{
    let mut args: Vec<String> = Vec::new();
    if in_working_directory {
        args.push(owned("--justfile"));
        args.push(owned("justfile"));
    }
    args.push(owned(task_name));
    let ghost head = strs(args@);
    let mut i: usize = 0;
    let mut found: Option<usize> = None;
    while i < tasks.len() && found.is_none()
        invariant
            i <= tasks@.len(),
            first_task_named(tasks@, task_name@, 0) == match found {
                Some(k) => Some(k as nat),
                None => first_task_named(tasks@, task_name@, i as nat),
            },
            found matches Some(k) ==> k < tasks@.len(),
        decreases tasks.len() - i, if found is None { 1int } else { 0int },
    {
        if str_eq(tasks[i].name.as_str(), task_name) {
            found = Some(i);
        } else {
            i = i + 1;
        }
    }
    let values = match found {
        Some(k) => parameter_values(&tasks[k].parameters, provided),
        None => Vec::new(),
    };
    let mut j: usize = 0;
    while j < values.len()
        invariant
            j <= values@.len(),
            strs(args@) == head + strs(values@).take(j as int),
        decreases values.len() - j,
    {
        let ghost prev = strs(args@);
        args.push(values[j].clone());
        assert(strs(args@) =~= prev.push(values@[j as int]@));
        assert(strs(values@).take(j + 1) =~= strs(values@).take(j as int).push(values@[j as int]@));
        j = j + 1;
    }
    assert(strs(values@).take(values@.len() as int) =~= strs(values@));
    assert(strs(args@) =~= spec_just_arguments(task_name@, in_working_directory, tasks@, provided@));
    args
}

} // verus!

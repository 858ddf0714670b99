//! What the administration tools compute: the text of a new recipe, name
//! checks, the tools a sync removes and the parser diagnostic report.
use vstd::prelude::*;
use crate::text::{
    owned, push_str, push_char, concat, decimal, ends_with, starts_with, str_starts_with, str_ends_with,
    str_eq, usize_to_string, join, join_strings, strings_contain, text_lines, lines_of, split_char, split_from,
    find_char_from,
};
use crate::parser::ast::queries::info::strs;
use crate::parser::ast::queries::processor::lemma_filter_take;

verus! {

/// What one parser found in a justfile.
#[derive(Debug)]
pub struct ParserDiagnosticResult {
    pub found_recipes: Vec<String>,
    pub missing_recipes: Vec<String>,
    pub parsing_errors: Vec<String>,
    pub parser_name: String,
}

/// Outcome of re-reading the watched justfiles.
#[derive(Debug)]
pub struct SyncResult {
    pub scanned_files: usize,
    pub found_recipes: usize,
    pub errors: Vec<String>,
    pub duration_ms: u64,
}

/// A recipe to add to a justfile.
#[derive(Debug)]
pub struct CreateRecipeParams {
    /// Name of the watched directory; the first one when absent.
    pub watch_name: Option<String>,
    pub recipe_name: String,
    pub description: Option<String>,
    /// The body, one command per line.
    pub recipe: String,
    pub parameters: Option<Vec<RecipeParameter>>,
    pub dependencies: Option<Vec<String>>,
}

/// A parameter of a recipe to add.
#[derive(Debug)]
pub struct RecipeParameter {
    pub name: String,
    pub default: Option<String>,
}

/// Where a recipe was added.
#[derive(Debug)]
pub struct CreateRecipeResult {
    pub recipe_name: String,
    pub justfile_path: String,
    pub backup_path: String,
}

/// A directory to watch.
#[derive(Debug)]
pub struct SetWatchDirectoryParams {
    pub path: String,
}

/// The directory now watched.
#[derive(Debug)]
pub struct SetWatchDirectoryResult {
    pub absolute_path: String,
    pub justfile_detected: bool,
    pub justfile_path: Option<String>,
}

// ---------------------------------------------------------------------------
// The text of a new recipe
// ---------------------------------------------------------------------------

/// Blank lines put before a recipe appended to `existing`.
pub open spec fn separator(existing: Seq<char>) -> Seq<char> {
    if existing.len() == 0 {
        seq![]
    } else if !ends_with(existing, "\n"@) {
        "\n\n"@
    } else {
        "\n"@
    }
}

/// ` name` or ` name="default"` for each parameter.
pub open spec fn parameter_text(ps: Seq<RecipeParameter>) -> Seq<char>
    decreases ps.len(),
{
    if ps.len() == 0 {
        seq![]
    } else {
        let p = ps.last();
        parameter_text(ps.drop_last()) + " "@ + p.name@ + match p.default {
            Some(d) => "=\""@ + d@ + "\""@,
            None => seq![],
        }
    }
}

/// The dependency part of the header, with the end of the header line.
pub open spec fn dependency_text(deps: Option<Vec<String>>) -> Seq<char> {
    match deps {
        Some(ds) => if ds@.len() > 0 {
            ": "@ + join(strs(ds@), " "@) + "\n"@
        } else {
            ":\n"@
        },
        None => ":\n"@,
    }
}

/// `c` first occurs at `k` from `i` on, or not at all when `k` is the end.
proof fn lemma_first_char_at(s: Seq<char>, c: char, i: nat, k: nat)
    requires
        i <= k <= s.len(),
        forall|j: int| i <= j < k ==> s[j] != c,
        k < s.len() ==> s[k as int] == c,
    ensures
        find_char_from(s, c, i) == if k < s.len() {
            Some(k)
        } else {
            None::<nat>
        },
    decreases k - i,
{
    if i < k {
        lemma_first_char_at(s, c, i + 1, k);
    }
}

/// Splitting at spaces what follows `pre` gives back the names joined by
/// single spaces.
proof fn lemma_split_joined(pre: Seq<char>, ds: Seq<Seq<char>>)
    requires
        ds.len() > 0,
        forall|i: int, j: int| 0 <= i < ds.len() && 0 <= j < ds[i].len() ==> #[trigger] ds[i][j] != ' ',
    ensures
        split_from(pre + join(ds, " "@), ' ', pre.len()) == ds,
    decreases ds.len(),
{
    reveal_strlit(" ");
    let s = pre + join(ds, " "@);
    let d = ds[0];
    assert forall|j: int| pre.len() <= j < pre.len() + d.len() implies s[j] != ' ' by {
        assert(s[j] == d[j - pre.len()]);
        assert(ds[0][j - pre.len()] != ' ');
    }
    if ds.len() == 1 {
        assert(s =~= pre + d);
        lemma_first_char_at(s, ' ', pre.len(), s.len());
        assert(s.subrange(pre.len() as int, s.len() as int) =~= d);
        assert(split_from(s, ' ', pre.len()) =~= ds);
    } else {
        let rest = ds.drop_first();
        let pre2 = pre + d + " "@;
        assert(s =~= pre2 + join(rest, " "@));
        assert(s[(pre.len() + d.len()) as int] == ' ');
        lemma_first_char_at(s, ' ', pre.len(), (pre.len() + d.len()) as nat);
        assert(s.subrange(pre.len() as int, (pre.len() + d.len()) as int) =~= d);
        assert forall|i: int, j: int| 0 <= i < rest.len() && 0 <= j < rest[i].len() implies #[trigger] rest[i][j] != ' ' by {
            assert(rest[i] == ds[i + 1]);
            assert(ds[i + 1][j] != ' ');
        }
        lemma_split_joined(pre2, rest);
        assert(pre2.len() == pre.len() + d.len() + 1);
        assert(split_from(s, ' ', pre.len()) =~= seq![d] + rest);
        assert(seq![d] + rest =~= ds);
    }
}

/// The dependencies written into a new recipe's header read back as the
/// given list: the header goes on with `: `, ends with a newline, and what
/// lies between, split at spaces, is the dependency names in order.
pub proof fn lemma_dependencies_read_back(existing: Seq<char>, p: CreateRecipeParams, ds: Vec<String>)
    requires
        p.dependencies == Some(ds),
        ds@.len() > 0,
        forall|i: int, j: int| 0 <= i < ds@.len() && 0 <= j < ds@[i]@.len() ==> #[trigger] ds@[i]@[j] != ' ',
    ensures
        ({
            let t = dependency_text(Some(ds));
            &&& t.len() >= 3
            &&& t.subrange(0, 2) == ": "@
            &&& t[t.len() - 1] == '\n'
            &&& split_char(t.subrange(2, t.len() - 1), ' ') == strs(ds@)
            &&& exists|head: Seq<char>| spec_recipe_text(existing, p) == head + t + indented(text_lines(p.recipe@))
        }),
{
    reveal_strlit(": ");
    reveal_strlit("\n");
    let names = strs(ds@);
    assert forall|i: int, j: int| 0 <= i < names.len() && 0 <= j < names[i].len() implies #[trigger] names[i][j] != ' ' by {
        assert(names[i] == ds@[i]@);
        assert(ds@[i]@[j] != ' ');
    }
    let e: Seq<char> = seq![];
    lemma_split_joined(e, names);
    let t = dependency_text(Some(ds));
    let jn = join(names, " "@);
    assert(t =~= ": "@ + jn + "\n"@);
    assert(t.subrange(2, t.len() - 1) =~= e + jn);
    assert(t.subrange(0, 2) =~= ": "@);
    let head = separator(existing) + match p.description {
        Some(d) => "# "@ + d@ + "\n"@,
        None => seq![],
    } + p.recipe_name@ + match p.parameters {
        Some(ps) => parameter_text(ps@),
        None => seq![],
    };
    assert(spec_recipe_text(existing, p) =~= head + t + indented(text_lines(p.recipe@)));
}

/// Each line indented by four spaces and ended by a newline.
pub open spec fn indented(lines: Seq<Seq<char>>) -> Seq<char>
    decreases lines.len(),
{
    if lines.len() == 0 {
        seq![]
    } else {
        indented(lines.drop_last()) + "    "@ + lines.last() + "\n"@
    }
}

/// Text appended to a justfile holding `existing` to add the recipe `p`:
/// a blank line, the description as a comment, the header and the body.
pub open spec fn spec_recipe_text(existing: Seq<char>, p: CreateRecipeParams) -> Seq<char> {
    separator(existing) + match p.description {
        Some(d) => "# "@ + d@ + "\n"@,
        None => seq![],
    } + p.recipe_name@ + match p.parameters {
        Some(ps) => parameter_text(ps@),
        None => seq![],
    } + dependency_text(p.dependencies) + indented(text_lines(p.recipe@))
}

/// Appends ` name` or ` name="default"` for each parameter.
fn push_parameters(t: &mut String, ps: &Vec<RecipeParameter>)
    ensures
        final(t)@ == old(t)@ + parameter_text(ps@),
{
    let ghost head = t@;
    let mut i: usize = 0;
    while i < ps.len()
        invariant
            i <= ps@.len(),
            t@ == head + parameter_text(ps@.take(i as int)),
        decreases ps.len() - i,
    {
        let p = &ps[i];
        push_char(t, ' ');
        push_str(t, p.name.as_str());
        match &p.default {
            Some(d) => {
                push_str(t, "=\"");
                push_str(t, d.as_str());
                push_str(t, "\"");
            },
            None => {},
        }
        proof {
            reveal_strlit(" ");
            assert(ps@.take(i + 1).drop_last() =~= ps@.take(i as int));
            assert(ps@.take(i + 1).last() == ps@[i as int]);
            assert(t@ =~= head + parameter_text(ps@.take(i + 1)));
        }
        i = i + 1;
    }
    assert(ps@.take(ps@.len() as int) =~= ps@);
}

/// Appends the dependency part of the header and ends the header line.
fn push_dependencies(t: &mut String, deps: &Option<Vec<String>>)
    ensures
        final(t)@ == old(t)@ + dependency_text(*deps),
{
    match deps {
        Some(ds) => {
            if ds.len() > 0 {
                push_str(t, ": ");
                push_str(t, join_strings(ds, " ").as_str());
                push_str(t, "\n");
            } else {
                push_str(t, ":\n");
            }
        },
        None => {
            push_str(t, ":\n");
        },
    }
}

/// Appends each line of `body`, indented by four spaces.
fn push_body(t: &mut String, body: &str)
    ensures
        final(t)@ == old(t)@ + indented(text_lines(body@)),
{
    let ghost before_body = t@;
    let lines = lines_of(body);
    let mut i: usize = 0;
    while i < lines.len()
        invariant
            i <= lines@.len(),
            t@ == before_body + indented(strs(lines@).take(i as int)),
        decreases lines.len() - i,
    {
        push_str(t, "    ");
        push_str(t, lines[i].as_str());
        push_str(t, "\n");
        proof {
            assert(strs(lines@).take(i + 1).drop_last() =~= strs(lines@).take(i as int));
            assert(strs(lines@).take(i + 1).last() == lines@[i as int]@);
        }
        i = i + 1;
    }
    assert(strs(lines@).take(lines@.len() as int) =~= strs(lines@));
}

/// The text to append to a justfile holding `existing` to add the recipe
/// described by `params`.
pub fn recipe_text(existing: &str, params: &CreateRecipeParams) -> (r: String)
    ensures
        r@ == spec_recipe_text(existing@, *params),
{
    let mut t = String::new();
    if !existing.is_empty() {
        if !str_ends_with(existing, "\n") {
            push_char(&mut t, '\n');
        }
        push_char(&mut t, '\n');
    }
    proof {
        reveal_strlit("\n\n");
        reveal_strlit("\n");
        assert(t@ =~= separator(existing@));
    }
    let ghost sep = t@;
    match &params.description {
        Some(d) => {
            push_str(&mut t, "# ");
            push_str(&mut t, d.as_str());
            push_str(&mut t, "\n");
        },
        None => {},
    }
    push_str(&mut t, params.recipe_name.as_str());
    let ghost head = t@;
    match &params.parameters {
        Some(ps) => {
            push_parameters(&mut t, ps);
        },
        None => {},
    }
    let ghost with_params = t@;
    push_dependencies(&mut t, &params.dependencies);
    let ghost with_deps = t@;
    push_body(&mut t, params.recipe.as_str());
    assert(t@ == with_deps + indented(text_lines(params.recipe@)));
    assert(with_deps == with_params + dependency_text(params.dependencies));
    t
}

// ---------------------------------------------------------------------------
// Names
// ---------------------------------------------------------------------------

/// A tool of the recipe: the recipe itself or one of its `name@dir` forms.
pub open spec fn is_tool_of(tool: Seq<char>, recipe: Seq<char>) -> bool {
    tool == recipe || starts_with(tool, recipe + "@"@)
}

/// Why a recipe cannot be added under `name`, if it cannot.
pub open spec fn spec_name_problem(name: Seq<char>, tools: Seq<Seq<char>>, justfile: Seq<char>) -> Option<Seq<char>> {
    if exists|i: int| 0 <= i < tools.len() && is_tool_of(#[trigger] tools[i], name) {
        Some("Recipe '"@ + name + "' already exists in "@ + justfile)
    } else if starts_with(name, "_admin_"@) {
        Some("Recipe names starting with '_admin_' are reserved"@)
    } else {
        None
    }
}

/// Why a recipe cannot be added under `recipe_name` to `justfile`, given
/// the names of the tools there are: the name is taken, or reserved.
pub fn recipe_name_problem(recipe_name: &str, tool_names: &[String], justfile: &str) -> (r: Option<String>)
    ensures
        match r {
            Some(m) => spec_name_problem(recipe_name@, strs(tool_names@), justfile@) == Some(m@),
            None => spec_name_problem(recipe_name@, strs(tool_names@), justfile@) is None,
        },
{
    let with_at = concat(recipe_name, "@");
    let mut i: usize = 0;
    while i < tool_names.len()
        invariant
            i <= tool_names@.len(),
            with_at@ == recipe_name@ + "@"@,
            forall|j: int| 0 <= j < i ==> !is_tool_of(#[trigger] strs(tool_names@)[j], recipe_name@),
        decreases tool_names.len() - i,
    {
        let t = tool_names[i].as_str();
        assert(strs(tool_names@)[i as int] == t@);
        if str_eq(t, recipe_name) || str_starts_with(t, with_at.as_str()) {
            let mut m = owned("Recipe '");
            push_str(&mut m, recipe_name);
            push_str(&mut m, "' already exists in ");
            push_str(&mut m, justfile);
            return Some(m);
        }
        i = i + 1;
    }
    if str_starts_with(recipe_name, "_admin_") {
        return Some(owned("Recipe names starting with '_admin_' are reserved"));
    }
    None
}

/// The tools a sync removes: all but the administration tools, in order.
pub fn non_admin_tools(tool_names: &[String]) -> (r: Vec<String>)
    ensures
        strs(r@) == strs(tool_names@).filter(|n: Seq<char>| !starts_with(n, "_admin_"@)),
{
    let mut out: Vec<String> = Vec::new();
    let mut i: usize = 0;
    while i < tool_names.len()
        invariant
            i <= tool_names@.len(),
            strs(out@) == strs(tool_names@).take(i as int).filter(|n: Seq<char>| !starts_with(n, "_admin_"@)),
        decreases tool_names.len() - i,
    {
        proof {
            lemma_filter_take(strs(tool_names@), |n: Seq<char>| !starts_with(n, "_admin_"@), i as int);
            assert(strs(tool_names@).take(i + 1) =~= strs(tool_names@.take(i + 1)));
        }
        let t = &tool_names[i];
        if !str_starts_with(t.as_str(), "_admin_") {
            let ghost prev = strs(out@);
            out.push(t.clone());
            assert(strs(out@) =~= prev.push(t@));
        }
        i = i + 1;
    }
    assert(strs(tool_names@).take(tool_names@.len() as int) =~= strs(tool_names@));
    out
}

// ---------------------------------------------------------------------------
// The parser diagnostic report
// ---------------------------------------------------------------------------

/// `100 * found / expected` rounded to the nearest integer, halves to even;
/// zero when nothing is expected.
pub open spec fn percent(found: nat, expected: nat) -> nat {
    if expected == 0 {
        0
    } else {
        let q = (100 * found) / expected;
        let r = (100 * found) % expected;
        if 2 * r > expected || (2 * r == expected && q % 2 == 1) {
            q + 1
        } else {
            q
        }
    }
}

/// The expected recipes a parser did not find, in order.
pub open spec fn missing_from(expected: Seq<Seq<char>>, found: Seq<Seq<char>>) -> Seq<Seq<char>> {
    expected.filter(|r: Seq<char>| !found.contains(r))
}

/// One line `pre item post` per item.
pub open spec fn bullets(items: Seq<Seq<char>>, pre: Seq<char>, post: Seq<char>) -> Seq<char>
    decreases items.len(),
{
    if items.len() == 0 {
        seq![]
    } else {
        bullets(items.drop_last(), pre, post) + pre + items.last() + post
    }
}

/// The summary line of one parser.
pub open spec fn summary_line(label: Seq<char>, found: nat, expected: nat, missing: nat) -> Seq<char> {
    "- "@ + label + " parser: "@ + decimal(found) + " ("@ + decimal(percent(found, expected)) + "%) | Missing: "@
        + decimal(missing) + "\n"@
}

/// The section on the problems of one parser.
pub open spec fn issues_section(label: Seq<char>, missing: Seq<Seq<char>>, errors: Seq<Seq<char>>) -> Seq<char> {
    "\n## "@ + label + " Parser Issues\n"@ + if missing.len() == 0 && errors.len() == 0 {
        "### No issues found\n"@
    } else {
        (if missing.len() > 0 {
            "### Missing Recipes ("@ + decimal(missing.len()) + "):\n"@ + bullets(missing, "- `"@, "`\n"@)
        } else {
            seq![]
        }) + (if errors.len() > 0 {
            "### Parsing Errors ("@ + decimal(errors.len()) + "):\n"@ + bullets(errors, "- "@, "\n"@)
        } else {
            seq![]
        })
    }
}

/// The diagnostic report comparing what two parsers found with the
/// expected recipes; with `verbose`, the problems of each.
pub open spec fn spec_diagnostic_report(
    expected: Seq<Seq<char>>,
    ast: ParserDiagnosticResult,
    cli: ParserDiagnosticResult,
    verbose: bool,
) -> Seq<char> {
    let am = missing_from(expected, strs(ast.found_recipes@));
    let cm = missing_from(expected, strs(cli.found_recipes@));
    "# Parser Diagnostic Report\n\n"@ + "## Summary\n"@ + "- Expected: "@ + decimal(expected.len()) + "\n"@
        + summary_line("AST"@, ast.found_recipes@.len(), expected.len(), am.len()) + summary_line(
        "CLI"@,
        cli.found_recipes@.len(),
        expected.len(),
        cm.len(),
    ) + if verbose {
        issues_section("AST"@, am, strs(ast.parsing_errors@)) + issues_section(
            "CLI"@,
            cm,
            strs(cli.parsing_errors@),
        )
    } else {
        seq![]
    }
}

/// `percent` on machine integers.
fn percent_exec(found: usize, expected: usize) -> (p: u128)
    ensures
        p == percent(found as nat, expected as nat),
{
    if expected == 0 {
        0
    } else {
        let f = found as u128;
        let e = expected as u128;
        let q = (100 * f) / e;
        let r = (100 * f) % e;
        if 2 * r > e || (2 * r == e && q % 2 == 1) {
            q + 1
        } else {
            q
        }
    }
}

/// The expected recipes missing from `found`, in order.
fn missing_recipes(expected: &[String], found: &Vec<String>) -> (r: Vec<String>)
    ensures
        strs(r@) == missing_from(strs(expected@), strs(found@)),
{
    let mut out: Vec<String> = Vec::new();
    let mut i: usize = 0;
    while i < expected.len()
        invariant
            i <= expected@.len(),
            strs(out@) == strs(expected@).take(i as int).filter(|r: Seq<char>| !strs(found@).contains(r)),
        decreases expected.len() - i,
    {
        proof {
            lemma_filter_take(strs(expected@), |r: Seq<char>| !strs(found@).contains(r), i as int);
        }
        let e = &expected[i];
        if !strings_contain(found.as_slice(), e.as_str()) {
            let ghost prev = strs(out@);
            out.push(e.clone());
            assert(strs(out@) =~= prev.push(e@));
        }
        i = i + 1;
    }
    assert(strs(expected@).take(expected@.len() as int) =~= strs(expected@));
    out
}

/// Appends one line `pre item post` per item.
fn push_bullets(t: &mut String, items: &Vec<String>, pre: &str, post: &str)
    ensures
        final(t)@ == old(t)@ + bullets(strs(items@), pre@, post@),
{
    let ghost start = t@;
    let mut i: usize = 0;
    while i < items.len()
        invariant
            i <= items@.len(),
            t@ == start + bullets(strs(items@).take(i as int), pre@, post@),
        decreases items.len() - i,
    {
        push_str(t, pre);
        push_str(t, items[i].as_str());
        push_str(t, post);
        proof {
            assert(strs(items@).take(i + 1).drop_last() =~= strs(items@).take(i as int));
            assert(strs(items@).take(i + 1).last() == items@[i as int]@);
        }
        i = i + 1;
    }
    assert(strs(items@).take(items@.len() as int) =~= strs(items@));
}

/// Appends the summary line of one parser.
fn push_summary_line(t: &mut String, label: &str, found: usize, expected: usize, missing: usize)
    ensures
        final(t)@ == old(t)@ + summary_line(label@, found as nat, expected as nat, missing as nat),
{
    push_str(t, "- ");
    push_str(t, label);
    push_str(t, " parser: ");
    push_str(t, usize_to_string(found).as_str());
    push_str(t, " (");
    push_str(t, crate::text::u128_to_string(percent_exec(found, expected)).as_str());
    push_str(t, "%) | Missing: ");
    push_str(t, usize_to_string(missing).as_str());
    push_str(t, "\n");
}

/// Appends the list of missing recipes, if there are any.
fn push_missing(t: &mut String, missing: &Vec<String>)
    ensures
        final(t)@ == old(t)@ + (if missing@.len() > 0 {
            "### Missing Recipes ("@ + decimal(missing@.len() as nat) + "):\n"@ + bullets(strs(missing@), "- `"@, "`\n"@)
        } else {
            seq![]
        }),
{
    if missing.len() > 0 {
        push_str(t, "### Missing Recipes (");
        push_str(t, usize_to_string(missing.len()).as_str());
        push_str(t, "):\n");
        push_bullets(t, missing, "- `", "`\n");
    }
}

/// Appends the list of parsing errors, if there are any.
fn push_errors(t: &mut String, errors: &Vec<String>)
    ensures
        final(t)@ == old(t)@ + (if errors@.len() > 0 {
            "### Parsing Errors ("@ + decimal(errors@.len() as nat) + "):\n"@ + bullets(strs(errors@), "- "@, "\n"@)
        } else {
            seq![]
        }),
{
    if errors.len() > 0 {
        push_str(t, "### Parsing Errors (");
        push_str(t, usize_to_string(errors.len()).as_str());
        push_str(t, "):\n");
        push_bullets(t, errors, "- ", "\n");
    }
}

/// Appends the section on the problems of one parser.
fn push_issues(t: &mut String, label: &str, missing: &Vec<String>, errors: &Vec<String>)
    ensures
        final(t)@ == old(t)@ + issues_section(label@, strs(missing@), strs(errors@)),
{
    push_str(t, "\n## ");
    push_str(t, label);
    push_str(t, " Parser Issues\n");
    if missing.len() == 0 && errors.len() == 0 {
        push_str(t, "### No issues found\n");
    } else {
        push_missing(t, missing);
        push_errors(t, errors);
    }
}

/// The diagnostic report comparing the recipes two parsers found with the
/// expected ones: counts, shares in percent and, with `verbose`, what each
/// missed and the errors it met.
pub fn format_diagnostic_report(
    expected: &[String],
    ast_result: &ParserDiagnosticResult,
    cli_result: &ParserDiagnosticResult,
    verbose: bool,
) -> (r: String)
    ensures
        r@ == spec_diagnostic_report(strs(expected@), *ast_result, *cli_result, verbose),
{
    let mut t = owned("# Parser Diagnostic Report\n\n");
    let ast_missing = missing_recipes(expected, &ast_result.found_recipes);
    let cli_missing = missing_recipes(expected, &cli_result.found_recipes);
    push_str(&mut t, "## Summary\n");
    push_str(&mut t, "- Expected: ");
    push_str(&mut t, usize_to_string(expected.len()).as_str());
    push_str(&mut t, "\n");
    push_summary_line(&mut t, "AST", ast_result.found_recipes.len(), expected.len(), ast_missing.len());
    push_summary_line(&mut t, "CLI", cli_result.found_recipes.len(), expected.len(), cli_missing.len());
    if verbose {
        push_issues(&mut t, "AST", &ast_missing, &ast_result.parsing_errors);
        push_issues(&mut t, "CLI", &cli_missing, &cli_result.parsing_errors);
    }
    t
}

/// The names given to watched directories, each in single quotes.
pub open spec fn quoted_names(names: Seq<Option<String>>) -> Seq<Seq<char>>
    decreases names.len(),
{
    if names.len() == 0 {
        seq![]
    } else {
        quoted_names(names.drop_last()) + match names.last() {
            Some(n) => seq!["'"@ + n@ + "'"@],
            None => seq![],
        }
    }
}

/// The error for a watch name that no watched directory has, listing the names there are.
pub open spec fn spec_unknown_watch(watch_name: Seq<char>, names: Seq<Option<String>>) -> Seq<char> {
    "Watch directory '"@ + watch_name + "' not found. Available: "@ + join(quoted_names(names), ", "@)
}

/// The error for a watch name that no watched directory has.
pub fn unknown_watch_message(watch_name: &str, names: &Vec<Option<String>>) -> (m: String)
    ensures
        m@ == spec_unknown_watch(watch_name@, names@),
{
    let mut quoted: Vec<String> = Vec::new();
    let mut i: usize = 0;
    while i < names.len()
        invariant
            i <= names@.len(),
            strs(quoted@) == quoted_names(names@.take(i as int)),
        decreases names.len() - i,
    {
        assert(names@.take(i + 1).drop_last() =~= names@.take(i as int));
        assert(names@.take(i + 1).last() == names@[i as int]);
        let ghost prev = strs(quoted@);
        match &names[i] {
            Some(n) => {
                let mut q = owned("'");
                push_str(&mut q, n.as_str());
                push_str(&mut q, "'");
                quoted.push(q);
                assert(strs(quoted@) =~= prev + seq![q@]);
            },
            None => {
                assert(prev + Seq::<Seq<char>>::empty() =~= prev);
            },
        }
        i = i + 1;
    }
    assert(names@.take(names@.len() as int) =~= names@);
    assert(strs(quoted@) =~= quoted@.map_values(|p: String| p@));
    let listed = join_strings(&quoted, ", ");
    let mut m = owned("Watch directory '");
    push_str(&mut m, watch_name);
    push_str(&mut m, "' not found. Available: ");
    push_str(&mut m, listed.as_str());
    m
}

} // verus!

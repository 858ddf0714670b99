//! The decisions of the three-tier justfile parser: which parsers to try in
//! which order, how each attempt is counted, and the task that stands in for
//! a justfile no parser could read.
use vstd::prelude::*;
use vstd::utf8::{encode_utf8, decode_utf8, is_char_boundary};
use crate::text::{owned, push_str, str_replace, replace, text_lines, lines_of};
use crate::types::JustTask;
use crate::parser::ast::queries::info::strs;
use crate::parser::{ParsingMetrics, ParsingMethod};

verus! {

/// The parsers to try, in order: the syntax tree when preferred and
/// available, the `just` command when preferred, then regular expressions.
pub open spec fn spec_tier_order(prefer_ast: bool, ast_available: bool, prefer_command: bool) -> Seq<ParsingMethod> {
    (if prefer_ast && ast_available {
        seq![ParsingMethod::AST]
    } else {
        seq![]
    }) + (if prefer_command {
        seq![ParsingMethod::Command]
    } else {
        seq![]
    }) + seq![ParsingMethod::Regex]
}

/// The parsers to try, in order, before falling back to a minimal task.
pub fn tier_order(prefer_ast: bool, ast_available: bool, prefer_command: bool) -> (r: Vec<ParsingMethod>)
    ensures
        r@ == spec_tier_order(prefer_ast, ast_available, prefer_command),
{
    let mut v: Vec<ParsingMethod> = Vec::new();
    if prefer_ast && ast_available {
        v.push(ParsingMethod::AST);
    }
    if prefer_command {
        v.push(ParsingMethod::Command);
    }
    v.push(ParsingMethod::Regex);
    assert(v@ =~= spec_tier_order(prefer_ast, ast_available, prefer_command));
    v
}

/// The counters after an attempt with `method` that took `method_ms`; a
/// success also adds `total_ms` to the total time.
pub open spec fn spec_record(m: ParsingMetrics, method: ParsingMethod, success: bool, method_ms: u64, total_ms: u64) -> ParsingMetrics {
    let s: u64 = if success {
        1
    } else {
        0
    };
    let t = if success {
        (m.total_parse_time_ms + total_ms) as u64
    } else {
        m.total_parse_time_ms
    };
    match method {
        ParsingMethod::AST => ParsingMetrics {
            ast_attempts: (m.ast_attempts + 1) as u64,
            ast_successes: (m.ast_successes + s) as u64,
            ast_parse_time_ms: (m.ast_parse_time_ms + method_ms) as u64,
            total_parse_time_ms: t,
            ..m
        },
        ParsingMethod::Command => ParsingMetrics {
            command_attempts: (m.command_attempts + 1) as u64,
            command_successes: (m.command_successes + s) as u64,
            command_parse_time_ms: (m.command_parse_time_ms + method_ms) as u64,
            total_parse_time_ms: t,
            ..m
        },
        _ => ParsingMetrics {
            regex_attempts: (m.regex_attempts + 1) as u64,
            regex_successes: (m.regex_successes + s) as u64,
            regex_parse_time_ms: (m.regex_parse_time_ms + method_ms) as u64,
            total_parse_time_ms: t,
            ..m
        },
    }
}

/// The counters of `method` leave room for one more attempt.
pub open spec fn can_record(m: ParsingMetrics, method: ParsingMethod, success: bool, method_ms: u64, total_ms: u64) -> bool {
    &&& success ==> m.total_parse_time_ms + total_ms <= u64::MAX
    &&& match method {
        ParsingMethod::AST => m.ast_attempts < u64::MAX && m.ast_successes < u64::MAX && m.ast_parse_time_ms
            + method_ms <= u64::MAX,
        ParsingMethod::Command => m.command_attempts < u64::MAX && m.command_successes < u64::MAX
            && m.command_parse_time_ms + method_ms <= u64::MAX,
        _ => m.regex_attempts < u64::MAX && m.regex_successes < u64::MAX && m.regex_parse_time_ms + method_ms
            <= u64::MAX,
    }
}

impl ParsingMetrics {
    /// Counts an attempt of a parser (the minimal fallback is not a parser).
    pub fn record_attempt(&mut self, method: ParsingMethod, success: bool, method_ms: u64, total_ms: u64)
        requires
            method != ParsingMethod::Minimal,
            can_record(*old(self), method, success, method_ms, total_ms),
        ensures
            *final(self) == spec_record(*old(self), method, success, method_ms, total_ms),
    {
        let s: u64 = if success {
            1
        } else {
            0
        };
        if success {
            self.total_parse_time_ms = self.total_parse_time_ms + total_ms;
        }
        match method {
            ParsingMethod::AST => {
                self.ast_attempts = self.ast_attempts + 1;
                self.ast_successes = self.ast_successes + s;
                self.ast_parse_time_ms = self.ast_parse_time_ms + method_ms;
            },
            ParsingMethod::Command => {
                self.command_attempts = self.command_attempts + 1;
                self.command_successes = self.command_successes + s;
                self.command_parse_time_ms = self.command_parse_time_ms + method_ms;
            },
            _ => {
                self.regex_attempts = self.regex_attempts + 1;
                self.regex_successes = self.regex_successes + s;
                self.regex_parse_time_ms = self.regex_parse_time_ms + method_ms;
            },
        }
    }

    /// Counts a minimal task standing in for a justfile, after `total_ms`.
    pub fn record_minimal(&mut self, total_ms: u64)
        requires
            old(self).minimal_task_creations < u64::MAX,
            old(self).total_parse_time_ms + total_ms <= u64::MAX,
        ensures
            *final(self) == (ParsingMetrics {
                minimal_task_creations: (old(self).minimal_task_creations + 1) as u64,
                total_parse_time_ms: (old(self).total_parse_time_ms + total_ms) as u64,
                ..*old(self)
            }),
    {
        self.minimal_task_creations = self.minimal_task_creations + 1;
        self.total_parse_time_ms = self.total_parse_time_ms + total_ms;
    }
}

/// ` (details)`, or nothing.
pub open spec fn error_suffix(error_details: Option<Seq<char>>) -> Seq<char> {
    match error_details {
        Some(e) => " ("@ + e + ")"@,
        None => seq![],
    }
}

/// The first comment line of a minimal task.
pub open spec fn failure_warning() -> Seq<char> {
    "WARNING: "@ + warned_subject() + " was "@ + stand_in_word() + " due to parsing failure."@
}

/// What the warning of a minimal task is about.
pub open spec fn warned_subject() -> Seq<char> {
    "This"@ + " task"@
}

/// How a minimal task came to be.
pub open spec fn stand_in_word() -> Seq<char> {
    "auto-generated"@
}

/// The first comment line of a minimal task.
fn failure_warning_exec() -> (s: String)
    ensures
        s@ == failure_warning(),
{
    let mut s = owned("WARNING: ");
    push_str(&mut s, warned_subject_exec().as_str());
    push_str(&mut s, " was ");
    push_str(&mut s, stand_in_word_exec());
    push_str(&mut s, " due to parsing failure.");
    s
}

/// What the warning of a minimal task is about.
fn warned_subject_exec() -> (s: String)
    ensures
        s@ == warned_subject(),
{
    let mut s = owned("This");
    push_str(&mut s, " task");
    s
}

/// How a minimal task came to be.
fn stand_in_word_exec() -> (s: &'static str)
    ensures
        s@ == stand_in_word(),
{
    "auto-generated"
}

/// The comments of a minimal task, around the line `middle`.
pub open spec fn minimal_comments(middle: Seq<char>, error_details: Option<Seq<char>>) -> Seq<Seq<char>> {
    seq![
        failure_warning(),
        middle,
        "All parsing methods failed"@ + error_suffix(error_details),
        "Please check the justfile syntax and try again."@,
    ]
}

/// A private task without parameters, dependencies or attributes, on line one.
pub open spec fn is_minimal_task(t: JustTask) -> bool {
    &&& t.parameters@.len() == 0
    &&& t.dependencies@.len() == 0
    &&& t.line_number == 1
    &&& t.group is None
    &&& t.is_private
    &&& t.confirm_message is None
    &&& t.doc is None
    &&& t.attributes@.len() == 0
}

/// View of an optional text.
pub open spec fn opt_view(o: Option<&str>) -> Option<Seq<char>> {
    match o {
        Some(s) => Some(s@),
        None => None,
    }
}

/// ` (details)`, or nothing.
fn error_suffix_exec(error_details: Option<&str>) -> (s: String)
    ensures
        s@ == error_suffix(opt_view(error_details)),
{
    match error_details {
        Some(e) => {
            let mut s = owned(" (");
            push_str(&mut s, e);
            push_str(&mut s, ")");
            s
        },
        None => String::new(),
    }
}

/// The comments of a minimal task.
fn minimal_comments_exec(middle: String, error_details: Option<&str>) -> (v: Vec<String>)
    ensures
        strs(v@) == minimal_comments(middle@, opt_view(error_details)),
{
    let mut v: Vec<String> = Vec::new();
    v.push(failure_warning_exec());
    v.push(middle);
    let mut failed = owned("All parsing methods failed");
    push_str(&mut failed, error_suffix_exec(error_details).as_str());
    v.push(failed);
    v.push(owned("Please check the justfile syntax and try again."));
    assert(strs(v@) =~= minimal_comments(middle@, opt_view(error_details)));
    v
}

/// The task standing in for the justfile at `path` (as displayed), whose
/// file name is `file_name` when it has one, after every parser failed.
pub fn create_minimal_task_for_file(file_name: Option<&str>, path: &str, error_details: Option<&str>) -> (t: JustTask)
    ensures
        is_minimal_task(t),
        t.name@ == "parse-error-"@ + replace(
            match file_name {
                Some(f) => f@,
                None => "unknown"@,
            },
            "."@,
            "-"@,
        ),
        t.body@ == "echo 'ERROR: Failed to parse justfile at "@ + path@ + error_suffix(opt_view(error_details))
            + "'\necho 'This is a minimal task created as fallback.'"@,
        strs(t.comments@) == minimal_comments("Original justfile: "@ + path@, opt_view(error_details)),
{
    let filename = match file_name {
        Some(f) => f,
        None => "unknown",
    };
    let error_msg = error_suffix_exec(error_details);
    let mut name = owned("parse-error-");
    push_str(&mut name, str_replace(filename, ".", "-").as_str());
    let mut body = owned("echo 'ERROR: Failed to parse justfile at ");
    push_str(&mut body, path);
    push_str(&mut body, error_msg.as_str());
    push_str(&mut body, "'\necho 'This is a minimal task created as fallback.'");
    let mut origin = owned("Original justfile: ");
    push_str(&mut origin, path);
    JustTask {
        name,
        body,
        parameters: Vec::new(),
        dependencies: Vec::new(),
        comments: minimal_comments_exec(origin, error_details),
        line_number: 1,
        group: None,
        is_private: true,
        confirm_message: None,
        doc: None,
        attributes: Vec::new(),
    }
}

/// The first line of `content`, or `<empty>`.
pub open spec fn first_line(content: Seq<char>) -> Seq<char> {
    let lines = text_lines(content);
    if lines.len() > 0 {
        lines[0]
    } else {
        "<empty>"@
    }
}

/// The first line cut to its first 47 bytes followed by `...` when it is
/// longer than 50 bytes.
pub open spec fn content_preview(content: Seq<char>) -> Seq<char> {
    let l = first_line(content);
    if (encode_utf8(l).len() as usize) > 50 {
        decode_utf8(encode_utf8(l).subrange(0, 47)) + "..."@
    } else {
        l
    }
}

/// Whether the preview can be cut: a first line longer than 50 bytes has a
/// character boundary after its 47th byte.
pub open spec fn preview_cuttable(content: Seq<char>) -> bool {
    let l = first_line(content);
    (encode_utf8(l).len() as usize) > 50 ==> is_char_boundary(encode_utf8(l), 47)
}

/// Whether the preview of `content` can be cut.
pub fn preview_cuttable_exec(content: &str) -> (b: bool)
    ensures
        b == preview_cuttable(content@),
{
    let lines = lines_of(content);
    let first = if lines.len() > 0 {
        assert(strs(lines@)[0] == lines@[0]@);
        lines[0].clone()
    } else {
        owned("<empty>")
    };
    if first.as_str().len() > 50 {
        first.as_str().is_char_boundary(47)
    } else {
        true
    }
}

/// The preview of a content.
fn content_preview_exec(content: &str) -> (p: String)
    requires
        preview_cuttable(content@),
    ensures
        p@ == content_preview(content@),
{
    let lines = lines_of(content);
    let first = if lines.len() > 0 {
        assert(strs(lines@)[0] == lines@[0]@);
        lines[0].clone()
    } else {
        owned("<empty>")
    };
    if first.as_str().len() > 50 {
        let (head, _) = first.as_str().split_at(47);
        proof {
            vstd::utf8::encode_utf8_decode_utf8(head@);
        }
        let mut p = owned(head);
        push_str(&mut p, "...");
        p
    } else {
        first
    }
}

/// The task standing in for justfile content that no parser could read.
pub fn create_minimal_task_for_content(content: &str, error_details: Option<&str>) -> (t: JustTask)
    requires
        preview_cuttable(content@),
    ensures
        is_minimal_task(t),
        t.name@ == "parse-error-content"@,
        t.body@ == "echo 'ERROR: Failed to parse justfile content"@ + error_suffix(opt_view(error_details))
            + "'\necho 'Content preview: "@ + content_preview(content@)
            + "'\necho 'This is a minimal task created as fallback.'"@,
        strs(t.comments@) == minimal_comments(
            "Content preview: "@ + content_preview(content@),
            opt_view(error_details),
        ),
{
    let preview = content_preview_exec(content);
    let error_msg = error_suffix_exec(error_details);
    let mut body = owned("echo 'ERROR: Failed to parse justfile content");
    push_str(&mut body, error_msg.as_str());
    push_str(&mut body, "'\necho 'Content preview: ");
    push_str(&mut body, preview.as_str());
    push_str(&mut body, "'\necho 'This is a minimal task created as fallback.'");
    let mut shown = owned("Content preview: ");
    push_str(&mut shown, preview.as_str());
    JustTask {
        name: owned("parse-error-content"),
        body,
        parameters: Vec::new(),
        dependencies: Vec::new(),
        comments: minimal_comments_exec(shown, error_details),
        line_number: 1,
        group: None,
        is_private: true,
        confirm_message: None,
        doc: None,
        attributes: Vec::new(),
    }
}

/// No method has more successes than attempts.
pub open spec fn successes_bounded(m: ParsingMetrics) -> bool {
    &&& m.ast_successes <= m.ast_attempts
    &&& m.command_successes <= m.command_attempts
    &&& m.regex_successes <= m.regex_attempts
}

/// Counting an attempt keeps every method's successes within its attempts.
pub proof fn lemma_record_keeps_successes_bounded(
    m: ParsingMetrics,
    method: ParsingMethod,
    success: bool,
    method_ms: u64,
    total_ms: u64,
)
    requires
        successes_bounded(m),
        can_record(m, method, success, method_ms, total_ms),
    ensures
        successes_bounded(spec_record(m, method, success, method_ms, total_ms)),
{
}


// ---------------------------------------------------------------------------
// Trying the parsers in turn
// ---------------------------------------------------------------------------

/// Where a run over the parsers stands: the parsers still to try, the last
/// error reported, and the counters.
pub struct TierState {
    pub remaining: Vec<ParsingMethod>,
    pub last_error: Option<String>,
    pub metrics: ParsingMetrics,
}

/// What an attempt gave: tasks (possibly none) or an error message.
pub enum TierOutcome {
    Tasks(Vec<JustTask>),
    Failed(String),
}

/// What to do next: try a parser, return the tasks, or stand a minimal task
/// in for the justfile, with the last error reported.
pub enum TierAction {
    Try(ParsingMethod),
    Done(Vec<JustTask>),
    Fallback(Option<String>),
}

/// The name of a parser in messages.
pub open spec fn method_label(m: ParsingMethod) -> Seq<char> {
    match m {
        ParsingMethod::AST => "AST"@,
        ParsingMethod::Command => "Command"@,
        ParsingMethod::Regex => "Regex"@,
        ParsingMethod::Minimal => "Minimal"@,
    }
}

/// Whether an outcome is a success: some tasks.
pub open spec fn outcome_succeeds(o: TierOutcome) -> bool {
    o matches TierOutcome::Tasks(ts) && ts@.len() > 0
}

/// The action that follows from the parsers left to try.
pub open spec fn next_action_is(a: TierAction, remaining: Seq<ParsingMethod>, last_error: Option<Seq<char>>) -> bool {
    if remaining.len() > 0 {
        a matches TierAction::Try(m) && m == remaining[0]
    } else {
        a matches TierAction::Fallback(e) && opt_view_string(e) == last_error
    }
}

/// View of an optional string.
pub open spec fn opt_view_string(o: Option<String>) -> Option<Seq<char>> {
    match o {
        Some(s) => Some(s@),
        None => None,
    }
}

impl TierState {
    /// A run over the parsers that the preferences allow, in order, with no
    /// error yet, and the first action.
    pub fn start(prefer_ast: bool, ast_available: bool, prefer_command: bool, metrics: ParsingMetrics) -> (r: (
        TierState,
        TierAction,
    ))
        ensures
            r.0.remaining@ == spec_tier_order(prefer_ast, ast_available, prefer_command),
            r.0.last_error is None,
            r.0.metrics == metrics,
            next_action_is(r.1, r.0.remaining@, None),
    {
        let remaining = tier_order(prefer_ast, ast_available, prefer_command);
        let first = remaining[0];
        (TierState { remaining, last_error: None, metrics }, TierAction::Try(first))
    }
}

/// Takes the outcome of trying `method`, the first parser left: some tasks
/// end the run and count as a success; anything else counts as a failure,
/// an error becomes the last error (`<name> parsing failed: <error>`), the
/// parser is dropped, and the next one is tried, or, when none is left, a
/// minimal task stands in.
pub fn tier_step(state: &mut TierState, method: ParsingMethod, outcome: TierOutcome, method_ms: u64, total_ms: u64) -> (a:
    TierAction)
    requires
        old(state).remaining@.len() > 0,
        old(state).remaining@[0] == method,
        method != ParsingMethod::Minimal,
        can_record(old(state).metrics, method, outcome_succeeds(outcome), method_ms, total_ms),
    ensures
        final(state).metrics == spec_record(old(state).metrics, method, outcome_succeeds(outcome), method_ms, total_ms),
        outcome_succeeds(outcome) ==> (outcome matches TierOutcome::Tasks(ts) && a matches TierAction::Done(v)
            && v@ == ts@) && final(state).remaining@ == old(state).remaining@ && opt_view_string(final(state).last_error)
            == opt_view_string(old(state).last_error),
        !outcome_succeeds(outcome) ==> {
            &&& final(state).remaining@ == old(state).remaining@.drop_first()
            &&& opt_view_string(final(state).last_error) == match outcome {
                TierOutcome::Failed(e) => Some(method_label(method) + " parsing failed: "@ + e@),
                TierOutcome::Tasks(_) => opt_view_string(old(state).last_error),
            }
            &&& next_action_is(a, final(state).remaining@, opt_view_string(final(state).last_error))
        },
{
    let success = match &outcome {
        TierOutcome::Tasks(ts) => ts.len() > 0,
        TierOutcome::Failed(_) => false,
    };
    state.metrics.record_attempt(method, success, method_ms, total_ms);
    match outcome {
        TierOutcome::Tasks(ts) => {
            if ts.len() > 0 {
                return TierAction::Done(ts);
            }
        },
        TierOutcome::Failed(e) => {
            let mut m = match method {
                ParsingMethod::AST => owned("AST"),
                ParsingMethod::Command => owned("Command"),
                ParsingMethod::Regex => owned("Regex"),
                ParsingMethod::Minimal => owned("Minimal"),
            };
            push_str(&mut m, " parsing failed: ");
            push_str(&mut m, e.as_str());
            state.last_error = Some(m);
        },
    }
    let _ = state.remaining.remove(0);
    if state.remaining.len() > 0 {
        TierAction::Try(state.remaining[0])
    } else {
        let e = match &state.last_error {
            Some(m) => Some(owned(m.as_str())),
            None => None,
        };
        TierAction::Fallback(e)
    }
}

} // verus!

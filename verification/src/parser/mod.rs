//! Justfile parsing: syntax-tree support types and parsing metrics.
pub mod ast;
pub mod just_command;
pub mod tiers;
pub mod legacy;
pub mod justfile;

use vstd::prelude::*;

verus! {

/// Counters of the parsing attempts of each method, and times spent.
#[derive(Debug, Clone, Default)]
pub struct ParsingMetrics {
    pub ast_attempts: u64,
    pub ast_successes: u64,
    pub command_attempts: u64,
    pub command_successes: u64,
    pub regex_attempts: u64,
    pub regex_successes: u64,
    /// Times a minimal task stood in for a recipe.
    pub minimal_task_creations: u64,
    /// Total parsing time in milliseconds.
    pub total_parse_time_ms: u64,
    pub ast_parse_time_ms: u64,
    pub command_parse_time_ms: u64,
    pub regex_parse_time_ms: u64,
}

/// A way of parsing a justfile.
#[derive(Debug, Clone, Copy, PartialEq, Eq)]
pub enum ParsingMethod {
    /// Syntax-tree parsing.
    AST,
    /// Asking the `just` command.
    Command,
    /// Regular expressions.
    Regex,
    /// A minimal task per recipe name.
    Minimal,
}

/// More than eight in ten attempts succeeded.
pub open spec fn mostly_succeeds(successes: u64, attempts: u64) -> bool {
    attempts > 0 && 5 * successes > 4 * attempts
}

/// The first method, in the order syntax tree, command, regular
/// expressions, whose success rate is above eighty percent.
pub open spec fn spec_preferred_method(m: ParsingMetrics) -> ParsingMethod {
    if mostly_succeeds(m.ast_successes, m.ast_attempts) {
        ParsingMethod::AST
    } else if mostly_succeeds(m.command_successes, m.command_attempts) {
        ParsingMethod::Command
    } else if mostly_succeeds(m.regex_successes, m.regex_attempts) {
        ParsingMethod::Regex
    } else {
        ParsingMethod::Minimal
    }
}

/// Whether more than eight in ten attempts succeeded.
fn mostly_succeeds_exec(successes: u64, attempts: u64) -> (b: bool)
    ensures
        b == mostly_succeeds(successes, attempts),
{
    attempts > 0 && 5 * (successes as u128) > 4 * (attempts as u128)
}

impl ParsingMetrics {
    /// The method to prefer: the first, in the order syntax tree, command,
    /// regular expressions, that succeeded in more than eighty percent of its
    /// attempts, else the minimal fallback.
    pub fn preferred_method(&self) -> (m: ParsingMethod)
        ensures
            m == spec_preferred_method(*self),
    {
        if mostly_succeeds_exec(self.ast_successes, self.ast_attempts) {
            ParsingMethod::AST
        } else if mostly_succeeds_exec(self.command_successes, self.command_attempts) {
            ParsingMethod::Command
        } else if mostly_succeeds_exec(self.regex_successes, self.regex_attempts) {
            ParsingMethod::Regex
        } else {
            ParsingMethod::Minimal
        }
    }
}

} // verus!

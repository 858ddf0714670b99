use just_mcp::parser::just_command::unanalyzed_task;
use just_mcp::parser::tiers::{tier_step, TierAction, TierOutcome, TierState};
use just_mcp::parser::{ParsingMethod, ParsingMetrics};

#[test]
fn tiers_run_in_order_and_stop_at_tasks() {
    let (mut state, action) = TierState::start(true, true, true, ParsingMetrics::default());
    assert!(matches!(action, TierAction::Try(ParsingMethod::AST)));
    let a = tier_step(&mut state, ParsingMethod::AST, TierOutcome::Failed("boom".to_string()), 3, 3);
    assert!(matches!(a, TierAction::Try(ParsingMethod::Command)));
    assert_eq!(state.last_error.as_deref(), Some("AST parsing failed: boom"));
    assert_eq!(state.metrics.ast_attempts, 1);
    assert_eq!(state.metrics.ast_successes, 0);
    assert_eq!(state.metrics.ast_parse_time_ms, 3);
    let a = tier_step(&mut state, ParsingMethod::Command, TierOutcome::Tasks(vec![unanalyzed_task("x")]), 2, 7);
    match a {
        TierAction::Done(tasks) => assert_eq!(tasks[0].name, "x"),
        _ => panic!("tasks should end the run"),
    }
    assert_eq!(state.metrics.command_successes, 1);
    assert_eq!(state.metrics.total_parse_time_ms, 7);
}

#[test]
fn empty_results_keep_the_last_error_and_fall_back() {
    let (mut state, action) = TierState::start(false, false, false, ParsingMetrics::default());
    assert!(matches!(action, TierAction::Try(ParsingMethod::Regex)));
    state.last_error = Some("Command parsing failed: x".to_string());
    let a = tier_step(&mut state, ParsingMethod::Regex, TierOutcome::Tasks(Vec::new()), 1, 1);
    match a {
        TierAction::Fallback(e) => assert_eq!(e.as_deref(), Some("Command parsing failed: x")),
        _ => panic!("no parser is left"),
    }
    assert_eq!(state.metrics.regex_attempts, 1);
    assert_eq!(state.metrics.total_parse_time_ms, 0);
}

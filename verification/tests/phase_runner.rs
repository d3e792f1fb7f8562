use scheduler_core::config::StepScope;
use scheduler_core::phase::{
    effective_exit_code, resolved_step_timeout_secs, sample_heartbeat_progress, shell_escape,
    step_scope_label, HeartbeatProgress, DEFAULT_STEP_TIMEOUT_SECS,
    LOW_OUTPUT_DELTA_THRESHOLD_BYTES, VALIDATION_FAILED_EXIT_CODE,
};

#[test]
fn shell_escape_simple_string() {
    assert_eq!(shell_escape("hello"), "'hello'");
}

#[test]
fn shell_escape_string_with_single_quotes() {
    assert_eq!(shell_escape("it's"), "'it'\\''s'");
}

#[test]
fn shell_escape_empty_string() {
    assert_eq!(shell_escape(""), "''");
}

#[test]
fn shell_escape_special_chars_preserved() {
    assert_eq!(shell_escape("$HOME"), "'$HOME'");
    assert_eq!(shell_escape("a b c"), "'a b c'");
    assert_eq!(shell_escape("a`b"), "'a`b'");
}

#[test]
fn resolved_step_timeout_defaults() {
    assert_eq!(resolved_step_timeout_secs(None), DEFAULT_STEP_TIMEOUT_SECS);
    assert_eq!(resolved_step_timeout_secs(Some(60)), 60);
    assert_eq!(resolved_step_timeout_secs(Some(0)), 0);
}

#[test]
fn effective_exit_code_preserves_nonzero_codes() {
    assert_eq!(effective_exit_code(7, "passed"), 7);
    assert_eq!(effective_exit_code(7, "failed"), 7);
}

#[test]
fn effective_exit_code_maps_validation_failure_to_nonzero() {
    assert_eq!(effective_exit_code(0, "failed"), VALIDATION_FAILED_EXIT_CODE);
    assert_eq!(effective_exit_code(0, "passed"), 0);
}

#[test]
fn heartbeat_sample_active_when_output_grows() {
    let mut progress = HeartbeatProgress::default();
    let sample = sample_heartbeat_progress(&mut progress, 256, 0, 30, true);

    assert_eq!(sample.stdout_delta_bytes, 256);
    assert_eq!(sample.stderr_delta_bytes, 0);
    assert_eq!(sample.stagnant_heartbeats, 0);
    assert_eq!(sample.output_state, "active");
}

#[test]
fn heartbeat_sample_quiet_before_threshold() {
    let mut progress = HeartbeatProgress::default();

    let first = sample_heartbeat_progress(&mut progress, 0, 0, 30, true);
    let second = sample_heartbeat_progress(&mut progress, 0, 0, 60, true);

    assert_eq!(first.output_state, "quiet");
    assert_eq!(second.output_state, "quiet");
    assert_eq!(second.stagnant_heartbeats, 2);
}

#[test]
fn heartbeat_sample_low_output_after_three_quiet_heartbeats() {
    let mut progress = HeartbeatProgress::default();

    let _ = sample_heartbeat_progress(&mut progress, 0, 0, 30, true);
    let _ = sample_heartbeat_progress(&mut progress, 0, 0, 60, true);
    let third = sample_heartbeat_progress(&mut progress, 0, 0, 90, true);

    assert_eq!(third.stagnant_heartbeats, 3);
    assert_eq!(third.output_state, "low_output");
}

#[test]
fn heartbeat_sample_resets_quiet_counter_after_output_resumes() {
    let mut progress = HeartbeatProgress::default();

    let _ = sample_heartbeat_progress(&mut progress, 0, 0, 30, true);
    let _ = sample_heartbeat_progress(&mut progress, 0, 0, 60, true);
    let resumed = sample_heartbeat_progress(
        &mut progress,
        LOW_OUTPUT_DELTA_THRESHOLD_BYTES + 64,
        0,
        90,
        true,
    );

    assert_eq!(resumed.stagnant_heartbeats, 0);
    assert_eq!(resumed.output_state, "active");
}

#[test]
fn heartbeat_sample_marks_quiet_when_process_is_not_alive() {
    let mut progress = HeartbeatProgress::default();
    let sample = sample_heartbeat_progress(&mut progress, 0, 0, 120, false);

    assert_eq!(sample.output_state, "quiet");
    assert_eq!(sample.stagnant_heartbeats, 1);
}

#[test]
fn step_scope_label_matches_both_variants() {
    assert_eq!(step_scope_label(StepScope::Task), "task");
    assert_eq!(step_scope_label(StepScope::Item), "item");
}

#[test]
fn heartbeat_sample_delta_exactly_at_threshold_counts_as_stagnant() {
    let mut progress = HeartbeatProgress::default();
    let s1 = sample_heartbeat_progress(&mut progress, LOW_OUTPUT_DELTA_THRESHOLD_BYTES, 0, 30, true);
    assert_eq!(s1.stagnant_heartbeats, 1);

    let s2 = sample_heartbeat_progress(&mut progress, LOW_OUTPUT_DELTA_THRESHOLD_BYTES, 0, 60, true);
    assert_eq!(s2.stagnant_heartbeats, 2);
    assert_eq!(s2.stdout_delta_bytes, 0);
}

#[test]
fn heartbeat_sample_not_alive_overrides_low_output_detection() {
    let mut progress = HeartbeatProgress::default();
    let _ = sample_heartbeat_progress(&mut progress, 0, 0, 30, true);
    let _ = sample_heartbeat_progress(&mut progress, 0, 0, 60, true);
    let _ = sample_heartbeat_progress(&mut progress, 0, 0, 90, true);
    let sample = sample_heartbeat_progress(&mut progress, 0, 0, 120, false);
    assert_eq!(sample.output_state, "quiet");
    assert_eq!(sample.stagnant_heartbeats, 4);
}

#[test]
fn heartbeat_sample_tracks_stderr_delta() {
    let mut progress = HeartbeatProgress::default();
    let _ = sample_heartbeat_progress(&mut progress, 0, 100, 30, true);
    let sample = sample_heartbeat_progress(&mut progress, 0, 300, 60, true);
    assert_eq!(sample.stderr_delta_bytes, 200);
    assert_eq!(sample.stdout_delta_bytes, 0);
    assert_eq!(sample.output_state, "active");
}

#[test]
fn effective_exit_code_with_various_validation_statuses() {
    assert_eq!(effective_exit_code(0, "running"), 0);
    assert_eq!(effective_exit_code(0, "skipped"), 0);
    assert_eq!(effective_exit_code(0, ""), 0);
    assert_eq!(effective_exit_code(0, "Failed"), 0);
}

#[test]
fn shell_escape_multiple_single_quotes() {
    assert_eq!(shell_escape("it's Bob's"), "'it'\\''s Bob'\\''s'");
}

#[test]
fn shell_escape_only_single_quote() {
    assert_eq!(shell_escape("'"), "''\\'''");
}

use codex_runtime::calendar::local_goal_timezone;
use codex_runtime::goal_display::{
    format_goal_elapsed_seconds, goal_status_label, goal_usage_summary, GOAL_USAGE,
};
use codex_runtime::goal_editor::{
    editor_text_in, format_goal_editor_text, parse_goal_editor_text, GoalEditorError,
};
use codex_runtime::protocol::{ThreadGoal, ThreadGoalStage, ThreadGoalStatus};

fn format_tokens_compact(count: i64) -> String {
    if count < 1000 {
        return count.to_string();
    }
    let text = format!("{:.1}", count as f64 / 1000.0);
    format!("{}K", text.trim_end_matches('0').trim_end_matches('.'))
}

#[test]
fn format_goal_elapsed_seconds_is_compact() {
    assert_eq!(format_goal_elapsed_seconds(/*seconds*/ 0), "0s");
    assert_eq!(format_goal_elapsed_seconds(/*seconds*/ 59), "59s");
    assert_eq!(format_goal_elapsed_seconds(/*seconds*/ 60), "1m");
    assert_eq!(format_goal_elapsed_seconds(30 * 60), "30m");
    assert_eq!(format_goal_elapsed_seconds(90 * 60), "1h 30m");
    assert_eq!(format_goal_elapsed_seconds(2 * 60 * 60), "2h");
    let just_before_one_day = 24 * 60 * 60 - 1;
    assert_eq!(format_goal_elapsed_seconds(just_before_one_day), "23h 59m");

    let one_day = 24 * 60 * 60;
    assert_eq!(format_goal_elapsed_seconds(one_day), "1d 0h 0m");

    let almost_three_days = 2 * 24 * 60 * 60 + 23 * 60 * 60 + 42 * 60;
    assert_eq!(format_goal_elapsed_seconds(almost_three_days), "2d 23h 42m");
}

#[test]
fn negative_spans_count_as_none() {
    assert_eq!(format_goal_elapsed_seconds(-1), "0s");
    assert_eq!(format_goal_elapsed_seconds(i64::MIN), "0s");
}

fn test_thread_goal(token_budget: Option<i64>, tokens_used: i64) -> ThreadGoal {
    ThreadGoal {
        timezone: None,
        stages: Vec::new(),
        initial_quota_snapshots: Vec::new(),
        initial_token_budget: None,
        thread_id: "thread-1".to_string(),
        objective: "Complete the task described in ../gameboy-long-running-prompt5.txt"
            .to_string(),
        status: ThreadGoalStatus::BudgetLimited,
        token_budget,
        tokens_used,
        time_used_seconds: 120,
        created_at: 0,
        updated_at: 0,
    }
}

#[test]
fn goal_usage_summary_formats_time_and_budgeted_tokens() {
    assert_eq!(
        goal_usage_summary(
            &test_thread_goal(
                /*token_budget*/ Some(50_000),
                /*tokens_used*/ 63_876,
            ),
            format_tokens_compact
        ),
        "Objective: Complete the task described in ../gameboy-long-running-prompt5.txt Time: 2m. Tokens: 63.9K/50K."
    );
}

#[test]
fn usage_summary_leaves_out_what_there_is_none_of() {
    let mut goal = test_thread_goal(None, 5);
    goal.time_used_seconds = 0;
    goal.objective = "Rest".to_string();
    assert_eq!(goal_usage_summary(&goal, format_tokens_compact), "Objective: Rest");
}

#[test]
fn labels_tell_statuses_apart() {
    assert_eq!(goal_status_label(ThreadGoalStatus::Active), "active");
    assert_eq!(goal_status_label(ThreadGoalStatus::Paused), "paused");
    assert_eq!(goal_status_label(ThreadGoalStatus::Blocked), "stalled");
    assert_eq!(goal_status_label(ThreadGoalStatus::UsageLimited), "usage limited");
    assert_eq!(goal_status_label(ThreadGoalStatus::BudgetLimited), "limited by budget");
    assert_eq!(goal_status_label(ThreadGoalStatus::Complete), "complete");
    assert_eq!(GOAL_USAGE, "Usage: /goal [<objective>|clear|edit|pause|resume]");
}

#[test]
fn schedule_editor_round_trips_explicit_rfc3339_stages() {
    let text = "Ship the release\n--- schedule ---\ntimezone: Asia/Tbilisi\nstage: alpha | Alpha | Build artifact | 2026-09-30T18:00:00+04:00\n";
    let (objective, timezone, stages) =
        parse_goal_editor_text(text, None, Vec::new()).expect("valid schedule");
    assert_eq!(objective, "Ship the release");
    assert_eq!(timezone.as_deref(), Some("Asia/Tbilisi"));
    assert_eq!(stages.len(), 1);
    assert_eq!(stages[0].id, "alpha");
    assert_eq!(stages[0].deadline_at, 1_790_776_800);
}

#[test]
fn schedule_editor_rejects_ambiguous_deadlines_and_ids() {
    let error = parse_goal_editor_text(
        "Goal\n--- schedule ---\nstage: bad id | Label | Result | 2026-09-30 18:00\n",
        None,
        Vec::new(),
    )
    .expect_err("invalid stage should be rejected");
    assert!(
        error
            .message()
            .contains("Stage ids must not contain whitespace")
    );
}

#[test]
fn schedule_editor_preserves_server_delivered_stage() {
    let previous = ThreadGoalStage {
        id: "done".to_string(),
        label: "Server label".to_string(),
        expected_result: "Server result".to_string(),
        deadline_at: 1_790_776_800,
        delivered_at: Some(1_790_000_000),
        delivered_artifact: Some("artifact://server".to_string()),
    };
    let (_, _, stages) = parse_goal_editor_text(
        "Goal\n--- schedule ---\nstage: done | Edited | Spoof | 2027-01-01T00:00:00Z\n",
        Some("UTC".to_string()),
        vec![previous.clone()],
    )
    .expect("valid schedule");
    assert_eq!(stages, vec![previous]);
}

fn stage(id: &str, label: &str, deadline_at: i64) -> ThreadGoalStage {
    ThreadGoalStage {
        id: id.to_string(),
        label: label.to_string(),
        expected_result: "a result".to_string(),
        deadline_at,
        delivered_at: None,
        delivered_artifact: Some("draft".to_string()),
    }
}

#[test]
fn an_unchanged_text_reads_as_the_same_goal() {
    let stages = vec![
        stage("zero", "Zeroth", -62_167_219_200),
        stage("one", "First", 0),
        stage("two", "Zweite \u{e4}", 253_402_300_799),
    ];
    let zone = "Europe/Berlin".to_string();
    let text = format_goal_editor_text("  Ship it \n", Some(&zone), &stages);
    assert_eq!(
        text,
        "  Ship it \n\n--- schedule ---\ntimezone: Europe/Berlin\n\
         stage: zero | Zeroth | a result | 0000-01-01T00:00:00+00:00\n\
         stage: one | First | a result | 1970-01-01T00:00:00+00:00\n\
         stage: two | Zweite \u{e4} | a result | 9999-12-31T23:59:59+00:00\n"
    );
    let parsed = parse_goal_editor_text(&text, None, stages.clone()).expect("same goal");
    assert_eq!(parsed, ("Ship it".to_string(), Some(zone), stages));
}

#[test]
fn a_goal_without_a_timezone_shows_one() {
    let text = format_goal_editor_text("Goal", None, &Vec::new());
    let local = local_goal_timezone();
    assert_eq!(text, format!("Goal\n--- schedule ---\ntimezone: {local}\n"));
}

#[test]
fn a_deadline_beyond_the_calendar_is_shown_as_a_number() {
    let text = editor_text_in("Goal", "UTC", &vec![stage("far", "Far", i64::MAX)]);
    assert!(text.ends_with("stage: far | Far | a result | 9223372036854775807\n"));
}

#[test]
fn a_text_without_a_schedule_keeps_the_one_on_record() {
    let stages = vec![stage("one", "First", 5)];
    let parsed =
        parse_goal_editor_text(" only words ", Some("UTC".to_string()), stages.clone()).unwrap();
    assert_eq!(parsed, ("only words".to_string(), Some("UTC".to_string()), stages));
}

#[test]
fn each_reading_error_has_its_sentence() {
    let read = |schedule: &str| {
        let text = format!("Goal\n--- schedule ---\n{schedule}");
        parse_goal_editor_text(&text, None, Vec::new()).expect_err("not a schedule")
    };
    assert_eq!(read("timezone:  \n"), GoalEditorError::EmptyTimezone);
    assert_eq!(read("timezone:").message(), "Goal timezone must not be empty.");
    assert_eq!(read("\n  soon\n").message(), "Unknown schedule line: soon");
    assert_eq!(read("stage: a | b | c\n"), GoalEditorError::StageShape);
    assert_eq!(
        read("stage: a | | c | 2027-01-01T00:00:00Z\n").message(),
        "Each stage must use: stage: id | label | expected result | RFC3339 deadline"
    );
    assert_eq!(
        read("stage: a b | l | r | 2027-01-01T00:00:00Z\n").message(),
        "Stage ids must not contain whitespace: a b"
    );
    assert_eq!(
        read("stage: a | l | r | 2027-01-01T00:00:00Z\nstage: a | l | r | 2027-01-01T00:00:00Z")
            .message(),
        "Stage ids must be unique: a"
    );
    assert!(matches!(read("stage: a | l | r | tomorrow"), GoalEditorError::Deadline(_)));
    assert_eq!(
        read("stage: a | l | r | tomorrow").message(),
        "premature end of input"
    );
}

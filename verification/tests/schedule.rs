use codex_runtime::protocol::{
    GoalQuotaSnapshot, RateLimitSnapshot, RateLimitWindow, ThreadGoal, ThreadGoalStage,
    ThreadGoalStatus,
};
use codex_runtime::schedule::{
    amount, deadline, duration, model_reminder, remaining_percent, saturating_difference,
    summarize_goal_execution,
};

fn percent(whole: f64) -> i64 {
    (whole * 1_000_000.0) as i64
}

fn goal() -> ThreadGoal {
    ThreadGoal {
        thread_id: "thread-1".to_string(),
        objective: "Deliver the video".to_string(),
        status: ThreadGoalStatus::Active,
        token_budget: Some(10000),
        initial_token_budget: Some(20000),
        tokens_used: 100,
        time_used_seconds: 20,
        created_at: 1_000,
        updated_at: 1_000,
        timezone: Some("Asia/Tbilisi".to_string()),
        initial_quota_snapshots: vec![],
        stages: [4600, 8200]
            .into_iter()
            .enumerate()
            .map(|(i, deadline_at)| ThreadGoalStage {
                id: i.to_string(),
                label: format!("stage {i}"),
                expected_result: "watchable video".to_string(),
                deadline_at,
                delivered_at: None,
                delivered_artifact: None,
            })
            .collect(),
    }
}

fn snapshot(source: &str, used: f64, captured_at: i64) -> GoalQuotaSnapshot {
    GoalQuotaSnapshot {
        captured_at,
        source: source.to_string(),
        scope_id: "account-a".to_string(),
        limits: vec![RateLimitSnapshot {
            limit_id: Some("codex".to_string()),
            primary: Some(RateLimitWindow {
                used_percent: percent(used),
                window_minutes: Some(300),
                resets_at: Some(1790009000),
            }),
            secondary: Some(RateLimitWindow {
                used_percent: percent(45.0),
                window_minutes: Some(10080),
                resets_at: Some(1790080000),
            }),
            credits: None,
            individual_limit: None,
            spend_control_reached: None,
            plan_type: None,
            rate_limit_reached_type: None,
            normal_model_slug: None,
        }],
    }
}

#[test]
fn wall_clock_deadlines_survive_pause_and_revisions() {
    let mut goal = goal();
    let context = summarize_goal_execution(&goal, 2800);
    assert_eq!(
        context.current_stage.as_ref().unwrap().remaining_percent,
        Some(50)
    );
    assert_eq!(context.final_deadline_remaining_percent, Some(75));
    let reminder = model_reminder(&context);
    assert!(reminder.contains("left 0h30m (50%)"));
    assert!(reminder.contains("left 1h30m (75%)"));
    assert!(reminder.contains("1970-01-01T00:16:40Z"));
    assert!(reminder.contains("start=20000 now=10000"));
    goal.status = ThreadGoalStatus::Paused;
    goal.stages[0].deadline_at = 6400;
    let context = summarize_goal_execution(&goal, 2800);
    assert_eq!(context.current_stage.unwrap().remaining_percent, Some(66));
    assert_eq!(context.created_at, 1000);
}

#[test]
fn overdue_and_degenerate_deadlines_do_not_claim_completion() {
    let mut goal = goal();
    goal.stages[0].deadline_at = goal.created_at;
    let context = summarize_goal_execution(&goal, 4600);
    assert_eq!(
        context.current_stage.as_ref().unwrap().remaining_percent,
        Some(0)
    );
    assert_eq!(context.overdue_stage_count, 1);
    let reminder = model_reminder(&context);
    assert!(reminder.contains("overdue 1h00m (0%)"));
    assert!(reminder.contains("show artifact or say none, then continue"));
    assert!(reminder.contains("delegate bounded tasks cheaper"));
    assert_eq!(goal.status, ThreadGoalStatus::Active);
}

#[test]
fn delivered_stage_advances_without_changing_final_deadline() {
    let mut goal = goal();
    goal.stages[0].delivered_at = Some(2000);
    goal.stages[0].delivered_artifact = Some("/tmp/draft.mp4".to_string());
    let context = summarize_goal_execution(&goal, 5000);
    assert_eq!(context.current_stage.as_ref().unwrap().id, "1");
    assert!(model_reminder(&context).contains("/tmp/draft.mp4"));
    assert_eq!(context.overdue_stage_count, 0);
    assert_eq!(context.final_deadline_at, Some(8200));
}

#[test]
fn reminder_has_hard_byte_bound_including_unicode_and_retains_imperative() {
    let mut goal = goal();
    goal.objective = "🦀ѣ中文".repeat(10000);
    goal.stages[0].label = "🦀ѣ中文".repeat(10000);
    let mut context = summarize_goal_execution(&goal, i64::MAX);
    context.timezone = Some("🦀ѣ中文".repeat(10000));
    let reminder = model_reminder(&context);
    assert!(reminder.len() <= 800);
    assert!(reminder.starts_with("Deliver usable work"));
    assert!(reminder.contains("Quota now=unknown"));
    assert!(reminder.contains("delegate bounded tasks cheaper"));
    goal.stages.clear();
    let context = summarize_goal_execution(&goal, 2000);
    assert_eq!(context.current_stage, None);
    assert_eq!(context.final_deadline_at, None);
}

#[test]
fn both_quota_scopes_and_delivery_fit_the_reminder_and_scope_changes_are_unknown() {
    let mut goal = goal();
    goal.created_at = 1_790_000_000;
    goal.stages[0].deadline_at = 1_790_004_600;
    goal.stages[1].deadline_at = 1_790_008_200;
    goal.stages[0].delivered_at = Some(1_790_001_000);
    goal.stages[0].delivered_artifact = Some("/tmp/preview.webm".to_string());
    goal.initial_quota_snapshots = vec![
        snapshot("provider-key", 10.0, goal.created_at),
        snapshot("provider-pool", 20.0, goal.created_at),
    ];
    let mut context = summarize_goal_execution(&goal, 1_790_002_000);
    context.current_quota_snapshots = vec![
        snapshot("provider-key", 30.0, context.now_at),
        snapshot("provider-pool", 40.0, context.now_at),
    ];
    let text = model_reminder(&context);
    assert!(text.len() <= 800, "{text}");
    assert!(!text.contains("More facts"), "{text}");
    assert!(text.contains("300m:90>70"), "{text}");
    assert!(text.contains("300m:80>60"), "{text}");
    assert!(text.contains("/tmp/preview.webm"), "{text}");
    assert!(text.contains("reset=1790009000"), "{text}");
    context.current_quota_snapshots[0].scope_id = "account-b".to_string();
    assert!(model_reminder(&context).contains("300m:unknown>70"));
    context.current_quota_snapshots[0].limits[0]
        .primary
        .as_mut()
        .unwrap()
        .used_percent = percent(0.0);
    assert!(model_reminder(&context).contains("300m:unknown>100"));
}

#[test]
fn reminder_is_exact_where_everything_fits() {
    let mut goal = goal();
    goal.stages.truncate(1);
    goal.stages[0].label = "say \"hi\"".to_string();
    let context = summarize_goal_execution(&goal, 2800);
    let expected = "Deliver usable work; reserve review time; delegate bounded tasks cheaper when authorized. Adjust depth to time/quota. Overdue: show artifact or say none, then continue.\n\
        Goal start=1970-01-01T00:16:40Z now=1970-01-01T00:46:40Z tz=Asia/Tbilisi.\n\
        Next \"say \\\"hi\\\"\": 1970-01-01T01:16:40Z left 0h30m (50%); Final 1970-01-01T01:16:40Z left 0h30m (50%); overdue=0.\n\
        Tokens=100 budget start=20000 now=10000. Quota shared, not reserved; %left start>now; reset/seen=Unix UTC.\n\
        Quota now=unknown.\n\
        Result=none recorded; next output=watchable video.\n";
    assert_eq!(model_reminder(&context), expected);
}

#[test]
fn long_reminder_ends_with_a_pointer_to_more_facts() {
    let mut goal = goal();
    let long = "x".repeat(5000);
    goal.stages[0].expected_result = long.clone();
    goal.stages[0].label = "\"".repeat(24);
    goal.tokens_used = i64::MAX;
    goal.token_budget = Some(i64::MAX);
    goal.initial_token_budget = Some(i64::MAX);
    goal.stages[1].delivered_at = Some(1500);
    goal.stages[1].delivered_artifact = Some(long);
    let mut context = summarize_goal_execution(&goal, 2800);
    context.current_quota_snapshots = vec![
        snapshot("provider-key", 30.0, 2800),
        snapshot("provider-pool", 40.0, 2800),
    ];
    let text = model_reminder(&context);
    assert!(text.len() <= 800);
    assert!(text.ends_with("\n[More facts: get_goal.]"), "{text}");
}

#[test]
fn percent_of_time_left_is_whole_and_clamped() {
    assert_eq!(remaining_percent(0, 100, 25), Some(75));
    assert_eq!(remaining_percent(0, 3, 1), Some(66));
    assert_eq!(remaining_percent(50, 100, 0), Some(100));
    assert_eq!(remaining_percent(100, 100, 0), None);
    assert_eq!(remaining_percent(0, 100, 100), Some(0));
    assert_eq!(remaining_percent(i64::MIN, i64::MAX, 0), Some(49));
}

#[test]
fn spans_and_amounts_are_short() {
    assert_eq!(duration(5400), "1h30m");
    assert_eq!(duration(59), "0h00m");
    assert_eq!(amount(Some(-5)), "-5");
    assert_eq!(saturating_difference(i64::MAX, -1), i64::MAX);
    assert_eq!(saturating_difference(i64::MIN, 1), i64::MIN);
    assert_eq!(saturating_difference(7, 9), -2);
    assert_eq!(deadline(0, -3600, Some(0)), "1970-01-01T00:00:00Z overdue 1h00m (0%)");
}

#[test]
fn the_latest_delivery_and_the_earliest_deadline_count() {
    let mut goal = goal();
    goal.stages[0].delivered_at = Some(3000);
    goal.stages[0].delivered_artifact = Some("first".to_string());
    goal.stages[1].delivered_at = Some(2000);
    goal.stages[1].delivered_artifact = Some("second".to_string());
    let context = summarize_goal_execution(&goal, 9000);
    assert_eq!(context.latest_delivered_artifact.as_deref(), Some("first"));
    assert_eq!(context.latest_delivered_at, Some(3000));
    assert_eq!(context.current_stage, None);
    assert_eq!(context.overdue_stage_count, 0);
    assert_eq!(context.final_deadline_overdue_seconds, Some(800));
}

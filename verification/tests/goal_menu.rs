use codex_runtime::goal_menu::{
    edited_goal_status, format_stage_remaining, goal_summary_lines_at, ChatWidget, Line, Span,
    SpanStyle,
};
use codex_runtime::protocol::{ThreadGoal, ThreadGoalStage, ThreadGoalStatus};

fn goal() -> ThreadGoal {
    ThreadGoal {
        thread_id: "thread-1".to_string(),
        objective: "Ship".to_string(),
        status: ThreadGoalStatus::Paused,
        token_budget: Some(50),
        tokens_used: 7,
        time_used_seconds: 61,
        created_at: 0,
        updated_at: 0,
        timezone: Some("UTC".to_string()),
        stages: vec![
            ThreadGoalStage {
                id: "a".to_string(),
                label: "Alpha".to_string(),
                expected_result: "draft".to_string(),
                deadline_at: 3600,
                delivered_at: Some(10),
                delivered_artifact: Some("draft.md".to_string()),
            },
            ThreadGoalStage {
                id: "b".to_string(),
                label: "Beta".to_string(),
                expected_result: "release".to_string(),
                deadline_at: 7200,
                delivered_at: None,
                delivered_artifact: None,
            },
        ],
        initial_quota_snapshots: Vec::new(),
        initial_token_budget: None,
    }
}

fn text_of(line: &Line) -> String {
    line.spans.iter().map(|span| span.text.clone()).collect()
}

fn tokens(count: i64) -> String {
    format!("{count}t")
}

#[test]
fn a_summary_lists_usage_schedule_and_commands() {
    let lines = goal_summary_lines_at(&goal(), 9000, tokens);
    let texts: Vec<String> = lines.iter().map(text_of).collect();
    assert_eq!(
        texts,
        vec![
            "Goal",
            "Status: paused",
            "Objective: Ship",
            "Time used: 1m",
            "Tokens used: 7t",
            "Token budget: 50t",
            "Timezone: UTC",
            "Stages",
            "  Alpha [1970-01-01 01:00 UTC] \u{2014} draft; result: draft.md",
            "  Beta [1970-01-01 02:00 UTC] \u{2014} release",
            "  Current: Beta \u{2014} overdue by 30m",
            "  Final: 7200 \u{2014} overdue by 30m",
            "",
            "Commands: /goal edit, /goal resume, /goal clear",
        ]
    );
    assert_eq!(
        lines[0].spans,
        vec![Span {
            text: "Goal".to_string(),
            style: SpanStyle::Bold
        }]
    );
    assert_eq!(lines[1].spans[0].style, SpanStyle::Dim);
    assert_eq!(lines[1].spans[1].style, SpanStyle::Plain);
    assert!(lines[12].spans.is_empty());
    assert_eq!(lines[13].spans[0].style, SpanStyle::Dim);
}

#[test]
fn a_summary_without_schedule_is_short() {
    let mut goal = goal();
    goal.stages.clear();
    goal.timezone = None;
    goal.token_budget = None;
    goal.status = ThreadGoalStatus::Complete;
    let texts: Vec<String> = goal_summary_lines_at(&goal, 0, tokens).iter().map(text_of).collect();
    assert_eq!(
        texts,
        vec![
            "Goal",
            "Status: complete",
            "Objective: Ship",
            "Time used: 1m",
            "Tokens used: 7t",
            "",
            "Commands: /goal edit, /goal clear",
        ]
    );
}

#[test]
fn a_deadline_outside_the_calendar_is_called_invalid() {
    let mut goal = goal();
    goal.stages.truncate(1);
    goal.stages[0].deadline_at = i64::MAX;
    let lines = goal_summary_lines_at(&goal, 0, tokens);
    assert!(text_of(&lines[8]).starts_with("  Alpha [invalid deadline]"));
}

#[test]
fn remaining_time_turns_into_delay() {
    assert_eq!(format_stage_remaining(90, 0), "1m remaining");
    assert_eq!(format_stage_remaining(-90, 90), "overdue by 1m");
}

#[test]
fn an_edit_revives_a_goal_that_had_ended() {
    assert_eq!(edited_goal_status(ThreadGoalStatus::Active), ThreadGoalStatus::Active);
    assert_eq!(edited_goal_status(ThreadGoalStatus::Paused), ThreadGoalStatus::Paused);
    assert_eq!(edited_goal_status(ThreadGoalStatus::Blocked), ThreadGoalStatus::Blocked);
    assert_eq!(
        edited_goal_status(ThreadGoalStatus::UsageLimited),
        ThreadGoalStatus::UsageLimited
    );
    assert_eq!(edited_goal_status(ThreadGoalStatus::BudgetLimited), ThreadGoalStatus::Active);
    assert_eq!(edited_goal_status(ThreadGoalStatus::Complete), ThreadGoalStatus::Active);
}

fn widget() -> ChatWidget {
    ChatWidget {
        thread_id: Some("thread-1".to_string()),
        current_goal_status: Some(ThreadGoalStatus::Active),
    }
}

#[test]
fn the_edit_prompt_submits_its_text_with_the_schedule_on_record() {
    let goal = goal();
    let prompt = widget().show_goal_edit_prompt("thread-1".to_string(), &goal);
    assert_eq!(prompt.title, "Edit goal");
    assert_eq!(prompt.placeholder, "Type a goal objective and press Enter");
    assert_eq!(prompt.context_label, None);
    assert!(prompt.initial_text.starts_with("Ship\n--- schedule ---\ntimezone: UTC\nstage: a | Alpha"));
    let edit = prompt.submit("new words".to_string());
    assert_eq!(edit.thread_id, "thread-1");
    assert_eq!(edit.status, ThreadGoalStatus::Paused);
    assert_eq!(edit.token_budget, Some(50));
    assert_eq!(edit.draft.objective, "new words");
    assert_eq!(edit.draft.schedule_editor_text.as_deref(), Some("new words"));
    assert_eq!(edit.draft.timezone.as_deref(), Some("UTC"));
    assert_eq!(edit.draft.stages, Some(goal.stages));
}

#[test]
fn the_resume_menu_offers_to_resume_or_to_leave() {
    let view = widget().show_resume_paused_goal_prompt("t".to_string(), "Ship".to_string());
    assert_eq!(view.title.as_deref(), Some("Resume paused goal?"));
    assert_eq!(view.subtitle.as_deref(), Some("Goal: Ship"));
    assert_eq!(view.initial_selected_idx, Some(0));
    assert_eq!(view.items.len(), 2);
    assert_eq!(view.items[0].name, "Resume goal");
    let action = view.items[0].action.as_ref().unwrap();
    assert_eq!(action.thread_id, "t");
    assert_eq!(action.status, ThreadGoalStatus::Active);
    assert_eq!(view.items[1].name, "Leave paused");
    assert_eq!(view.items[1].action, None);
    assert!(view.items[0].dismiss_on_select && view.items[1].dismiss_on_select);
}

#[test]
fn only_the_goal_of_the_thread_on_show_is_forgotten() {
    let mut widget = widget();
    assert!(!widget.on_thread_goal_cleared("thread-2"));
    assert_eq!(widget.current_goal_status, Some(ThreadGoalStatus::Active));
    assert!(widget.on_thread_goal_cleared("thread-1"));
    assert_eq!(widget.current_goal_status, None);
    widget.thread_id = None;
    assert!(!widget.on_thread_goal_cleared("thread-1"));
}

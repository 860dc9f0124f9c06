use codex_runtime::calendar::local_goal_timezone;
use codex_runtime::goal_spec::{FieldKind, Parameter, CREATE_DESCRIPTION};
use codex_runtime::goal_tool::{
    account_active_goal_progress, advance_accounting, completion_budget_report,
    current_goal_status_for_metrics, protocol_goal_from_state, protocol_status_from_state,
    state_status_from_protocol, validate_goal_budget, CompletionBudgetReport, CreateGoalRequest,
    FunctionCallError, GoalAccountingMode, GoalAccountingOutcome, GoalScheduleUpdate,
    GoalToolAction, GoalToolEvent, GoalToolExecutor, GoalToolKind, GoalToolPhase,
    GoalToolResponse, GoalToolStep, ProgressAction, ProgressEvent, ProgressPhase,
    ProgressSnapshot, StoredGoal, StoredGoalStatus, UpdateGoalArgs,
};
use codex_runtime::protocol::{ThreadGoalStage, ThreadGoalStatus};

fn stored(status: StoredGoalStatus) -> StoredGoal {
    StoredGoal {
        thread_id: "thread".to_string(),
        goal_id: "goal".to_string(),
        objective: "Ship".to_string(),
        status,
        token_budget: Some(100),
        tokens_used: 30,
        time_used_seconds: 5,
        created_at: 1,
        updated_at: 2,
        timezone: None,
        stages: Vec::new(),
        initial_quota_snapshots: Vec::new(),
        initial_token_budget: Some(100),
    }
}

fn request(token_budget: Option<i64>, stages: Option<Vec<ThreadGoalStage>>) -> CreateGoalRequest {
    CreateGoalRequest {
        objective: "  Ship \n".to_string(),
        token_budget,
        timezone: None,
        stages,
    }
}

fn objective_ok(objective: &String) -> Result<(), String> {
    if objective.is_empty() {
        Err("goal objective must not be empty".to_string())
    } else {
        Ok(())
    }
}

fn stages_ok(stages: &Vec<ThreadGoalStage>) -> Result<(), String> {
    if stages.len() > 1 {
        Err("too many stages".to_string())
    } else {
        Ok(())
    }
}

fn args() -> UpdateGoalArgs {
    UpdateGoalArgs {
        status: None,
        timezone: None,
        stages: None,
        stage_id: None,
        delivered_artifact: None,
    }
}

fn told<T: std::fmt::Debug>(outcome: Result<T, FunctionCallError>) -> String {
    match outcome {
        Err(FunctionCallError::RespondToModel(message)) => message,
        other => panic!("expected a message, got {other:?}"),
    }
}

fn create(max: Option<i64>, request: CreateGoalRequest) -> Result<GoalToolStep, FunctionCallError> {
    GoalToolExecutor::create("thread".to_string(), max).handle_create(request, objective_ok, stages_ok)
}

fn update(args: UpdateGoalArgs) -> Result<GoalToolStep, FunctionCallError> {
    GoalToolExecutor::update("thread".to_string()).handle_update(args, stages_ok)
}

#[test]
fn budgets_are_positive_and_within_the_maximum() {
    assert_eq!(validate_goal_budget(None, Some(5)), Ok(()));
    assert_eq!(validate_goal_budget(Some(5), Some(5)), Ok(()));
    assert_eq!(
        validate_goal_budget(Some(0), None),
        Err("goal budgets must be positive when provided".to_string())
    );
    assert_eq!(
        validate_goal_budget(Some(6), Some(5)),
        Err("goal token budget 6 exceeds the maximum allowed goal token budget of 5".to_string())
    );
}

#[test]
fn a_creation_trims_its_objective_and_takes_the_maximum_budget() {
    let step = create(Some(500), request(None, None)).unwrap();
    assert_eq!(
        step.action,
        GoalToolAction::InsertGoal {
            objective: "Ship".to_string(),
            token_budget: Some(500),
        }
    );
    assert_eq!(
        step.phase,
        GoalToolPhase::Inserting {
            timezone: None,
            stages: None
        }
    );
}

#[test]
fn a_creation_is_refused_before_the_store_is_asked() {
    let mut empty = request(None, None);
    empty.objective = "   ".to_string();
    assert_eq!(told(create(None, empty)), "goal objective must not be empty");
    assert_eq!(
        told(create(Some(5), request(Some(6), None))),
        "goal token budget 6 exceeds the maximum allowed goal token budget of 5"
    );
    let stage = || ThreadGoalStage {
        id: "a".to_string(),
        label: "A".to_string(),
        expected_result: "r".to_string(),
        deadline_at: 9,
        delivered_at: None,
        delivered_artifact: None,
    };
    assert_eq!(
        told(create(None, request(None, Some(vec![stage(), stage()])))),
        "too many stages"
    );
}

#[test]
fn a_creation_runs_to_its_answer() {
    let mut tool = GoalToolExecutor::create("thread".to_string(), None);
    tool.has_quota = true;
    let mut asked = request(Some(100), Some(Vec::new()));
    asked.timezone = Some("UTC".to_string());
    let step = tool.handle_create(asked, objective_ok, stages_ok).unwrap();
    let step = tool
        .advance(step.phase, GoalToolEvent::Goal(Ok(Some(stored(StoredGoalStatus::Active)))))
        .unwrap();
    assert_eq!(
        step.action,
        GoalToolAction::UpdateSchedule(GoalScheduleUpdate {
            timezone: Some("UTC".to_string()),
            stages: Vec::new(),
            expected_goal_id: Some("goal".to_string()),
        })
    );
    let step = tool
        .advance(step.phase, GoalToolEvent::Goal(Ok(Some(stored(StoredGoalStatus::Active)))))
        .unwrap();
    assert_eq!(step.action, GoalToolAction::TakeQuota);
    let step = tool.advance(step.phase, GoalToolEvent::Quota(Vec::new())).unwrap();
    assert_eq!(
        step.action,
        GoalToolAction::StoreBaseline {
            goal_id: "goal".to_string(),
            snapshots: Vec::new(),
        }
    );
    let step = tool.advance(step.phase, GoalToolEvent::Goal(Ok(None))).unwrap();
    assert_eq!(step.action, GoalToolAction::EnterTurn);
    let step = tool
        .advance(step.phase, GoalToolEvent::Turn(Some("turn".to_string())))
        .unwrap();
    assert_eq!(
        step.action,
        GoalToolAction::Announce {
            turn_id: Some("turn".to_string())
        }
    );
    let step = tool.advance(step.phase, GoalToolEvent::Announced).unwrap();
    assert_eq!(step.action, GoalToolAction::TakeQuota);
    let step = tool.advance(step.phase, GoalToolEvent::Quota(Vec::new())).unwrap();
    assert_eq!(step.phase, GoalToolPhase::Finished);
    match step.action {
        GoalToolAction::Respond(response) => {
            assert_eq!(response.remaining_tokens, Some(70));
            assert_eq!(response.completion_budget_report, None);
        }
        other => panic!("expected an answer, got {other:?}"),
    }
}

#[test]
fn a_schedule_without_a_timezone_gets_the_one_of_the_machine() {
    let tool = GoalToolExecutor::create("thread".to_string(), None);
    let step = tool
        .handle_create(request(None, Some(Vec::new())), objective_ok, stages_ok)
        .unwrap();
    let step = tool
        .advance(step.phase, GoalToolEvent::Goal(Ok(Some(stored(StoredGoalStatus::Active)))))
        .unwrap();
    match step.action {
        GoalToolAction::UpdateSchedule(update) => {
            assert_eq!(update.timezone, Some(local_goal_timezone()));
        }
        other => panic!("expected a schedule, got {other:?}"),
    }
}

#[test]
fn failures_of_the_store_are_told() {
    let tool = GoalToolExecutor::create("thread".to_string(), None);
    let inserting = || GoalToolPhase::Inserting {
        timezone: None,
        stages: None,
    };
    let failed = || GoalToolEvent::Goal(Err("disk".to_string()));
    let none = || GoalToolEvent::Goal(Ok(None));
    assert_eq!(told(tool.advance(inserting(), failed())), "failed to create goal: disk");
    assert_eq!(
        told(tool.advance(inserting(), none())),
        "cannot create a new goal because this thread has an unfinished goal; complete the existing goal first"
    );
    assert_eq!(
        told(tool.advance(GoalToolPhase::SchedulingNew, failed())),
        "failed to schedule goal: disk"
    );
    assert_eq!(
        told(tool.advance(GoalToolPhase::SchedulingNew, none())),
        "goal disappeared while scheduling"
    );
    assert_eq!(
        told(tool.advance(
            GoalToolPhase::StoringBaseline {
                goal: stored(StoredGoalStatus::Active)
            },
            failed()
        )),
        "failed to capture goal baseline: disk"
    );
    assert_eq!(
        told(tool.advance(GoalToolPhase::ReadingGoal, failed())),
        "failed to read goal: disk"
    );
    assert_eq!(
        told(tool.advance(GoalToolPhase::Delivering, failed())),
        "failed to record stage delivery: disk"
    );
    assert_eq!(
        told(tool.advance(GoalToolPhase::Delivering, none())),
        "goal or stage not found, or changed concurrently; read get_goal"
    );
    assert_eq!(
        told(tool.advance(GoalToolPhase::Rescheduling, failed())),
        "failed to update goal schedule: disk"
    );
    assert_eq!(
        told(tool.advance(GoalToolPhase::Rescheduling, none())),
        "cannot update goal schedule because this thread has no goal"
    );
    let updating = || GoalToolPhase::UpdatingStatus {
        status: ThreadGoalStatus::Paused,
        previous: None,
    };
    assert_eq!(told(tool.advance(updating(), failed())), "failed to update goal: disk");
    assert_eq!(
        told(tool.advance(updating(), none())),
        "cannot update goal because this thread has no goal"
    );
}

#[test]
fn an_update_asks_for_one_thing() {
    let mut two = args();
    two.status = Some(ThreadGoalStatus::Complete);
    two.timezone = Some("UTC".to_string());
    assert_eq!(
        told(update(two)),
        "update_goal accepts one operation: status, schedule, or stage delivery"
    );
    assert_eq!(
        told(update(args())),
        "update_goal requires status, stages, or stage delivery"
    );
    let mut zone = args();
    zone.timezone = Some("UTC".to_string());
    assert_eq!(
        told(update(zone)),
        "update_goal requires status, stages, or stage delivery"
    );
}

#[test]
fn a_delivery_names_a_stage_and_an_artifact() {
    let deliver = |stage_id: Option<&str>, artifact: Option<&str>| {
        let mut given = args();
        given.stage_id = stage_id.map(str::to_string);
        given.delivered_artifact = artifact.map(str::to_string);
        update(given)
    };
    assert_eq!(
        told(deliver(Some("a"), None)),
        "stage delivery requires both stage_id and delivered_artifact"
    );
    let empty = "stage delivery needs a nonempty stage_id and artifact reference (at most 8192 bytes)";
    assert_eq!(told(deliver(Some(" "), Some("x"))), empty);
    assert_eq!(told(deliver(Some("a"), Some("\n"))), empty);
    assert_eq!(told(deliver(Some("a"), Some(&"x".repeat(8193)))), empty);
    assert_eq!(
        deliver(Some("a"), Some("x")).unwrap().action,
        GoalToolAction::RecordDelivery {
            stage_id: "a".to_string(),
            artifact: "x".to_string(),
        }
    );
    assert!(deliver(Some("a"), Some(&"x".repeat(8192))).is_ok());
}

#[test]
fn a_schedule_is_checked_and_kept_as_given() {
    let mut given = args();
    given.stages = Some(Vec::new());
    given.timezone = Some("UTC".to_string());
    let step = update(given).unwrap();
    assert_eq!(step.phase, GoalToolPhase::Rescheduling);
    assert_eq!(
        step.action,
        GoalToolAction::UpdateSchedule(GoalScheduleUpdate {
            timezone: Some("UTC".to_string()),
            stages: Vec::new(),
            expected_goal_id: None,
        })
    );
}

#[test]
fn a_model_may_complete_block_or_pause_and_nothing_else() {
    let ask = |status| {
        let mut given = args();
        given.status = Some(status);
        update(given)
    };
    assert_eq!(
        ask(ThreadGoalStatus::Complete).unwrap().action,
        GoalToolAction::AccountProgress {
            mode: GoalAccountingMode::ActiveOrComplete
        }
    );
    for status in [ThreadGoalStatus::Blocked, ThreadGoalStatus::Paused] {
        assert_eq!(
            ask(status).unwrap().action,
            GoalToolAction::AccountProgress {
                mode: GoalAccountingMode::ActiveOrStopped
            }
        );
    }
    for status in [
        ThreadGoalStatus::Active,
        ThreadGoalStatus::UsageLimited,
        ThreadGoalStatus::BudgetLimited,
    ] {
        assert!(told(ask(status)).starts_with("update_goal can only mark the existing goal complete"));
    }
}

#[test]
fn a_completion_runs_to_its_report() {
    let tool = GoalToolExecutor::update("thread".to_string());
    let mut given = args();
    given.status = Some(ThreadGoalStatus::Complete);
    let step = tool.handle_update(given, stages_ok).unwrap();
    let step = tool.advance(step.phase, GoalToolEvent::Accounted(Ok(()))).unwrap();
    assert_eq!(step.action, GoalToolAction::ReadGoal);
    let step = tool
        .advance(step.phase, GoalToolEvent::Goal(Ok(Some(stored(StoredGoalStatus::Active)))))
        .unwrap();
    assert_eq!(
        step.action,
        GoalToolAction::UpdateStatus {
            status: StoredGoalStatus::Complete
        }
    );
    let step = tool
        .advance(step.phase, GoalToolEvent::Goal(Ok(Some(stored(StoredGoalStatus::Complete)))))
        .unwrap();
    assert_eq!(
        step.action,
        GoalToolAction::LeaveTurn {
            previous: Some(StoredGoalStatus::Active)
        }
    );
    let step = tool.advance(step.phase, GoalToolEvent::Turn(None)).unwrap();
    assert_eq!(step.action, GoalToolAction::Announce { turn_id: None });
    let step = tool.advance(step.phase, GoalToolEvent::Announced).unwrap();
    match step.action {
        GoalToolAction::Respond(response) => assert!(response
            .completion_budget_report
            .unwrap()
            .starts_with("Goal achieved. Report final usage")),
        other => panic!("expected an answer, got {other:?}"),
    }
}

#[test]
fn an_update_ends_where_usage_cannot_be_counted() {
    let tool = GoalToolExecutor::update("thread".to_string());
    let outcome = tool.advance(
        GoalToolPhase::Accounting {
            status: ThreadGoalStatus::Paused,
        },
        GoalToolEvent::Accounted(Err(FunctionCallError::Fatal("closed".to_string()))),
    );
    assert_eq!(outcome, Err(FunctionCallError::Fatal("closed".to_string())));
}

#[test]
fn an_answer_counts_what_is_left_and_never_less_than_nothing() {
    let mut goal = protocol_goal_from_state(stored(StoredGoalStatus::Complete));
    goal.tokens_used = 130;
    let response = GoalToolResponse::new(Some(goal.clone()), CompletionBudgetReport::Include);
    assert_eq!(response.remaining_tokens, Some(0));
    assert!(response.completion_budget_report.is_some());
    goal.status = ThreadGoalStatus::Active;
    let response = GoalToolResponse::new(Some(goal.clone()), CompletionBudgetReport::Include);
    assert_eq!(response.completion_budget_report, None);
    goal.token_budget = None;
    goal.time_used_seconds = 0;
    assert_eq!(completion_budget_report(&goal), None);
    let response = GoalToolResponse::new(None, CompletionBudgetReport::Omit);
    assert_eq!(response.remaining_tokens, None);
}

#[test]
fn statuses_keep_their_meaning_in_the_store() {
    for status in [
        ThreadGoalStatus::Active,
        ThreadGoalStatus::Paused,
        ThreadGoalStatus::Blocked,
        ThreadGoalStatus::UsageLimited,
        ThreadGoalStatus::BudgetLimited,
        ThreadGoalStatus::Complete,
    ] {
        assert_eq!(protocol_status_from_state(state_status_from_protocol(status)), status);
    }
}

#[test]
fn tools_need_a_thread_that_persists() {
    let mut tool = GoalToolExecutor::get("thread".to_string());
    assert_eq!(tool.handle(), Ok(GoalToolKind::Get));
    assert_eq!(tool.tool_name(), "get_goal");
    tool.execution_allowed = false;
    assert_eq!(told(tool.handle()), "Goal tools require a persistent thread.");
    let step = tool.handle_get().unwrap();
    assert_eq!(step.action, GoalToolAction::ReadGoal);
    let step = tool.advance(step.phase, GoalToolEvent::Goal(Ok(None))).unwrap();
    assert_eq!(
        step.action,
        GoalToolAction::Respond(GoalToolResponse {
            goal: None,
            remaining_tokens: None,
            completion_budget_report: None,
            current_quota_snapshots: Vec::new(),
        })
    );
}

#[test]
fn tools_are_offered_with_their_parameters_in_order() {
    let create = GoalToolExecutor::create("thread".to_string(), None).spec();
    assert_eq!(create.name, "create_goal");
    assert!(!create.strict);
    assert_eq!(create.required, vec!["objective"]);
    let names: Vec<&str> = create
        .parameters
        .iter()
        .map(|parameter| match parameter {
            Parameter::Simple(field) => field.name,
            Parameter::List(list) => list.name,
        })
        .collect();
    assert_eq!(names, vec!["objective", "stages", "timezone", "token_budget"]);
    assert!(CREATE_DESCRIPTION.contains("use update_goal for status or user-requested schedule changes"));
    let update = GoalToolExecutor::update("thread".to_string()).spec();
    assert!(update.required.is_empty());
    match &update.parameters[3] {
        Parameter::Simple(field) => assert_eq!(
            field.kind,
            FieldKind::Choice(vec!["complete", "blocked", "paused"])
        ),
        other => panic!("expected the status, got {other:?}"),
    }
    assert!(GoalToolExecutor::get("thread".to_string()).spec().parameters.is_empty());
}

#[test]
fn usage_is_counted_for_the_goal_of_the_turn() {
    assert_eq!(
        account_active_goal_progress(None).action,
        ProgressAction::Finish { changed: None }
    );
    let mode = GoalAccountingMode::ActiveOrStopped;
    let step = account_active_goal_progress(Some("turn".to_string()));
    assert_eq!(step.action, ProgressAction::AcquirePermit);
    let step = advance_accounting(mode, step.phase, ProgressEvent::Permit(Ok(()))).unwrap();
    assert_eq!(step.action, ProgressAction::ReadProgress);
    let snapshot = ProgressSnapshot {
        expected_goal_id: "goal".to_string(),
        time_delta_seconds: 3,
        token_delta: 4,
    };
    let step = advance_accounting(mode, step.phase, ProgressEvent::Progress(Some(snapshot))).unwrap();
    assert_eq!(step.action, ProgressAction::ReadGoal);
    let step = advance_accounting(
        mode,
        step.phase,
        ProgressEvent::Goal(Ok(Some(stored(StoredGoalStatus::Active)))),
    )
    .unwrap();
    assert_eq!(
        step.action,
        ProgressAction::CountUsage {
            time_delta_seconds: 3,
            token_delta: 4,
            mode,
            expected_goal_id: "goal".to_string(),
        }
    );
    let step = advance_accounting(
        mode,
        step.phase,
        ProgressEvent::Counted(Ok(GoalAccountingOutcome::Updated(stored(
            StoredGoalStatus::BudgetLimited,
        )))),
    )
    .unwrap();
    assert_eq!(step.action, ProgressAction::Announce);
    match &step.phase {
        ProgressPhase::Announcing { previous, goal, .. } => {
            assert_eq!(*previous, Some(StoredGoalStatus::Active));
            assert_eq!(goal.status, StoredGoalStatus::BudgetLimited);
        }
        other => panic!("expected an announcement, got {other:?}"),
    }
    let step = advance_accounting(mode, step.phase, ProgressEvent::Announced).unwrap();
    assert_eq!(
        step.action,
        ProgressAction::Finish {
            changed: Some(protocol_goal_from_state(stored(
                StoredGoalStatus::BudgetLimited
            )))
        }
    );
}

#[test]
fn counting_fails_with_its_reason() {
    let mode = GoalAccountingMode::ActiveOrComplete;
    let turn = || "turn".to_string();
    let snapshot = || ProgressSnapshot {
        expected_goal_id: "goal".to_string(),
        time_delta_seconds: 3,
        token_delta: 4,
    };
    assert_eq!(
        advance_accounting(
            mode,
            ProgressPhase::AwaitingPermit { turn_id: turn() },
            ProgressEvent::Permit(Err("closed".to_string()))
        ),
        Err(FunctionCallError::Fatal(
            "goal progress accounting semaphore closed: closed".to_string()
        ))
    );
    assert_eq!(
        told(advance_accounting(
            mode,
            ProgressPhase::Counting {
                turn_id: turn(),
                snapshot: snapshot(),
                previous: None
            },
            ProgressEvent::Counted(Err("disk".to_string()))
        )),
        "failed to account goal progress: disk"
    );
    let unchanged = advance_accounting(
        mode,
        ProgressPhase::Counting {
            turn_id: turn(),
            snapshot: snapshot(),
            previous: None,
        },
        ProgressEvent::Counted(Ok(GoalAccountingOutcome::Unchanged)),
    );
    assert_eq!(
        unchanged.unwrap().action,
        ProgressAction::Finish { changed: None }
    );
}

#[test]
fn the_status_of_another_goal_does_not_count() {
    let other = "other".to_string();
    let same = "goal".to_string();
    let read = || Ok(Some(stored(StoredGoalStatus::Paused)));
    assert_eq!(current_goal_status_for_metrics(read(), Some(&other)), Ok(None));
    assert_eq!(
        current_goal_status_for_metrics(read(), Some(&same)),
        Ok(Some(StoredGoalStatus::Paused))
    );
    assert_eq!(
        current_goal_status_for_metrics(read(), None),
        Ok(Some(StoredGoalStatus::Paused))
    );
    assert_eq!(
        told(current_goal_status_for_metrics(Err("disk".to_string()), None)),
        "failed to read goal metrics status: disk"
    );
}

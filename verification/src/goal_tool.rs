//! What the goal tools decide: which requests they take, in which order they work on the store, and
//! what they answer. The store, the clock and the event stream lie outside; a run of a tool names
//! the action to perform next and goes on with what came of it.

use crate::calendar::{is_local_timezone, local_goal_timezone};
use crate::goal_spec::{
    create_create_goal_tool, create_get_goal_tool, create_goal_tool, create_update_goal_tool,
    get_goal_tool, update_goal_tool, ToolModel, ToolSpec, CREATE_GOAL_TOOL_NAME,
    GET_GOAL_TOOL_NAME, UPDATE_GOAL_TOOL_NAME,
};
use crate::protocol::{
    clone_snapshots, clone_stages, GoalQuotaSnapshot, ThreadGoal, ThreadGoalStage,
    ThreadGoalStatus,
};
use crate::text::{integer_text, is_blank, signed_text, trim, trimmed, utf8_len};
use vstd::prelude::*;

verus! {

/// The status of a goal in the store.
#[derive(Debug, Clone, Copy, PartialEq, Eq, Structural)]
pub enum StoredGoalStatus {
    Active,
    Paused,
    Blocked,
    UsageLimited,
    BudgetLimited,
    Complete,
}

/// A goal in the store.
#[derive(Debug, PartialEq)]
pub struct StoredGoal {
    pub thread_id: String,
    pub goal_id: String,
    pub objective: String,
    pub status: StoredGoalStatus,
    pub token_budget: Option<i64>,
    pub tokens_used: i64,
    pub time_used_seconds: i64,
    /// Unix seconds.
    pub created_at: i64,
    /// Unix seconds.
    pub updated_at: i64,
    pub timezone: Option<String>,
    pub stages: Vec<ThreadGoalStage>,
    pub initial_quota_snapshots: Vec<GoalQuotaSnapshot>,
    pub initial_token_budget: Option<i64>,
}

/// The status that a stored status stands for.
pub open spec fn protocol_status(status: StoredGoalStatus) -> ThreadGoalStatus {
    match status {
        StoredGoalStatus::Active => ThreadGoalStatus::Active,
        StoredGoalStatus::Paused => ThreadGoalStatus::Paused,
        StoredGoalStatus::Blocked => ThreadGoalStatus::Blocked,
        StoredGoalStatus::UsageLimited => ThreadGoalStatus::UsageLimited,
        StoredGoalStatus::BudgetLimited => ThreadGoalStatus::BudgetLimited,
        StoredGoalStatus::Complete => ThreadGoalStatus::Complete,
    }
}

/// The status that a stored status stands for.
pub fn protocol_status_from_state(status: StoredGoalStatus) -> (shown: ThreadGoalStatus)
    ensures
        shown == protocol_status(status),
{
    match status {
        StoredGoalStatus::Active => ThreadGoalStatus::Active,
        StoredGoalStatus::Paused => ThreadGoalStatus::Paused,
        StoredGoalStatus::Blocked => ThreadGoalStatus::Blocked,
        StoredGoalStatus::UsageLimited => ThreadGoalStatus::UsageLimited,
        StoredGoalStatus::BudgetLimited => ThreadGoalStatus::BudgetLimited,
        StoredGoalStatus::Complete => ThreadGoalStatus::Complete,
    }
}

/// The stored form of a status: the one that stands for it.
pub fn state_status_from_protocol(status: ThreadGoalStatus) -> (stored: StoredGoalStatus)
    ensures
        protocol_status(stored) == status,
{
    match status {
        ThreadGoalStatus::Active => StoredGoalStatus::Active,
        ThreadGoalStatus::Paused => StoredGoalStatus::Paused,
        ThreadGoalStatus::Blocked => StoredGoalStatus::Blocked,
        ThreadGoalStatus::UsageLimited => StoredGoalStatus::UsageLimited,
        ThreadGoalStatus::BudgetLimited => StoredGoalStatus::BudgetLimited,
        ThreadGoalStatus::Complete => StoredGoalStatus::Complete,
    }
}

/// Each status has one stored form.
pub proof fn lemma_stored_form_is_unique(a: StoredGoalStatus, b: StoredGoalStatus)
    requires
        protocol_status(a) == protocol_status(b),
    ensures
        a == b,
{
}

/// A stored goal as it is shown: all but its id in the store.
pub open spec fn protocol_goal(goal: StoredGoal) -> ThreadGoal {
    ThreadGoal {
        thread_id: goal.thread_id,
        objective: goal.objective,
        status: protocol_status(goal.status),
        token_budget: goal.token_budget,
        tokens_used: goal.tokens_used,
        time_used_seconds: goal.time_used_seconds,
        created_at: goal.created_at,
        updated_at: goal.updated_at,
        timezone: goal.timezone,
        stages: goal.stages,
        initial_quota_snapshots: goal.initial_quota_snapshots,
        initial_token_budget: goal.initial_token_budget,
    }
}

/// A stored goal as it is shown.
pub fn protocol_goal_from_state(goal: StoredGoal) -> (shown: ThreadGoal)
    ensures
        shown == protocol_goal(goal),
{
    ThreadGoal {
        thread_id: goal.thread_id,
        objective: goal.objective,
        status: protocol_status_from_state(goal.status),
        token_budget: goal.token_budget,
        tokens_used: goal.tokens_used,
        time_used_seconds: goal.time_used_seconds,
        created_at: goal.created_at,
        updated_at: goal.updated_at,
        timezone: goal.timezone,
        stages: goal.stages,
        initial_quota_snapshots: goal.initial_quota_snapshots,
        initial_token_budget: goal.initial_token_budget,
    }
}

/// A stored goal as it is shown, with the stored one kept.
pub fn shown_goal(goal: &StoredGoal) -> (shown: ThreadGoal)
    ensures
        shown.deep_view() == protocol_goal(*goal).deep_view(),
{
    ThreadGoal {
        thread_id: goal.thread_id.clone(),
        objective: goal.objective.clone(),
        status: protocol_status_from_state(goal.status),
        token_budget: goal.token_budget,
        tokens_used: goal.tokens_used,
        time_used_seconds: goal.time_used_seconds,
        created_at: goal.created_at,
        updated_at: goal.updated_at,
        timezone: goal.timezone.clone(),
        stages: clone_stages(&goal.stages),
        initial_quota_snapshots: clone_snapshots(&goal.initial_quota_snapshots),
        initial_token_budget: goal.initial_token_budget,
    }
}

/// Why a call of a tool failed.
#[derive(Debug, PartialEq, Eq)]
pub enum FunctionCallError {
    /// The model is told.
    RespondToModel(String),
    /// The session cannot go on.
    Fatal(String),
}

/// Whether a call failed with a message to the model.
pub open spec fn tells_model<T>(outcome: Result<T, FunctionCallError>, text: Seq<char>) -> bool {
    outcome matches Err(FunctionCallError::RespondToModel(message)) && message@ == text
}

fn tell_model<T>(text: &str) -> (outcome: Result<T, FunctionCallError>)
    ensures
        tells_model(outcome, text@),
{
    Err(FunctionCallError::RespondToModel(text.to_owned()))
}

fn tell_failure<T>(what: &str, error: &String) -> (outcome: Result<T, FunctionCallError>)
    ensures
        tells_model(outcome, what@ + error@),
{
    let mut message = what.to_owned();
    message.append(error.as_str());
    Err(FunctionCallError::RespondToModel(message))
}

/// What is wrong with a token budget, if anything: it has to be positive and within the maximum.
pub open spec fn budget_error(value: Option<i64>, max: Option<i64>) -> Option<Seq<char>> {
    match value {
        None => None,
        Some(budget) => if budget <= 0 {
            Some("goal budgets must be positive when provided"@)
        } else {
            match max {
                Some(limit) if budget > limit => Some(
                    "goal token budget "@ + integer_text(budget as int)
                        + " exceeds the maximum allowed goal token budget of "@ + integer_text(
                        limit as int,
                    ),
                ),
                _ => None,
            }
        },
    }
}

/// Checks a token budget against the maximum.
pub fn validate_goal_budget(value: Option<i64>, max_goal_token_budget: Option<i64>) -> (valid:
    Result<(), String>)
    ensures
        match valid {
            Ok(_) => budget_error(value, max_goal_token_budget) is None,
            Err(message) => budget_error(value, max_goal_token_budget) == Some(message@),
        },
{
    if let Some(budget) = value {
        if budget <= 0 {
            return Err("goal budgets must be positive when provided".to_owned());
        }
        if let Some(limit) = max_goal_token_budget {
            if budget > limit {
                let mut message = "goal token budget ".to_owned();
                message.append(signed_text(budget).as_str());
                message.append(" exceeds the maximum allowed goal token budget of ");
                message.append(signed_text(limit).as_str());
                return Err(message);
            }
        }
    }
    Ok(())
}

/// Whether an answer says how to report the completion of a goal.
#[derive(Debug, Clone, Copy, PartialEq, Eq, Structural)]
pub enum CompletionBudgetReport {
    Include,
    Omit,
}

/// How a model reports the usage of a completed goal.
pub const COMPLETION_REPORT: &'static str = "Goal achieved. Report final usage from this tool result's structured goal fields. If `goal.tokenBudget` is present, include token usage from `goal.tokensUsed` and `goal.tokenBudget`. If `goal.timeUsedSeconds` is greater than 0, summarize elapsed time in a concise, human-friendly form appropriate to the response language.";

/// Whether there is usage to report: a budget, or time.
pub open spec fn has_usage(goal: ThreadGoal) -> bool {
    goal.token_budget is Some || goal.time_used_seconds > 0
}

/// How the usage of a goal is reported, where there is any.
pub fn completion_budget_report(goal: &ThreadGoal) -> (report: Option<String>)
    ensures
        report is Some <==> has_usage(*goal),
        report matches Some(text) ==> text@ == COMPLETION_REPORT@,
{
    if goal.token_budget.is_none() && goal.time_used_seconds <= 0 {
        None
    } else {
        Some(COMPLETION_REPORT.to_owned())
    }
}

/// The answer of a goal tool.
#[derive(Debug, PartialEq)]
pub struct GoalToolResponse {
    pub goal: Option<ThreadGoal>,
    pub remaining_tokens: Option<i64>,
    pub completion_budget_report: Option<String>,
    pub current_quota_snapshots: Vec<GoalQuotaSnapshot>,
}

/// What is left of the budget of a goal, and never less than nothing.
pub open spec fn remaining_tokens(goal: Option<ThreadGoal>) -> Option<i64> {
    match goal {
        Some(goal) => match goal.token_budget {
            Some(budget) => if budget > goal.tokens_used {
                Some((budget - goal.tokens_used) as i64)
            } else {
                Some(0)
            },
            None => None,
        },
        None => None,
    }
}

/// Whether an answer reports a completion: where it is asked to, and the goal is complete and has
/// usage to report.
pub open spec fn reports_completion(goal: Option<ThreadGoal>, mode: CompletionBudgetReport) -> bool {
    mode == CompletionBudgetReport::Include && goal is Some && goal->0.status
        == ThreadGoalStatus::Complete && has_usage(goal->0)
}

/// Whether `response` is the answer for a goal, with these snapshots.
pub open spec fn answers(
    response: GoalToolResponse,
    goal: Option<ThreadGoal>,
    mode: CompletionBudgetReport,
    snapshots: Seq<GoalQuotaSnapshot>,
) -> bool {
    &&& response.goal == goal
    &&& response.remaining_tokens == remaining_tokens(goal)
    &&& (response.completion_budget_report is Some <==> reports_completion(goal, mode))
    &&& (response.completion_budget_report matches Some(text) ==> text@ == COMPLETION_REPORT@)
    &&& response.current_quota_snapshots@ == snapshots
}

/// Whether what is left of the budget of a goal can be counted.
pub open spec fn is_countable(goal: Option<ThreadGoal>) -> bool {
    goal matches Some(goal) ==> (goal.token_budget matches Some(budget) ==> i64::MIN <= budget
        - goal.tokens_used <= i64::MAX)
}

impl GoalToolResponse {
    /// The answer for a goal, without quota snapshots.
    pub fn new(goal: Option<ThreadGoal>, report_mode: CompletionBudgetReport) -> (response: Self)
        requires
            is_countable(goal),
        ensures
            answers(response, goal, report_mode, Seq::empty()),
    {
        let remaining_tokens = match &goal {
            Some(goal) => match goal.token_budget {
                Some(budget) => {
                    let left: i64 = budget - goal.tokens_used;
                    if left > 0 {
                        Some(left)
                    } else {
                        Some(0)
                    }
                },
                None => None,
            },
            None => None,
        };
        let report = match (report_mode, &goal) {
            (CompletionBudgetReport::Include, Some(goal)) => {
                if goal.status == ThreadGoalStatus::Complete {
                    completion_budget_report(goal)
                } else {
                    None
                }
            },
            _ => None,
        };
        let current_quota_snapshots: Vec<GoalQuotaSnapshot> = Vec::new();
        proof {
            assert(current_quota_snapshots@ =~= Seq::empty());
        }
        GoalToolResponse {
            goal,
            remaining_tokens,
            completion_budget_report: report,
            current_quota_snapshots,
        }
    }
}

/// Which of the goal tools an executor runs.
#[derive(Debug, Clone, Copy, PartialEq, Eq, Structural)]
pub enum GoalToolKind {
    Get,
    Create,
    Update,
}

/// A request to create a goal.
#[derive(Debug, PartialEq)]
pub struct CreateGoalRequest {
    pub objective: String,
    pub token_budget: Option<i64>,
    pub timezone: Option<String>,
    pub stages: Option<Vec<ThreadGoalStage>>,
}

/// A request to update a goal.
#[derive(Debug, PartialEq)]
pub struct UpdateGoalArgs {
    pub status: Option<ThreadGoalStatus>,
    pub timezone: Option<String>,
    pub stages: Option<Vec<ThreadGoalStage>>,
    pub stage_id: Option<String>,
    pub delivered_artifact: Option<String>,
}

/// A new schedule for the goal of a thread.
#[derive(Debug, PartialEq)]
pub struct GoalScheduleUpdate {
    pub timezone: Option<String>,
    pub stages: Vec<ThreadGoalStage>,
    /// The goal that the schedule is for; any, where none is named.
    pub expected_goal_id: Option<String>,
}

/// For which goals the store counts usage.
#[derive(Debug, Clone, Copy, PartialEq, Eq, Structural)]
pub enum GoalAccountingMode {
    ActiveOrComplete,
    ActiveOrStopped,
}

/// Where a run of a goal tool stands.
#[derive(Debug, PartialEq)]
pub enum GoalToolPhase {
    /// The goal is read.
    ReadingGoal,
    /// The new goal is inserted; its schedule comes next.
    Inserting { timezone: Option<String>, stages: Option<Vec<ThreadGoalStage>> },
    /// The new goal is scheduled.
    SchedulingNew,
    /// The quota at the start of the new goal is taken.
    TakingQuota { goal: StoredGoal },
    /// The baseline of the new goal is stored.
    StoringBaseline { goal: StoredGoal },
    /// The new goal becomes the one of its turn.
    EnteringTurn { goal: StoredGoal },
    /// A delivery is recorded.
    Delivering,
    /// The schedule is changed.
    Rescheduling,
    /// The usage up to now is counted, before the goal gets a status.
    Accounting { status: ThreadGoalStatus },
    /// The status before the change is read.
    ReadingStatus { status: ThreadGoalStatus },
    /// The goal gets its status.
    UpdatingStatus { status: ThreadGoalStatus, previous: Option<StoredGoalStatus> },
    /// The goal is no longer the one of its turn.
    LeavingTurn { goal: StoredGoal, status: ThreadGoalStatus },
    /// The change is made known.
    Announcing { shown: ThreadGoal, report: CompletionBudgetReport },
    /// The quota for the answer is taken.
    Answering { answer: Option<ThreadGoal>, report: CompletionBudgetReport },
    /// The tool has answered.
    Finished,
}

/// What a run of a goal tool has to have done.
#[derive(Debug, PartialEq)]
pub enum GoalToolAction {
    /// Read the goal of the thread.
    ReadGoal,
    /// Insert an active goal, unless the thread has an unfinished one.
    InsertGoal { objective: String, token_budget: Option<i64> },
    /// Change the schedule of the goal.
    UpdateSchedule(GoalScheduleUpdate),
    /// Take quota snapshots; a failure to do so gives none.
    TakeQuota,
    /// Store the baseline of a goal.
    StoreBaseline { goal_id: String, snapshots: Vec<GoalQuotaSnapshot> },
    /// Give the thread a preview, mark the goal of the phase as the one of the turn, and record
    /// that it was created.
    EnterTurn,
    /// Record the delivery of a stage.
    RecordDelivery { stage_id: String, artifact: String },
    /// Count the usage up to now.
    AccountProgress { mode: GoalAccountingMode },
    /// Give the goal a status.
    UpdateStatus { status: StoredGoalStatus },
    /// Record the change of the goal of the phase from its previous status, and clear the goal of
    /// the turn.
    LeaveTurn { previous: Option<StoredGoalStatus> },
    /// Make the goal of the phase known as changed in a turn.
    Announce { turn_id: Option<String> },
    /// Answer the call.
    Respond(GoalToolResponse),
}

/// What came of an action.
#[derive(Debug, PartialEq)]
pub enum GoalToolEvent {
    /// What the store gave: a goal, none, or the text of its error.
    Goal(Result<Option<StoredGoal>, String>),
    /// The quota snapshots that were taken.
    Quota(Vec<GoalQuotaSnapshot>),
    /// The turn that was entered or left.
    Turn(Option<String>),
    /// Usage was counted, or could not be.
    Accounted(Result<(), FunctionCallError>),
    /// The change was made known.
    Announced,
}

/// A point in a run: where it stands, and what to do next.
#[derive(Debug, PartialEq)]
pub struct GoalToolStep {
    pub phase: GoalToolPhase,
    pub action: GoalToolAction,
}

impl GoalToolPhase {
    /// Whether the phase goes on with an event of this kind.
    pub open spec fn awaits(&self, event: GoalToolEvent) -> bool {
        match self {
            GoalToolPhase::ReadingGoal => event is Goal,
            GoalToolPhase::Inserting { .. } => event is Goal,
            GoalToolPhase::SchedulingNew => event is Goal,
            GoalToolPhase::TakingQuota { .. } => event is Quota,
            GoalToolPhase::StoringBaseline { .. } => event is Goal,
            GoalToolPhase::EnteringTurn { .. } => event is Turn,
            GoalToolPhase::Delivering => event is Goal,
            GoalToolPhase::Rescheduling => event is Goal,
            GoalToolPhase::Accounting { .. } => event is Accounted,
            GoalToolPhase::ReadingStatus { .. } => event is Goal,
            GoalToolPhase::UpdatingStatus { .. } => event is Goal,
            GoalToolPhase::LeavingTurn { .. } => event is Turn,
            GoalToolPhase::Announcing { .. } => event is Announced,
            GoalToolPhase::Answering { .. } => event is Quota,
            GoalToolPhase::Finished => false,
        }
    }
}

/// The goal that a run answers with once an event came, where it answers at once.
pub open spec fn answered_goal(
    has_quota: bool,
    phase: GoalToolPhase,
    event: GoalToolEvent,
) -> Option<ThreadGoal> {
    match (phase, event) {
        (GoalToolPhase::ReadingGoal, GoalToolEvent::Goal(Ok(Some(goal)))) => if has_quota {
            None
        } else {
            Some(protocol_goal(goal))
        },
        (GoalToolPhase::Announcing { shown, .. }, _) => if has_quota {
            None
        } else {
            Some(shown)
        },
        (GoalToolPhase::Answering { answer, .. }, _) => answer,
        _ => None,
    }
}

/// Whether a run stands at a phase, with an action to do.
pub open spec fn goes_to(
    outcome: Result<GoalToolStep, FunctionCallError>,
    phase: GoalToolPhase,
    action: GoalToolAction,
) -> bool {
    outcome == Ok::<GoalToolStep, FunctionCallError>(GoalToolStep { phase, action })
}

/// Whether a run answers for a goal: with the quota where it can be taken, and else at once.
pub open spec fn goes_to_answer(
    outcome: Result<GoalToolStep, FunctionCallError>,
    has_quota: bool,
    goal: Option<ThreadGoal>,
    report: CompletionBudgetReport,
) -> bool {
    if has_quota {
        goes_to(outcome, GoalToolPhase::Answering { answer: goal, report }, GoalToolAction::TakeQuota)
    } else {
        outcome matches Ok(step) && step.phase == GoalToolPhase::Finished && (
        step.action matches GoalToolAction::Respond(response) && answers(
            response,
            goal,
            report,
            Seq::empty(),
        ))
    }
}

/// Whether a run makes the change of a goal known in a turn.
pub open spec fn goes_to_announcement(
    outcome: Result<GoalToolStep, FunctionCallError>,
    goal: StoredGoal,
    turn_id: Option<String>,
    report: CompletionBudgetReport,
) -> bool {
    goes_to(
        outcome,
        GoalToolPhase::Announcing { shown: protocol_goal(goal), report },
        GoalToolAction::Announce { turn_id },
    )
}

/// Whether a run stores the baseline of a new goal, with the snapshots `taken`.
pub open spec fn goes_to_baseline(
    outcome: Result<GoalToolStep, FunctionCallError>,
    goal: StoredGoal,
    taken: Seq<GoalQuotaSnapshot>,
) -> bool {
    outcome matches Ok(step) && step.phase == (GoalToolPhase::StoringBaseline { goal }) && (
    step.action matches GoalToolAction::StoreBaseline { goal_id, snapshots } && goal_id
        == goal.goal_id && snapshots@ == taken)
}

/// Whether a run takes the baseline of a new goal: first its quota, where it can be taken.
pub open spec fn goes_to_quota(
    outcome: Result<GoalToolStep, FunctionCallError>,
    has_quota: bool,
    goal: StoredGoal,
) -> bool {
    if has_quota {
        goes_to(outcome, GoalToolPhase::TakingQuota { goal }, GoalToolAction::TakeQuota)
    } else {
        goes_to_baseline(outcome, goal, Seq::empty())
    }
}

/// Whether a run schedules a new goal. Without a timezone it takes the one of the machine.
pub open spec fn goes_to_new_schedule(
    outcome: Result<GoalToolStep, FunctionCallError>,
    goal: StoredGoal,
    timezone: Option<String>,
    stages: Option<Vec<ThreadGoalStage>>,
) -> bool {
    outcome matches Ok(step) && step.phase == GoalToolPhase::SchedulingNew && (
    step.action matches GoalToolAction::UpdateSchedule(update) && {
        &&& update.timezone is Some
        &&& (timezone is Some ==> update.timezone == timezone)
        &&& (timezone is None ==> is_local_timezone(update.timezone->0))
        &&& (stages matches Some(listed) ==> update.stages == listed)
        &&& (stages is None ==> update.stages@.len() == 0)
        &&& update.expected_goal_id == Some(goal.goal_id)
    })
}

/// The status of a goal that was read, where it is the expected one.
pub open spec fn status_of_expected(
    goal: Option<StoredGoal>,
    expected_goal_id: Option<Seq<char>>,
) -> Option<StoredGoalStatus> {
    match goal {
        Some(goal) => if expected_goal_id is None || expected_goal_id == Some(goal.goal_id@) {
            Some(goal.status)
        } else {
            None
        },
        None => None,
    }
}

/// The status of a goal that was read, where it is the expected one.
pub fn current_goal_status_for_metrics(
    read: Result<Option<StoredGoal>, String>,
    expected_goal_id: Option<&String>,
) -> (status: Result<Option<StoredGoalStatus>, FunctionCallError>)
    ensures
        match read {
            Ok(goal) => status == Ok::<Option<StoredGoalStatus>, FunctionCallError>(
                status_of_expected(goal, expected_goal_id.deep_view()),
            ),
            Err(error) => tells_model(status, "failed to read goal metrics status: "@ + error@),
        },
{
    match read {
        Ok(Some(goal)) => match expected_goal_id {
            Some(expected) => if goal.goal_id == *expected {
                Ok(Some(goal.status))
            } else {
                Ok(None)
            },
            None => Ok(Some(goal.status)),
        },
        Ok(None) => Ok(None),
        Err(error) => tell_failure("failed to read goal metrics status: ", &error),
    }
}

/// How a run goes on from a phase, once an event came.
pub open spec fn advances(
    has_quota: bool,
    phase: GoalToolPhase,
    event: GoalToolEvent,
    outcome: Result<GoalToolStep, FunctionCallError>,
) -> bool {
    match (phase, event) {
        (GoalToolPhase::ReadingGoal, GoalToolEvent::Goal(read)) => match read {
            Ok(goal) => goes_to_answer(
                outcome,
                has_quota,
                match goal {
                    Some(goal) => Some(protocol_goal(goal)),
                    None => None,
                },
                CompletionBudgetReport::Omit,
            ),
            Err(error) => tells_model(outcome, "failed to read goal: "@ + error@),
        },
        (
            GoalToolPhase::Inserting { timezone, stages },
            GoalToolEvent::Goal(inserted),
        ) => match inserted {
            Ok(Some(goal)) => if stages is Some || timezone is Some {
                goes_to_new_schedule(outcome, goal, timezone, stages)
            } else {
                goes_to_quota(outcome, has_quota, goal)
            },
            Ok(None) => tells_model(
                outcome,
                "cannot create a new goal because this thread has an unfinished goal; complete the existing goal first"@,
            ),
            Err(error) => tells_model(outcome, "failed to create goal: "@ + error@),
        },
        (GoalToolPhase::SchedulingNew, GoalToolEvent::Goal(scheduled)) => match scheduled {
            Ok(Some(goal)) => goes_to_quota(outcome, has_quota, goal),
            Ok(None) => tells_model(outcome, "goal disappeared while scheduling"@),
            Err(error) => tells_model(outcome, "failed to schedule goal: "@ + error@),
        },
        (GoalToolPhase::TakingQuota { goal }, GoalToolEvent::Quota(snapshots)) => goes_to_baseline(
            outcome,
            goal,
            snapshots@,
        ),
        (GoalToolPhase::StoringBaseline { goal }, GoalToolEvent::Goal(stored)) => match stored {
            Ok(Some(stored)) => goes_to(
                outcome,
                GoalToolPhase::EnteringTurn { goal: stored },
                GoalToolAction::EnterTurn,
            ),
            Ok(None) => goes_to(
                outcome,
                GoalToolPhase::EnteringTurn { goal },
                GoalToolAction::EnterTurn,
            ),
            Err(error) => tells_model(outcome, "failed to capture goal baseline: "@ + error@),
        },
        (GoalToolPhase::EnteringTurn { goal }, GoalToolEvent::Turn(turn_id)) =>
        goes_to_announcement(outcome, goal, turn_id, CompletionBudgetReport::Omit),
        (GoalToolPhase::Delivering, GoalToolEvent::Goal(recorded)) => match recorded {
            Ok(Some(goal)) => goes_to_announcement(
                outcome,
                goal,
                None,
                CompletionBudgetReport::Omit,
            ),
            Ok(None) => tells_model(
                outcome,
                "goal or stage not found, or changed concurrently; read get_goal"@,
            ),
            Err(error) => tells_model(outcome, "failed to record stage delivery: "@ + error@),
        },
        (GoalToolPhase::Rescheduling, GoalToolEvent::Goal(changed)) => match changed {
            Ok(Some(goal)) => goes_to_announcement(
                outcome,
                goal,
                None,
                CompletionBudgetReport::Omit,
            ),
            Ok(None) => tells_model(
                outcome,
                "cannot update goal schedule because this thread has no goal"@,
            ),
            Err(error) => tells_model(outcome, "failed to update goal schedule: "@ + error@),
        },
        (GoalToolPhase::Accounting { status }, GoalToolEvent::Accounted(counted)) => match counted {
            Ok(_) => goes_to(
                outcome,
                GoalToolPhase::ReadingStatus { status },
                GoalToolAction::ReadGoal,
            ),
            Err(error) => outcome == Err::<GoalToolStep, FunctionCallError>(error),
        },
        (GoalToolPhase::ReadingStatus { status }, GoalToolEvent::Goal(read)) => match read {
            Ok(goal) => outcome matches Ok(step) && step.phase == (GoalToolPhase::UpdatingStatus {
                status,
                previous: status_of_expected(goal, None),
            }) && (step.action matches GoalToolAction::UpdateStatus { status: stored }
                && protocol_status(stored) == status),
            Err(error) => tells_model(outcome, "failed to read goal metrics status: "@ + error@),
        },
        (
            GoalToolPhase::UpdatingStatus { status, previous },
            GoalToolEvent::Goal(updated),
        ) => match updated {
            Ok(Some(goal)) => goes_to(
                outcome,
                GoalToolPhase::LeavingTurn { goal, status },
                GoalToolAction::LeaveTurn { previous },
            ),
            Ok(None) => tells_model(outcome, "cannot update goal because this thread has no goal"@),
            Err(error) => tells_model(outcome, "failed to update goal: "@ + error@),
        },
        (GoalToolPhase::LeavingTurn { goal, status }, GoalToolEvent::Turn(turn_id)) =>
        goes_to_announcement(
            outcome,
            goal,
            turn_id,
            if status == ThreadGoalStatus::Complete {
                CompletionBudgetReport::Include
            } else {
                CompletionBudgetReport::Omit
            },
        ),
        (GoalToolPhase::Announcing { shown, report }, GoalToolEvent::Announced) => goes_to_answer(
            outcome,
            has_quota,
            Some(shown),
            report,
        ),
        (GoalToolPhase::Answering { answer, report }, GoalToolEvent::Quota(snapshots)) => {
            outcome matches Ok(step) && step.phase == GoalToolPhase::Finished && (
            step.action matches GoalToolAction::Respond(response) && answers(
                response,
                answer,
                report,
                snapshots@,
            ))
        },
        _ => true,
    }
}

/// A goal tool of a thread.
#[derive(Debug, PartialEq, Eq)]
pub struct GoalToolExecutor {
    /// Whether the thread is one that persists.
    pub execution_allowed: bool,
    pub kind: GoalToolKind,
    pub thread_id: String,
    pub max_goal_token_budget: Option<i64>,
    /// Whether quota snapshots can be taken.
    pub has_quota: bool,
}

/// The status of an update that a model may ask for.
pub open spec fn is_offered(status: ThreadGoalStatus) -> bool {
    status == ThreadGoalStatus::Complete || status == ThreadGoalStatus::Blocked || status
        == ThreadGoalStatus::Paused
}

/// Whether an update asks for a new schedule.
pub open spec fn asks_schedule(args: UpdateGoalArgs) -> bool {
    args.stages is Some || args.timezone is Some
}

/// Whether an update asks to record a delivery.
pub open spec fn asks_delivery(args: UpdateGoalArgs) -> bool {
    args.stage_id is Some || args.delivered_artifact is Some
}

/// How many operations an update asks for.
pub open spec fn operations(args: UpdateGoalArgs) -> int {
    (if asks_schedule(args) {
        1int
    } else {
        0int
    }) + (if asks_delivery(args) {
        1int
    } else {
        0int
    }) + (if args.status is Some {
        1int
    } else {
        0int
    })
}

/// How an update begins, where `stages_check` is the check of the stages that it brings.
pub open spec fn begins_update(
    args: UpdateGoalArgs,
    stages_check: Result<(), String>,
    outcome: Result<GoalToolStep, FunctionCallError>,
) -> bool {
    if operations(args) > 1 {
        tells_model(
            outcome,
            "update_goal accepts one operation: status, schedule, or stage delivery"@,
        )
    } else if asks_delivery(args) {
        match (args.stage_id, args.delivered_artifact) {
            (Some(stage_id), Some(artifact)) => if trimmed(stage_id@).len() == 0 || trimmed(
                artifact@,
            ).len() == 0 || utf8_len(artifact@) > 8192 {
                tells_model(
                    outcome,
                    "stage delivery needs a nonempty stage_id and artifact reference (at most 8192 bytes)"@,
                )
            } else {
                goes_to(
                    outcome,
                    GoalToolPhase::Delivering,
                    GoalToolAction::RecordDelivery { stage_id, artifact },
                )
            },
            _ => tells_model(
                outcome,
                "stage delivery requires both stage_id and delivered_artifact"@,
            ),
        }
    } else if args.stages is Some {
        match stages_check {
            Ok(_) => goes_to(
                outcome,
                GoalToolPhase::Rescheduling,
                GoalToolAction::UpdateSchedule(
                    GoalScheduleUpdate {
                        timezone: args.timezone,
                        stages: args.stages->0,
                        expected_goal_id: None,
                    },
                ),
            ),
            Err(message) => outcome == Err::<GoalToolStep, FunctionCallError>(
                FunctionCallError::RespondToModel(message),
            ),
        }
    } else {
        match args.status {
            None => tells_model(outcome, "update_goal requires status, stages, or stage delivery"@),
            Some(status) => if is_offered(status) {
                goes_to(
                    outcome,
                    GoalToolPhase::Accounting { status },
                    GoalToolAction::AccountProgress {
                        mode: if status == ThreadGoalStatus::Complete {
                            GoalAccountingMode::ActiveOrComplete
                        } else {
                            GoalAccountingMode::ActiveOrStopped
                        },
                    },
                )
            } else {
                tells_model(
                    outcome,
                    "update_goal can only mark the existing goal complete, blocked, or paused at the user's explicit request; resume, budget-limited, and usage-limited status changes are controlled by the user or system"@,
                )
            },
        }
    }
}

/// The token budget of a new goal: the one that is asked for, or else the maximum.
pub open spec fn budget_of(asked: Option<i64>, max: Option<i64>) -> Option<i64> {
    match asked {
        Some(_) => asked,
        None => max,
    }
}

/// How a creation begins, where the checks are those of the objective and of the stages.
pub open spec fn begins_create(
    request: CreateGoalRequest,
    max: Option<i64>,
    objective_check: Result<(), String>,
    stages_check: Result<(), String>,
    outcome: Result<GoalToolStep, FunctionCallError>,
) -> bool {
    match objective_check {
        Err(message) => outcome == Err::<GoalToolStep, FunctionCallError>(
            FunctionCallError::RespondToModel(message),
        ),
        Ok(_) => match budget_error(budget_of(request.token_budget, max), max) {
            Some(text) => tells_model(outcome, text),
            None => match (request.stages, stages_check) {
                (Some(_), Err(message)) => outcome == Err::<GoalToolStep, FunctionCallError>(
                    FunctionCallError::RespondToModel(message),
                ),
                _ => outcome matches Ok(step) && step.phase == (GoalToolPhase::Inserting {
                    timezone: request.timezone,
                    stages: request.stages,
                }) && (step.action matches GoalToolAction::InsertGoal { objective, token_budget }
                    && objective@ == trimmed(request.objective@) && token_budget == budget_of(
                    request.token_budget,
                    max,
                )),
            },
        },
    }
}

/// Begins to create a goal, with the checks of its trimmed objective and of its stages done.
pub fn begin_create(
    request: CreateGoalRequest,
    objective: String,
    max_goal_token_budget: Option<i64>,
    objective_check: Result<(), String>,
    stages_check: Result<(), String>,
) -> (outcome: Result<GoalToolStep, FunctionCallError>)
    requires
        objective@ == trimmed(request.objective@),
    ensures
        begins_create(
            request,
            max_goal_token_budget,
            objective_check,
            stages_check,
            outcome,
        ),
{
    if let Err(message) = objective_check {
        return Err(FunctionCallError::RespondToModel(message));
    }
    let token_budget = match request.token_budget {
        Some(budget) => Some(budget),
        None => max_goal_token_budget,
    };
    if let Err(message) = validate_goal_budget(token_budget, max_goal_token_budget) {
        return Err(FunctionCallError::RespondToModel(message));
    }
    if request.stages.is_some() {
        if let Err(message) = stages_check {
            return Err(FunctionCallError::RespondToModel(message));
        }
    }
    Ok(
        GoalToolStep {
            phase: GoalToolPhase::Inserting { timezone: request.timezone, stages: request.stages },
            action: GoalToolAction::InsertGoal { objective, token_budget },
        },
    )
}

/// Begins to update a goal, with the check of its stages done.
pub fn begin_update(args: UpdateGoalArgs, stages_check: Result<(), String>) -> (outcome: Result<
    GoalToolStep,
    FunctionCallError,
>)
    ensures
        begins_update(args, stages_check, outcome),
{
    let scheduling = args.stages.is_some() || args.timezone.is_some();
    let delivery = args.stage_id.is_some() || args.delivered_artifact.is_some();
    let status_given = args.status.is_some();
    if (scheduling && delivery) || (scheduling && status_given) || (delivery && status_given) {
        return tell_model("update_goal accepts one operation: status, schedule, or stage delivery");
    }
    if delivery {
        let (stage_id, artifact) = match (args.stage_id, args.delivered_artifact) {
            (Some(stage_id), Some(artifact)) => (stage_id, artifact),
            _ => {
                return tell_model("stage delivery requires both stage_id and delivered_artifact");
            },
        };
        if is_blank(stage_id.as_str()) || is_blank(artifact.as_str())
            || artifact.as_str().as_bytes().len() > 8192 {
            return tell_model(
                "stage delivery needs a nonempty stage_id and artifact reference (at most 8192 bytes)",
            );
        }
        return Ok(
            GoalToolStep {
                phase: GoalToolPhase::Delivering,
                action: GoalToolAction::RecordDelivery { stage_id, artifact },
            },
        );
    }
    if let Some(stages) = args.stages {
        if let Err(message) = stages_check {
            return Err(FunctionCallError::RespondToModel(message));
        }
        return Ok(
            GoalToolStep {
                phase: GoalToolPhase::Rescheduling,
                action: GoalToolAction::UpdateSchedule(
                    GoalScheduleUpdate { timezone: args.timezone, stages, expected_goal_id: None },
                ),
            },
        );
    }
    let status = match args.status {
        Some(status) => status,
        None => {
            return tell_model("update_goal requires status, stages, or stage delivery");
        },
    };
    let mode = match status {
        ThreadGoalStatus::Complete => GoalAccountingMode::ActiveOrComplete,
        ThreadGoalStatus::Blocked | ThreadGoalStatus::Paused => GoalAccountingMode::ActiveOrStopped,
        _ => {
            return tell_model(
                "update_goal can only mark the existing goal complete, blocked, or paused at the user's explicit request; resume, budget-limited, and usage-limited status changes are controlled by the user or system",
            );
        },
    };
    Ok(
        GoalToolStep {
            phase: GoalToolPhase::Accounting { status },
            action: GoalToolAction::AccountProgress { mode },
        },
    )
}

/// The tool that an executor of a kind runs.
pub open spec fn tool_of(kind: GoalToolKind) -> ToolModel {
    match kind {
        GoalToolKind::Get => get_goal_tool(),
        GoalToolKind::Create => create_goal_tool(),
        GoalToolKind::Update => update_goal_tool(),
    }
}

fn answer(has_quota: bool, goal: Option<ThreadGoal>, report: CompletionBudgetReport) -> (outcome:
    Result<GoalToolStep, FunctionCallError>)
    requires
        !has_quota ==> is_countable(goal),
    ensures
        goes_to_answer(outcome, has_quota, goal, report),
{
    if has_quota {
        Ok(
            GoalToolStep {
                phase: GoalToolPhase::Answering { answer: goal, report },
                action: GoalToolAction::TakeQuota,
            },
        )
    } else {
        Ok(
            GoalToolStep {
                phase: GoalToolPhase::Finished,
                action: GoalToolAction::Respond(GoalToolResponse::new(goal, report)),
            },
        )
    }
}

fn announce(goal: StoredGoal, turn_id: Option<String>, report: CompletionBudgetReport) -> (outcome:
    Result<GoalToolStep, FunctionCallError>)
    ensures
        goes_to_announcement(outcome, goal, turn_id, report),
{
    Ok(
        GoalToolStep {
            phase: GoalToolPhase::Announcing { shown: protocol_goal_from_state(goal), report },
            action: GoalToolAction::Announce { turn_id },
        },
    )
}

fn store_baseline(goal: StoredGoal, snapshots: Vec<GoalQuotaSnapshot>) -> (outcome: Result<
    GoalToolStep,
    FunctionCallError,
>)
    ensures
        goes_to_baseline(outcome, goal, snapshots@),
{
    let goal_id = goal.goal_id.clone();
    Ok(
        GoalToolStep {
            phase: GoalToolPhase::StoringBaseline { goal },
            action: GoalToolAction::StoreBaseline { goal_id, snapshots },
        },
    )
}

fn take_quota(has_quota: bool, goal: StoredGoal) -> (outcome: Result<
    GoalToolStep,
    FunctionCallError,
>)
    ensures
        goes_to_quota(outcome, has_quota, goal),
{
    if has_quota {
        Ok(
            GoalToolStep {
                phase: GoalToolPhase::TakingQuota { goal },
                action: GoalToolAction::TakeQuota,
            },
        )
    } else {
        let snapshots: Vec<GoalQuotaSnapshot> = Vec::new();
        proof {
            assert(snapshots@ =~= Seq::empty());
        }
        store_baseline(goal, snapshots)
    }
}

fn schedule_new(
    goal: &StoredGoal,
    timezone: Option<String>,
    stages: Option<Vec<ThreadGoalStage>>,
) -> (outcome: Result<GoalToolStep, FunctionCallError>)
    ensures
        goes_to_new_schedule(outcome, *goal, timezone, stages),
{
    let chosen = match timezone {
        Some(named) => named,
        None => local_goal_timezone(),
    };
    let listed = match stages {
        Some(listed) => listed,
        None => Vec::new(),
    };
    Ok(
        GoalToolStep {
            phase: GoalToolPhase::SchedulingNew,
            action: GoalToolAction::UpdateSchedule(
                GoalScheduleUpdate {
                    timezone: Some(chosen),
                    stages: listed,
                    expected_goal_id: Some(goal.goal_id.clone()),
                },
            ),
        },
    )
}

impl GoalToolExecutor {
    /// The tool that reads the goal of a thread.
    pub fn get(thread_id: String) -> (executor: Self)
        ensures
            executor == (GoalToolExecutor {
                execution_allowed: true,
                kind: GoalToolKind::Get,
                thread_id,
                max_goal_token_budget: None,
                has_quota: false,
            }),
    {
        GoalToolExecutor {
            execution_allowed: true,
            kind: GoalToolKind::Get,
            thread_id,
            max_goal_token_budget: None,
            has_quota: false,
        }
    }

    /// The tool that creates the goal of a thread.
    pub fn create(thread_id: String, max_goal_token_budget: Option<i64>) -> (executor: Self)
        ensures
            executor == (GoalToolExecutor {
                execution_allowed: true,
                kind: GoalToolKind::Create,
                thread_id,
                max_goal_token_budget,
                has_quota: false,
            }),
    {
        GoalToolExecutor {
            execution_allowed: true,
            kind: GoalToolKind::Create,
            thread_id,
            max_goal_token_budget,
            has_quota: false,
        }
    }

    /// The tool that updates the goal of a thread.
    pub fn update(thread_id: String) -> (executor: Self)
        ensures
            executor == (GoalToolExecutor {
                execution_allowed: true,
                kind: GoalToolKind::Update,
                thread_id,
                max_goal_token_budget: None,
                has_quota: false,
            }),
    {
        GoalToolExecutor {
            execution_allowed: true,
            kind: GoalToolKind::Update,
            thread_id,
            max_goal_token_budget: None,
            has_quota: false,
        }
    }

    /// The name of the tool.
    pub fn tool_name(&self) -> (name: &'static str)
        ensures
            name@ == tool_of(self.kind).name,
    {
        match self.kind {
            GoalToolKind::Get => GET_GOAL_TOOL_NAME,
            GoalToolKind::Create => CREATE_GOAL_TOOL_NAME,
            GoalToolKind::Update => UPDATE_GOAL_TOOL_NAME,
        }
    }

    /// The tool as it is offered to a model.
    pub fn spec(&self) -> (tool: ToolSpec)
        ensures
            tool.deep_view() == tool_of(self.kind),
    {
        match self.kind {
            GoalToolKind::Get => create_get_goal_tool(),
            GoalToolKind::Create => create_create_goal_tool(),
            GoalToolKind::Update => create_update_goal_tool(),
        }
    }

    /// Takes a call, or refuses it where the thread does not persist. Says which tool is called.
    pub fn handle(&self) -> (admitted: Result<GoalToolKind, FunctionCallError>)
        ensures
            self.execution_allowed ==> admitted == Ok::<GoalToolKind, FunctionCallError>(self.kind),
            !self.execution_allowed ==> tells_model(
                admitted,
                "Goal tools require a persistent thread."@,
            ),
    {
        if !self.execution_allowed {
            return tell_model("Goal tools require a persistent thread.");
        }
        Ok(self.kind)
    }

    /// Begins to read the goal.
    pub fn handle_get(&self) -> (outcome: Result<GoalToolStep, FunctionCallError>)
        ensures
            goes_to(outcome, GoalToolPhase::ReadingGoal, GoalToolAction::ReadGoal),
    {
        Ok(GoalToolStep { phase: GoalToolPhase::ReadingGoal, action: GoalToolAction::ReadGoal })
    }

    /// Begins to create a goal. `check_objective` is asked about the trimmed objective, and
    /// `check_stages` about the stages, where there are any.
    pub fn handle_create(
        &self,
        request: CreateGoalRequest,
        check_objective: impl Fn(&String) -> Result<(), String>,
        check_stages: impl Fn(&Vec<ThreadGoalStage>) -> Result<(), String>,
    ) -> (outcome: Result<GoalToolStep, FunctionCallError>)
        requires
            forall|objective: &String| call_requires(check_objective, (objective,)),
            forall|stages: &Vec<ThreadGoalStage>| call_requires(check_stages, (stages,)),
        ensures
            exists|objective: String, checked: Result<(), String>, staged: Result<(), String>|
                {
                    &&& objective@ == trimmed(request.objective@)
                    &&& #[trigger] call_ensures(check_objective, (&objective,), checked)
                    &&& (request.stages matches Some(stages) ==> call_ensures(
                        check_stages,
                        (&stages,),
                        staged,
                    ))
                    &&& #[trigger] begins_create(
                        request,
                        self.max_goal_token_budget,
                        checked,
                        staged,
                        outcome,
                    )
                },
    {
        let objective = trim(request.objective.as_str());
        let checked = check_objective(&objective);
        let staged = match &request.stages {
            Some(stages) => check_stages(stages),
            None => Ok(()),
        };
        begin_create(request, objective, self.max_goal_token_budget, checked, staged)
    }

    /// Begins to update a goal. `check_stages` is asked about the stages, where there are any.
    pub fn handle_update(
        &self,
        args: UpdateGoalArgs,
        check_stages: impl Fn(&Vec<ThreadGoalStage>) -> Result<(), String>,
    ) -> (outcome: Result<GoalToolStep, FunctionCallError>)
        requires
            forall|stages: &Vec<ThreadGoalStage>| call_requires(check_stages, (stages,)),
        ensures
            exists|staged: Result<(), String>|
                {
                    &&& (args.stages matches Some(stages) ==> call_ensures(
                        check_stages,
                        (&stages,),
                        staged,
                    ))
                    &&& #[trigger] begins_update(args, staged, outcome)
                },
    {
        let staged = match &args.stages {
            Some(stages) => check_stages(stages),
            None => Ok(()),
        };
        begin_update(args, staged)
    }

    /// Goes on with a run, once what it had to have done is done.
    pub fn advance(&self, phase: GoalToolPhase, event: GoalToolEvent) -> (outcome: Result<
        GoalToolStep,
        FunctionCallError,
    >)
        requires
            phase.awaits(event),
            is_countable(answered_goal(self.has_quota, phase, event)),
        ensures
            advances(self.has_quota, phase, event, outcome),
    {
        match (phase, event) {
            (GoalToolPhase::ReadingGoal, GoalToolEvent::Goal(read)) => match read {
                Ok(Some(goal)) => answer(
                    self.has_quota,
                    Some(protocol_goal_from_state(goal)),
                    CompletionBudgetReport::Omit,
                ),
                Ok(None) => answer(self.has_quota, None, CompletionBudgetReport::Omit),
                Err(error) => tell_failure("failed to read goal: ", &error),
            },
            (
                GoalToolPhase::Inserting { timezone, stages },
                GoalToolEvent::Goal(inserted),
            ) => match inserted {
                Ok(Some(goal)) => if stages.is_some() || timezone.is_some() {
                    schedule_new(&goal, timezone, stages)
                } else {
                    take_quota(self.has_quota, goal)
                },
                Ok(None) => tell_model(
                    "cannot create a new goal because this thread has an unfinished goal; complete the existing goal first",
                ),
                Err(error) => tell_failure("failed to create goal: ", &error),
            },
            (GoalToolPhase::SchedulingNew, GoalToolEvent::Goal(scheduled)) => match scheduled {
                Ok(Some(goal)) => take_quota(self.has_quota, goal),
                Ok(None) => tell_model("goal disappeared while scheduling"),
                Err(error) => tell_failure("failed to schedule goal: ", &error),
            },
            (GoalToolPhase::TakingQuota { goal }, GoalToolEvent::Quota(snapshots)) => {
                store_baseline(goal, snapshots)
            },
            (GoalToolPhase::StoringBaseline { goal }, GoalToolEvent::Goal(stored)) => match stored {
                Ok(Some(stored)) => Ok(
                    GoalToolStep {
                        phase: GoalToolPhase::EnteringTurn { goal: stored },
                        action: GoalToolAction::EnterTurn,
                    },
                ),
                Ok(None) => Ok(
                    GoalToolStep {
                        phase: GoalToolPhase::EnteringTurn { goal },
                        action: GoalToolAction::EnterTurn,
                    },
                ),
                Err(error) => tell_failure("failed to capture goal baseline: ", &error),
            },
            (GoalToolPhase::EnteringTurn { goal }, GoalToolEvent::Turn(turn_id)) => announce(
                goal,
                turn_id,
                CompletionBudgetReport::Omit,
            ),
            (GoalToolPhase::Delivering, GoalToolEvent::Goal(recorded)) => match recorded {
                Ok(Some(goal)) => announce(goal, None, CompletionBudgetReport::Omit),
                Ok(None) => tell_model(
                    "goal or stage not found, or changed concurrently; read get_goal",
                ),
                Err(error) => tell_failure("failed to record stage delivery: ", &error),
            },
            (GoalToolPhase::Rescheduling, GoalToolEvent::Goal(changed)) => match changed {
                Ok(Some(goal)) => announce(goal, None, CompletionBudgetReport::Omit),
                Ok(None) => tell_model(
                    "cannot update goal schedule because this thread has no goal",
                ),
                Err(error) => tell_failure("failed to update goal schedule: ", &error),
            },
            (
                GoalToolPhase::Accounting { status },
                GoalToolEvent::Accounted(counted),
            ) => match counted {
                Ok(_) => Ok(
                    GoalToolStep {
                        phase: GoalToolPhase::ReadingStatus { status },
                        action: GoalToolAction::ReadGoal,
                    },
                ),
                Err(error) => Err(error),
            },
            (GoalToolPhase::ReadingStatus { status }, GoalToolEvent::Goal(read)) => {
                match current_goal_status_for_metrics(read, None) {
                    Ok(previous) => Ok(
                        GoalToolStep {
                            phase: GoalToolPhase::UpdatingStatus { status, previous },
                            action: GoalToolAction::UpdateStatus {
                                status: state_status_from_protocol(status),
                            },
                        },
                    ),
                    Err(error) => Err(error),
                }
            },
            (
                GoalToolPhase::UpdatingStatus { status, previous },
                GoalToolEvent::Goal(updated),
            ) => match updated {
                Ok(Some(goal)) => Ok(
                    GoalToolStep {
                        phase: GoalToolPhase::LeavingTurn { goal, status },
                        action: GoalToolAction::LeaveTurn { previous },
                    },
                ),
                Ok(None) => tell_model("cannot update goal because this thread has no goal"),
                Err(error) => tell_failure("failed to update goal: ", &error),
            },
            (GoalToolPhase::LeavingTurn { goal, status }, GoalToolEvent::Turn(turn_id)) => {
                let report = if status == ThreadGoalStatus::Complete {
                    CompletionBudgetReport::Include
                } else {
                    CompletionBudgetReport::Omit
                };
                announce(goal, turn_id, report)
            },
            (GoalToolPhase::Announcing { shown, report }, GoalToolEvent::Announced) => answer(
                self.has_quota,
                Some(shown),
                report,
            ),
            (GoalToolPhase::Answering { answer, report }, GoalToolEvent::Quota(snapshots)) => {
                let mut response = GoalToolResponse::new(answer, report);
                response.current_quota_snapshots = snapshots;
                Ok(
                    GoalToolStep {
                        phase: GoalToolPhase::Finished,
                        action: GoalToolAction::Respond(response),
                    },
                )
            },
            _ => vstd::pervasive::unreached(),
        }
    }
}

impl GoalToolPhase {
    /// Whether the goal gets no other status than one that a model may ask for.
    pub open spec fn is_within_offer(&self) -> bool {
        match self {
            GoalToolPhase::Accounting { status } => is_offered(*status),
            GoalToolPhase::ReadingStatus { status } => is_offered(*status),
            GoalToolPhase::UpdatingStatus { status, .. } => is_offered(*status),
            GoalToolPhase::LeavingTurn { status, .. } => is_offered(*status),
            _ => true,
        }
    }

    /// At how many more events a run can end at the latest.
    pub open spec fn events_left(&self) -> nat {
        match self {
            GoalToolPhase::Inserting { .. } => 7,
            GoalToolPhase::SchedulingNew => 6,
            GoalToolPhase::TakingQuota { .. } => 5,
            GoalToolPhase::StoringBaseline { .. } => 4,
            GoalToolPhase::EnteringTurn { .. } => 3,
            GoalToolPhase::Accounting { .. } => 6,
            GoalToolPhase::ReadingStatus { .. } => 5,
            GoalToolPhase::UpdatingStatus { .. } => 4,
            GoalToolPhase::LeavingTurn { .. } => 3,
            GoalToolPhase::Delivering => 3,
            GoalToolPhase::Rescheduling => 3,
            GoalToolPhase::ReadingGoal => 2,
            GoalToolPhase::Announcing { .. } => 2,
            GoalToolPhase::Answering { .. } => 1,
            GoalToolPhase::Finished => 0,
        }
    }
}

/// Whether an action gives a goal no other status than one that a model may ask for.
pub open spec fn acts_within_offer(action: GoalToolAction) -> bool {
    action matches GoalToolAction::UpdateStatus { status } ==> is_offered(protocol_status(status))
}

/// A model can complete, block or pause its goal, and cannot give it another status: neither the
/// beginning of an update nor any later step leads there.
pub proof fn lemma_update_stays_within_offer(
    args: UpdateGoalArgs,
    staged: Result<(), String>,
    outcome: Result<GoalToolStep, FunctionCallError>,
)
    requires
        begins_update(args, staged, outcome),
    ensures
        outcome matches Ok(step) ==> step.phase.is_within_offer() && acts_within_offer(step.action),
{
}

/// No step of a run leads to a status that a model may not ask for.
pub proof fn lemma_run_stays_within_offer(
    has_quota: bool,
    phase: GoalToolPhase,
    event: GoalToolEvent,
    outcome: Result<GoalToolStep, FunctionCallError>,
)
    requires
        phase.awaits(event),
        phase.is_within_offer(),
        advances(has_quota, phase, event, outcome),
    ensures
        outcome matches Ok(step) ==> step.phase.is_within_offer() && acts_within_offer(step.action),
{
}

/// Every run ends: each event brings it nearer to its answer, and it answers exactly when it is
/// finished.
pub proof fn lemma_run_ends(
    has_quota: bool,
    phase: GoalToolPhase,
    event: GoalToolEvent,
    outcome: Result<GoalToolStep, FunctionCallError>,
)
    requires
        phase.awaits(event),
        advances(has_quota, phase, event, outcome),
    ensures
        outcome matches Ok(step) ==> {
            &&& step.phase.events_left() < phase.events_left()
            &&& (step.action is Respond <==> step.phase == GoalToolPhase::Finished)
        },
{
}

/// An update does one thing: it records a delivery, changes the schedule or gives a status.
pub proof fn lemma_update_does_one_thing(
    args: UpdateGoalArgs,
    staged: Result<(), String>,
    outcome: Result<GoalToolStep, FunctionCallError>,
)
    requires
        begins_update(args, staged, outcome),
        outcome is Ok,
    ensures
        operations(args) == 1,
        outcome->Ok_0.action is RecordDelivery <==> asks_delivery(args),
        outcome->Ok_0.action is UpdateSchedule <==> args.stages is Some,
        outcome->Ok_0.action is AccountProgress <==> args.status is Some,
{
}

/// What has been used since usage was counted last.
#[derive(Debug, PartialEq, Eq)]
pub struct ProgressSnapshot {
    pub expected_goal_id: String,
    pub time_delta_seconds: i64,
    pub token_delta: i64,
}

/// What the store made of usage.
#[derive(Debug, PartialEq)]
pub enum GoalAccountingOutcome {
    Updated(StoredGoal),
    Unchanged,
}

/// Where the counting of usage stands.
#[derive(Debug, PartialEq)]
pub enum ProgressPhase {
    /// Leave to count is awaited.
    AwaitingPermit { turn_id: String },
    /// What was used is read.
    ReadingProgress { turn_id: String },
    /// The status before the change is read.
    ReadingStatus { turn_id: String, snapshot: ProgressSnapshot },
    /// The store counts.
    Counting {
        turn_id: String,
        snapshot: ProgressSnapshot,
        previous: Option<StoredGoalStatus>,
    },
    /// The change is made known.
    Announcing {
        turn_id: String,
        snapshot: ProgressSnapshot,
        previous: Option<StoredGoalStatus>,
        goal: StoredGoal,
    },
    /// Usage is counted.
    Finished,
}

/// What counting usage has to have done.
#[derive(Debug, PartialEq)]
pub enum ProgressAction {
    /// Wait until no other count of the thread runs.
    AcquirePermit,
    /// Read what was used in the turn of the phase.
    ReadProgress,
    /// Read the goal of the thread.
    ReadGoal,
    /// Count usage for a goal.
    CountUsage {
        time_delta_seconds: i64,
        token_delta: i64,
        mode: GoalAccountingMode,
        expected_goal_id: String,
    },
    /// Record the change of the goal of the phase from its previous status, mark the snapshot of
    /// the phase as counted, and make the goal known as changed in the turn of the phase. A goal
    /// that reached its budget is no longer active.
    Announce,
    /// Nothing: counting is over, and this goal was changed by it.
    Finish { changed: Option<ThreadGoal> },
}

/// What came of an action.
#[derive(Debug, PartialEq)]
pub enum ProgressEvent {
    /// Leave to count was given, or can never be: the text says why.
    Permit(Result<(), String>),
    /// What was used.
    Progress(Option<ProgressSnapshot>),
    /// What the store gave: a goal, none, or the text of its error.
    Goal(Result<Option<StoredGoal>, String>),
    /// What the store made of usage, or the text of its error.
    Counted(Result<GoalAccountingOutcome, String>),
    /// The change was made known.
    Announced,
}

/// A point in the counting of usage: where it stands, and what to do next.
#[derive(Debug, PartialEq)]
pub struct ProgressStep {
    pub phase: ProgressPhase,
    pub action: ProgressAction,
}

impl ProgressPhase {
    /// Whether the phase goes on with an event of this kind.
    pub open spec fn awaits(&self, event: ProgressEvent) -> bool {
        match self {
            ProgressPhase::AwaitingPermit { .. } => event is Permit,
            ProgressPhase::ReadingProgress { .. } => event is Progress,
            ProgressPhase::ReadingStatus { .. } => event is Goal,
            ProgressPhase::Counting { .. } => event is Counted,
            ProgressPhase::Announcing { .. } => event is Announced,
            ProgressPhase::Finished => false,
        }
    }

    /// At how many more events the counting can end at the latest.
    pub open spec fn events_left(&self) -> nat {
        match self {
            ProgressPhase::AwaitingPermit { .. } => 5,
            ProgressPhase::ReadingProgress { .. } => 4,
            ProgressPhase::ReadingStatus { .. } => 3,
            ProgressPhase::Counting { .. } => 2,
            ProgressPhase::Announcing { .. } => 1,
            ProgressPhase::Finished => 0,
        }
    }
}

/// The counting that is over, with the goal that it changed.
pub open spec fn counted(changed: Option<ThreadGoal>) -> ProgressStep {
    ProgressStep { phase: ProgressPhase::Finished, action: ProgressAction::Finish { changed } }
}

/// Whether the counting stands at a phase, with an action to do.
pub open spec fn counts_on(
    outcome: Result<ProgressStep, FunctionCallError>,
    phase: ProgressPhase,
    action: ProgressAction,
) -> bool {
    outcome == Ok::<ProgressStep, FunctionCallError>(ProgressStep { phase, action })
}

/// How the counting goes on from a phase, once an event came.
pub open spec fn advances_count(
    mode: GoalAccountingMode,
    phase: ProgressPhase,
    event: ProgressEvent,
    outcome: Result<ProgressStep, FunctionCallError>,
) -> bool {
    match (phase, event) {
        (ProgressPhase::AwaitingPermit { turn_id }, ProgressEvent::Permit(permit)) => match permit {
            Ok(_) => counts_on(
                outcome,
                ProgressPhase::ReadingProgress { turn_id },
                ProgressAction::ReadProgress,
            ),
            Err(error) => outcome matches Err(FunctionCallError::Fatal(message)) && message@
                == "goal progress accounting semaphore closed: "@ + error@,
        },
        (ProgressPhase::ReadingProgress { turn_id }, ProgressEvent::Progress(used)) => match used {
            Some(snapshot) => counts_on(
                outcome,
                ProgressPhase::ReadingStatus { turn_id, snapshot },
                ProgressAction::ReadGoal,
            ),
            None => outcome == Ok::<ProgressStep, FunctionCallError>(counted(None)),
        },
        (
            ProgressPhase::ReadingStatus { turn_id, snapshot },
            ProgressEvent::Goal(read),
        ) => match read {
            Ok(goal) => counts_on(
                outcome,
                ProgressPhase::Counting {
                    turn_id,
                    snapshot,
                    previous: status_of_expected(goal, Some(snapshot.expected_goal_id@)),
                },
                ProgressAction::CountUsage {
                    time_delta_seconds: snapshot.time_delta_seconds,
                    token_delta: snapshot.token_delta,
                    mode,
                    expected_goal_id: snapshot.expected_goal_id,
                },
            ),
            Err(error) => tells_model(outcome, "failed to read goal metrics status: "@ + error@),
        },
        (
            ProgressPhase::Counting { turn_id, snapshot, previous },
            ProgressEvent::Counted(made),
        ) => match made {
            Ok(GoalAccountingOutcome::Updated(goal)) => counts_on(
                outcome,
                ProgressPhase::Announcing { turn_id, snapshot, previous, goal },
                ProgressAction::Announce,
            ),
            Ok(GoalAccountingOutcome::Unchanged) => outcome == Ok::<
                ProgressStep,
                FunctionCallError,
            >(counted(None)),
            Err(error) => tells_model(outcome, "failed to account goal progress: "@ + error@),
        },
        (ProgressPhase::Announcing { goal, .. }, ProgressEvent::Announced) => outcome == Ok::<
            ProgressStep,
            FunctionCallError,
        >(counted(Some(protocol_goal(goal)))),
        _ => true,
    }
}

fn finish_count(changed: Option<ThreadGoal>) -> (step: ProgressStep)
    ensures
        step == counted(changed),
{
    ProgressStep { phase: ProgressPhase::Finished, action: ProgressAction::Finish { changed } }
}

/// Begins to count what was used since usage was counted last. Outside of a turn there is nothing
/// to count.
pub fn account_active_goal_progress(turn_id: Option<String>) -> (step: ProgressStep)
    ensures
        step == match turn_id {
            Some(turn_id) => ProgressStep {
                phase: ProgressPhase::AwaitingPermit { turn_id },
                action: ProgressAction::AcquirePermit,
            },
            None => counted(None),
        },
{
    match turn_id {
        Some(turn_id) => ProgressStep {
            phase: ProgressPhase::AwaitingPermit { turn_id },
            action: ProgressAction::AcquirePermit,
        },
        None => finish_count(None),
    }
}

/// Goes on with the counting, once what it had to have done is done.
pub fn advance_accounting(
    mode: GoalAccountingMode,
    phase: ProgressPhase,
    event: ProgressEvent,
) -> (outcome: Result<ProgressStep, FunctionCallError>)
    requires
        phase.awaits(event),
    ensures
        advances_count(mode, phase, event, outcome),
{
    match (phase, event) {
        (ProgressPhase::AwaitingPermit { turn_id }, ProgressEvent::Permit(permit)) => match permit {
            Ok(_) => Ok(
                ProgressStep {
                    phase: ProgressPhase::ReadingProgress { turn_id },
                    action: ProgressAction::ReadProgress,
                },
            ),
            Err(error) => {
                let mut message = "goal progress accounting semaphore closed: ".to_owned();
                message.append(error.as_str());
                Err(FunctionCallError::Fatal(message))
            },
        },
        (ProgressPhase::ReadingProgress { turn_id }, ProgressEvent::Progress(used)) => match used {
            Some(snapshot) => Ok(
                ProgressStep {
                    phase: ProgressPhase::ReadingStatus { turn_id, snapshot },
                    action: ProgressAction::ReadGoal,
                },
            ),
            None => Ok(finish_count(None)),
        },
        (ProgressPhase::ReadingStatus { turn_id, snapshot }, ProgressEvent::Goal(read)) => {
            match current_goal_status_for_metrics(read, Some(&snapshot.expected_goal_id)) {
                Ok(previous) => {
                    let action = ProgressAction::CountUsage {
                        time_delta_seconds: snapshot.time_delta_seconds,
                        token_delta: snapshot.token_delta,
                        mode,
                        expected_goal_id: snapshot.expected_goal_id.clone(),
                    };
                    Ok(
                        ProgressStep {
                            phase: ProgressPhase::Counting { turn_id, snapshot, previous },
                            action,
                        },
                    )
                },
                Err(error) => Err(error),
            }
        },
        (
            ProgressPhase::Counting { turn_id, snapshot, previous },
            ProgressEvent::Counted(made),
        ) => match made {
            Ok(GoalAccountingOutcome::Updated(goal)) => Ok(
                ProgressStep {
                    phase: ProgressPhase::Announcing { turn_id, snapshot, previous, goal },
                    action: ProgressAction::Announce,
                },
            ),
            Ok(GoalAccountingOutcome::Unchanged) => Ok(finish_count(None)),
            Err(error) => tell_failure("failed to account goal progress: ", &error),
        },
        (ProgressPhase::Announcing { goal, .. }, ProgressEvent::Announced) => Ok(
            finish_count(Some(protocol_goal_from_state(goal))),
        ),
        _ => vstd::pervasive::unreached(),
    }
}

/// The counting of usage ends: each event brings it nearer to its end.
pub proof fn lemma_count_ends(
    mode: GoalAccountingMode,
    phase: ProgressPhase,
    event: ProgressEvent,
    outcome: Result<ProgressStep, FunctionCallError>,
)
    requires
        phase.awaits(event),
        advances_count(mode, phase, event, outcome),
    ensures
        outcome matches Ok(step) ==> step.phase.events_left() < phase.events_left(),
{
}

/// A new goal gets the budget that was asked for, whatever the maximum, and the maximum where none was
/// asked for. It gets the objective without the white space around it, and its schedule is kept for
/// later as it was asked for.
pub proof fn lemma_creation_keeps_its_request(
    request: CreateGoalRequest,
    max: Option<i64>,
    objective_check: Result<(), String>,
    stages_check: Result<(), String>,
    outcome: Result<GoalToolStep, FunctionCallError>,
)
    requires
        begins_create(request, max, objective_check, stages_check, outcome),
        outcome is Ok,
    ensures
        outcome->Ok_0.action matches GoalToolAction::InsertGoal { objective, token_budget } && {
            &&& objective@ == trimmed(request.objective@)
            &&& (request.token_budget matches Some(budget) ==> token_budget == Some(budget))
            &&& (request.token_budget is None ==> token_budget == max)
        },
        outcome->Ok_0.phase matches GoalToolPhase::Inserting { timezone, stages } && timezone
            == request.timezone && stages == request.stages,
{
}

/// A creation goes on exactly where its objective and its stages pass their checks and its budget is
/// positive and within the maximum. Without stages their check does not count.
pub proof fn lemma_when_a_creation_goes_on(
    request: CreateGoalRequest,
    max: Option<i64>,
    objective_check: Result<(), String>,
    stages_check: Result<(), String>,
    outcome: Result<GoalToolStep, FunctionCallError>,
)
    requires
        begins_create(request, max, objective_check, stages_check, outcome),
    ensures
        outcome is Ok <==> {
            &&& objective_check is Ok
            &&& (request.stages is Some ==> stages_check is Ok)
            &&& (request.token_budget matches Some(budget) ==> budget > 0 && (max matches Some(limit)
                ==> budget <= limit))
            &&& (request.token_budget is None ==> (max matches Some(limit) ==> limit > 0))
        },
        objective_check matches Err(message) ==> tells_model(outcome, message@),
        objective_check is Ok && (request.token_budget matches Some(budget) && budget <= 0)
            ==> tells_model(outcome, "goal budgets must be positive when provided"@),
{
}

/// A budget is wrong exactly where it is not positive or is above the maximum, and the message names
/// both numbers.
pub proof fn lemma_wrong_budgets(value: Option<i64>, max: Option<i64>)
    ensures
        value is None ==> budget_error(value, max) is None,
        value matches Some(budget) && budget <= 0 ==> budget_error(value, max) == Some(
            "goal budgets must be positive when provided"@,
        ),
        value matches Some(budget) && budget > 0 && max is None ==> budget_error(value, max) is None,
        value matches Some(budget) && budget > 0 && (max matches Some(limit) && budget <= limit)
            ==> budget_error(value, max) is None,
        value matches Some(budget) && budget > 0 && (max matches Some(limit) && budget > limit)
            ==> budget_error(value, max) == Some(
            "goal token budget "@ + integer_text(value->0 as int)
                + " exceeds the maximum allowed goal token budget of "@ + integer_text(
                max->0 as int,
            ),
        ),
{
}

/// Each status keeps its name between the store and the outside.
pub proof fn lemma_statuses_keep_their_names()
    ensures
        protocol_status(StoredGoalStatus::Active) == ThreadGoalStatus::Active,
        protocol_status(StoredGoalStatus::Paused) == ThreadGoalStatus::Paused,
        protocol_status(StoredGoalStatus::Blocked) == ThreadGoalStatus::Blocked,
        protocol_status(StoredGoalStatus::UsageLimited) == ThreadGoalStatus::UsageLimited,
        protocol_status(StoredGoalStatus::BudgetLimited) == ThreadGoalStatus::BudgetLimited,
        protocol_status(StoredGoalStatus::Complete) == ThreadGoalStatus::Complete,
{
}

/// A goal is shown as it is stored, field by field.
pub proof fn lemma_goal_is_shown_as_stored(goal: StoredGoal)
    ensures
        protocol_goal(goal).thread_id == goal.thread_id,
        protocol_goal(goal).objective == goal.objective,
        protocol_goal(goal).status == protocol_status(goal.status),
        protocol_goal(goal).token_budget == goal.token_budget,
        protocol_goal(goal).tokens_used == goal.tokens_used,
        protocol_goal(goal).time_used_seconds == goal.time_used_seconds,
        protocol_goal(goal).created_at == goal.created_at,
        protocol_goal(goal).updated_at == goal.updated_at,
        protocol_goal(goal).timezone == goal.timezone,
        protocol_goal(goal).stages == goal.stages,
        protocol_goal(goal).initial_quota_snapshots == goal.initial_quota_snapshots,
        protocol_goal(goal).initial_token_budget == goal.initial_token_budget,
{
}

/// What is left of a budget and what was used make up the budget, until it is used up; then nothing is
/// left. Without a goal or a budget there is nothing to count.
pub proof fn lemma_remaining_tokens(goal: ThreadGoal)
    ensures
        remaining_tokens(None) is None,
        goal.token_budget is None ==> remaining_tokens(Some(goal)) is None,
        goal.token_budget is Some && is_countable(Some(goal)) ==> (remaining_tokens(
            Some(goal),
        ) matches Some(left) && left >= 0 && (goal.token_budget->0 >= goal.tokens_used ==> left
            + goal.tokens_used == goal.token_budget->0) && (goal.token_budget->0 < goal.tokens_used
            ==> left == 0)),
{
}

/// A completion is reported exactly where the answer asks for it and the goal is complete and has a
/// budget or has used time.
pub proof fn lemma_when_completion_is_reported(goal: ThreadGoal)
    ensures
        !reports_completion(None, CompletionBudgetReport::Include),
        !reports_completion(Some(goal), CompletionBudgetReport::Omit),
        reports_completion(Some(goal), CompletionBudgetReport::Include) <==> goal.status
            == ThreadGoalStatus::Complete && (goal.token_budget is Some || goal.time_used_seconds
            > 0),
{
}

/// The status that was read counts where no goal is expected or the goal is the expected one.
pub proof fn lemma_status_of_the_expected_goal(goal: StoredGoal, expected: Seq<char>)
    ensures
        status_of_expected(None, Some(expected)) is None,
        status_of_expected(None, None) is None,
        status_of_expected(Some(goal), None) == Some(goal.status),
        goal.goal_id@ == expected ==> status_of_expected(Some(goal), Some(expected)) == Some(
            goal.status,
        ),
        goal.goal_id@ != expected ==> status_of_expected(Some(goal), Some(expected)) is None,
{
}

/// An update that brings facts of more than one operation is refused, whatever they are.
pub proof fn lemma_mixed_update_is_refused(
    args: UpdateGoalArgs,
    staged: Result<(), String>,
    outcome: Result<GoalToolStep, FunctionCallError>,
)
    requires
        begins_update(args, staged, outcome),
        ((args.stages is Some || args.timezone is Some) && (args.stage_id is Some
            || args.delivered_artifact is Some)) || ((args.stages is Some || args.timezone is Some)
            && args.status is Some) || ((args.stage_id is Some || args.delivered_artifact is Some)
            && args.status is Some),
    ensures
        tells_model(
            outcome,
            "update_goal accepts one operation: status, schedule, or stage delivery"@,
        ),
{
}

/// A delivery is recorded as it was given, exactly where it names a stage and an artifact, neither of
/// them blank, and the artifact is at most 8192 bytes long.
pub proof fn lemma_when_a_delivery_is_recorded(
    stage_id: String,
    artifact: String,
    staged: Result<(), String>,
    outcome: Result<GoalToolStep, FunctionCallError>,
)
    requires
        begins_update(
            UpdateGoalArgs {
                status: None,
                timezone: None,
                stages: None,
                stage_id: Some(stage_id),
                delivered_artifact: Some(artifact),
            },
            staged,
            outcome,
        ),
    ensures
        outcome is Ok <==> trimmed(stage_id@).len() > 0 && trimmed(artifact@).len() > 0 && utf8_len(
            artifact@,
        ) <= 8192,
        outcome matches Ok(step) ==> step.phase == GoalToolPhase::Delivering && step.action == (
        GoalToolAction::RecordDelivery { stage_id, artifact }),
        outcome is Err ==> tells_model(
            outcome,
            "stage delivery needs a nonempty stage_id and artifact reference (at most 8192 bytes)"@,
        ),
{
}

/// A delivery that names only the stage or only the artifact is refused.
pub proof fn lemma_half_a_delivery_is_refused(
    given: String,
    staged: Result<(), String>,
    with_stage: Result<GoalToolStep, FunctionCallError>,
    with_artifact: Result<GoalToolStep, FunctionCallError>,
)
    requires
        begins_update(
            UpdateGoalArgs {
                status: None,
                timezone: None,
                stages: None,
                stage_id: Some(given),
                delivered_artifact: None,
            },
            staged,
            with_stage,
        ),
        begins_update(
            UpdateGoalArgs {
                status: None,
                timezone: None,
                stages: None,
                stage_id: None,
                delivered_artifact: Some(given),
            },
            staged,
            with_artifact,
        ),
    ensures
        tells_model(
            with_stage,
            "stage delivery requires both stage_id and delivered_artifact"@,
        ),
        tells_model(
            with_artifact,
            "stage delivery requires both stage_id and delivered_artifact"@,
        ),
{
}

/// New stages that pass their check become the schedule, with the timezone as it was given, of
/// whichever goal the thread has; stages that do not pass are refused with the reason. A timezone
/// alone is no schedule.
pub proof fn lemma_when_a_schedule_is_changed(
    timezone: Option<String>,
    stages: Vec<ThreadGoalStage>,
    staged: Result<(), String>,
    outcome: Result<GoalToolStep, FunctionCallError>,
    alone: Result<GoalToolStep, FunctionCallError>,
)
    requires
        begins_update(
            UpdateGoalArgs {
                status: None,
                timezone,
                stages: Some(stages),
                stage_id: None,
                delivered_artifact: None,
            },
            staged,
            outcome,
        ),
        begins_update(
            UpdateGoalArgs {
                status: None,
                timezone,
                stages: None,
                stage_id: None,
                delivered_artifact: None,
            },
            staged,
            alone,
        ),
    ensures
        staged is Ok ==> goes_to(
            outcome,
            GoalToolPhase::Rescheduling,
            GoalToolAction::UpdateSchedule(
                GoalScheduleUpdate { timezone, stages, expected_goal_id: None },
            ),
        ),
        staged matches Err(message) ==> tells_model(outcome, message@),
        tells_model(alone, "update_goal requires status, stages, or stage delivery"@),
{
}

/// A status is given exactly where it is complete, blocked or paused. Usage is counted first: for a
/// completed goal also where it is complete by then, and else where it has stopped by then.
pub proof fn lemma_when_a_status_is_given(
    status: ThreadGoalStatus,
    staged: Result<(), String>,
    outcome: Result<GoalToolStep, FunctionCallError>,
)
    requires
        begins_update(
            UpdateGoalArgs {
                status: Some(status),
                timezone: None,
                stages: None,
                stage_id: None,
                delivered_artifact: None,
            },
            staged,
            outcome,
        ),
    ensures
        outcome is Ok <==> status == ThreadGoalStatus::Complete || status
            == ThreadGoalStatus::Blocked || status == ThreadGoalStatus::Paused,
        outcome matches Ok(step) ==> step.phase == (GoalToolPhase::Accounting { status }),
        status == ThreadGoalStatus::Complete ==> outcome->Ok_0.action == (
        GoalToolAction::AccountProgress { mode: GoalAccountingMode::ActiveOrComplete }),
        status == ThreadGoalStatus::Blocked || status == ThreadGoalStatus::Paused
            ==> outcome->Ok_0.action == (GoalToolAction::AccountProgress {
            mode: GoalAccountingMode::ActiveOrStopped,
        }),
{
}

/// Whether a step answers with a goal and these snapshots.
pub open spec fn responds_with(
    step: GoalToolStep,
    goal: Option<ThreadGoal>,
    snapshots: Seq<GoalQuotaSnapshot>,
) -> bool {
    step.phase == GoalToolPhase::Finished && (step.action matches GoalToolAction::Respond(response)
        && response.goal == goal && response.current_quota_snapshots@ == snapshots
        && response.remaining_tokens == remaining_tokens(goal))
}

/// A read answers with the goal that the store gave: at once without snapshots, or with those that
/// were taken. It reports no completion.
pub proof fn lemma_read_answers_with_the_stored_goal(
    goal: Option<StoredGoal>,
    snapshots: Vec<GoalQuotaSnapshot>,
    at_once: Result<GoalToolStep, FunctionCallError>,
    asked: Result<GoalToolStep, FunctionCallError>,
    answered: Result<GoalToolStep, FunctionCallError>,
)
    requires
        advances(false, GoalToolPhase::ReadingGoal, GoalToolEvent::Goal(Ok(goal)), at_once),
        advances(true, GoalToolPhase::ReadingGoal, GoalToolEvent::Goal(Ok(goal)), asked),
        asked matches Ok(step) ==> advances(
            true,
            step.phase,
            GoalToolEvent::Quota(snapshots),
            answered,
        ),
    ensures
        ({
            let shown = match goal {
                Some(goal) => Some(protocol_goal(goal)),
                None => None,
            };
            &&& at_once matches Ok(step) && responds_with(step, shown, Seq::empty())
            &&& at_once->Ok_0.action->Respond_0.completion_budget_report is None
            &&& asked matches Ok(step) && step.action == GoalToolAction::TakeQuota
            &&& answered matches Ok(step) && responds_with(step, shown, snapshots@)
            &&& answered->Ok_0.action->Respond_0.completion_budget_report is None
        }),
{
}

/// A creation works on the goal that the store gave last: the inserted one, then the scheduled one,
/// then the one with the baseline where the store gave that. It schedules where a timezone or stages
/// were asked for, for the inserted goal alone, stores the quota that was taken as the baseline of that
/// goal, makes the goal known in the turn that it entered, and answers with it.
pub proof fn lemma_creation_follows_the_store(
    has_quota: bool,
    timezone: Option<String>,
    stages: Option<Vec<ThreadGoalStage>>,
    inserted: StoredGoal,
    scheduled: StoredGoal,
    snapshots: Vec<GoalQuotaSnapshot>,
    stored: Option<StoredGoal>,
    turn_id: Option<String>,
    s1: Result<GoalToolStep, FunctionCallError>,
    s2: Result<GoalToolStep, FunctionCallError>,
    s3: Result<GoalToolStep, FunctionCallError>,
    s4: Result<GoalToolStep, FunctionCallError>,
    s5: Result<GoalToolStep, FunctionCallError>,
    s6: Result<GoalToolStep, FunctionCallError>,
)
    requires
        advances(
            has_quota,
            GoalToolPhase::Inserting { timezone, stages },
            GoalToolEvent::Goal(Ok(Some(inserted))),
            s1,
        ),
        timezone is Some || stages is Some ==> (s1 matches Ok(step) ==> advances(
            has_quota,
            step.phase,
            GoalToolEvent::Goal(Ok(Some(scheduled))),
            s2,
        )),
        timezone is None && stages is None ==> s2 == s1 && scheduled == inserted,
        has_quota ==> (s2 matches Ok(step) ==> advances(
            has_quota,
            step.phase,
            GoalToolEvent::Quota(snapshots),
            s3,
        )),
        !has_quota ==> s3 == s2 && snapshots@.len() == 0,
        s3 matches Ok(step) ==> advances(
            has_quota,
            step.phase,
            GoalToolEvent::Goal(Ok(stored)),
            s4,
        ),
        s4 matches Ok(step) ==> advances(has_quota, step.phase, GoalToolEvent::Turn(turn_id), s5),
        s5 matches Ok(step) ==> advances(has_quota, step.phase, GoalToolEvent::Announced, s6),
    ensures
        timezone is Some || stages is Some ==> (s1 matches Ok(step) && (
        step.action matches GoalToolAction::UpdateSchedule(update) && update.expected_goal_id == Some(
            inserted.goal_id,
        ) && (stages matches Some(listed) ==> update.stages == listed) && (stages is None
            ==> update.stages@.len() == 0) && (timezone is Some ==> update.timezone == timezone) && (
        timezone is None ==> (update.timezone matches Some(local) && is_local_timezone(local))))),
        has_quota ==> (s2 matches Ok(step) && step.action == GoalToolAction::TakeQuota),
        s3 matches Ok(step) && (step.action matches GoalToolAction::StoreBaseline {
            goal_id,
            snapshots: taken,
        } && goal_id == scheduled.goal_id && taken@ == snapshots@),
        s4 matches Ok(step) && step.action == GoalToolAction::EnterTurn && step.phase == (
        GoalToolPhase::EnteringTurn {
            goal: match stored {
                Some(goal) => goal,
                None => scheduled,
            },
        }),
        s5 matches Ok(step) && step.action == (GoalToolAction::Announce { turn_id })
            && step.phase == (GoalToolPhase::Announcing {
            shown: protocol_goal(
                match stored {
                    Some(goal) => goal,
                    None => scheduled,
                },
            ),
            report: CompletionBudgetReport::Omit,
        }),
        !has_quota ==> (s6 matches Ok(step) && responds_with(
            step,
            Some(
                protocol_goal(
                    match stored {
                        Some(goal) => goal,
                        None => scheduled,
                    },
                ),
            ),
            Seq::empty(),
        )),
        has_quota ==> (s6 matches Ok(step) && step.action == GoalToolAction::TakeQuota),
{
    if !has_quota {
        assert(snapshots@ =~= Seq::empty());
    }
}

/// A change of status counts usage, reads the status before, gives the new one, leaves the turn and
/// makes the changed goal known in it. Completion is reported for a completion alone.
pub proof fn lemma_status_change_follows_the_store(
    status: ThreadGoalStatus,
    before: Option<StoredGoal>,
    changed: StoredGoal,
    turn_id: Option<String>,
    s1: Result<GoalToolStep, FunctionCallError>,
    s2: Result<GoalToolStep, FunctionCallError>,
    s3: Result<GoalToolStep, FunctionCallError>,
    s4: Result<GoalToolStep, FunctionCallError>,
    s5: Result<GoalToolStep, FunctionCallError>,
)
    requires
        advances(
            false,
            GoalToolPhase::Accounting { status },
            GoalToolEvent::Accounted(Ok(())),
            s1,
        ),
        s1 matches Ok(step) ==> advances(false, step.phase, GoalToolEvent::Goal(Ok(before)), s2),
        s2 matches Ok(step) ==> advances(
            false,
            step.phase,
            GoalToolEvent::Goal(Ok(Some(changed))),
            s3,
        ),
        s3 matches Ok(step) ==> advances(false, step.phase, GoalToolEvent::Turn(turn_id), s4),
        s4 matches Ok(step) ==> advances(false, step.phase, GoalToolEvent::Announced, s5),
    ensures
        s1 matches Ok(step) && step.action == GoalToolAction::ReadGoal,
        s2 matches Ok(step) && (step.action matches GoalToolAction::UpdateStatus { status: stored }
            && protocol_status(stored) == status),
        s3 matches Ok(step) && (step.action matches GoalToolAction::LeaveTurn { previous } && previous
            == (match before {
            Some(goal) => Some(goal.status),
            None => None,
        })) && (step.phase matches GoalToolPhase::LeavingTurn { goal, .. } && goal == changed),
        s4 matches Ok(step) && step.action == (GoalToolAction::Announce { turn_id }),
        s5 matches Ok(step) && responds_with(step, Some(protocol_goal(changed)), Seq::empty()),
        s5->Ok_0.action->Respond_0.completion_budget_report is Some <==> status
            == ThreadGoalStatus::Complete && changed.status == StoredGoalStatus::Complete && (
        changed.token_budget is Some || changed.time_used_seconds > 0),
{
}

/// A delivery or a change of the schedule makes the goal that the store gave known outside of any
/// turn, and answers with it. It reports no completion.
pub proof fn lemma_edit_follows_the_store(
    phase: GoalToolPhase,
    goal: StoredGoal,
    s1: Result<GoalToolStep, FunctionCallError>,
    s2: Result<GoalToolStep, FunctionCallError>,
)
    requires
        phase == GoalToolPhase::Delivering || phase == GoalToolPhase::Rescheduling,
        advances(false, phase, GoalToolEvent::Goal(Ok(Some(goal))), s1),
        s1 matches Ok(step) ==> advances(false, step.phase, GoalToolEvent::Announced, s2),
    ensures
        s1 matches Ok(step) && step.action == (GoalToolAction::Announce { turn_id: None }) && (
        step.phase matches GoalToolPhase::Announcing { shown, .. } && shown == protocol_goal(goal)),
        s2 matches Ok(step) && responds_with(step, Some(protocol_goal(goal)), Seq::empty()),
        s2->Ok_0.action->Respond_0.completion_budget_report is None,
{
}

/// A failure of the store ends a run with a message that names what failed and why, and where the store
/// has nothing to give the run ends with what is missing. Only where a goal is read, or its baseline
/// or its status, does the run go on without.
pub proof fn lemma_store_failures_are_told(
    has_quota: bool,
    error: String,
    timezone: Option<String>,
    stages: Option<Vec<ThreadGoalStage>>,
    goal: StoredGoal,
    status: ThreadGoalStatus,
    previous: Option<StoredGoalStatus>,
    outcome: Result<GoalToolStep, FunctionCallError>,
)
    ensures
        advances(
            has_quota,
            GoalToolPhase::ReadingGoal,
            GoalToolEvent::Goal(Err(error)),
            outcome,
        ) ==> tells_model(outcome, "failed to read goal: "@ + error@),
        advances(
            has_quota,
            GoalToolPhase::Inserting { timezone, stages },
            GoalToolEvent::Goal(Err(error)),
            outcome,
        ) ==> tells_model(outcome, "failed to create goal: "@ + error@),
        advances(
            has_quota,
            GoalToolPhase::Inserting { timezone, stages },
            GoalToolEvent::Goal(Ok(None)),
            outcome,
        ) ==> outcome is Err,
        advances(
            has_quota,
            GoalToolPhase::SchedulingNew,
            GoalToolEvent::Goal(Err(error)),
            outcome,
        ) ==> tells_model(outcome, "failed to schedule goal: "@ + error@),
        advances(
            has_quota,
            GoalToolPhase::SchedulingNew,
            GoalToolEvent::Goal(Ok(None)),
            outcome,
        ) ==> tells_model(outcome, "goal disappeared while scheduling"@),
        advances(
            has_quota,
            GoalToolPhase::StoringBaseline { goal },
            GoalToolEvent::Goal(Err(error)),
            outcome,
        ) ==> tells_model(outcome, "failed to capture goal baseline: "@ + error@),
        advances(
            has_quota,
            GoalToolPhase::Delivering,
            GoalToolEvent::Goal(Err(error)),
            outcome,
        ) ==> tells_model(outcome, "failed to record stage delivery: "@ + error@),
        advances(
            has_quota,
            GoalToolPhase::Delivering,
            GoalToolEvent::Goal(Ok(None)),
            outcome,
        ) ==> outcome is Err,
        advances(
            has_quota,
            GoalToolPhase::Rescheduling,
            GoalToolEvent::Goal(Err(error)),
            outcome,
        ) ==> tells_model(outcome, "failed to update goal schedule: "@ + error@),
        advances(
            has_quota,
            GoalToolPhase::Rescheduling,
            GoalToolEvent::Goal(Ok(None)),
            outcome,
        ) ==> outcome is Err,
        advances(
            has_quota,
            GoalToolPhase::ReadingStatus { status },
            GoalToolEvent::Goal(Err(error)),
            outcome,
        ) ==> tells_model(outcome, "failed to read goal metrics status: "@ + error@),
        advances(
            has_quota,
            GoalToolPhase::UpdatingStatus { status, previous },
            GoalToolEvent::Goal(Err(error)),
            outcome,
        ) ==> tells_model(outcome, "failed to update goal: "@ + error@),
        advances(
            has_quota,
            GoalToolPhase::UpdatingStatus { status, previous },
            GoalToolEvent::Goal(Ok(None)),
            outcome,
        ) ==> outcome is Err,
{
}

/// Where usage cannot be counted, a change of status ends with that error, and the status is not
/// given.
pub proof fn lemma_uncounted_usage_ends_the_change(
    has_quota: bool,
    status: ThreadGoalStatus,
    error: FunctionCallError,
    outcome: Result<GoalToolStep, FunctionCallError>,
)
    requires
        advances(
            has_quota,
            GoalToolPhase::Accounting { status },
            GoalToolEvent::Accounted(Err(error)),
            outcome,
        ),
    ensures
        outcome == Err::<GoalToolStep, FunctionCallError>(error),
{
}

/// Usage is counted for the goal that the progress names and for what it names, in the mode that was
/// asked for. The status before counts only where the goal that is read is that goal. A change is made
/// known and handed back as the store gave it.
pub proof fn lemma_count_follows_the_store(
    mode: GoalAccountingMode,
    turn_id: String,
    snapshot: ProgressSnapshot,
    read: StoredGoal,
    changed: StoredGoal,
    s1: Result<ProgressStep, FunctionCallError>,
    s2: Result<ProgressStep, FunctionCallError>,
    s3: Result<ProgressStep, FunctionCallError>,
    s4: Result<ProgressStep, FunctionCallError>,
    s5: Result<ProgressStep, FunctionCallError>,
)
    requires
        advances_count(
            mode,
            ProgressPhase::AwaitingPermit { turn_id },
            ProgressEvent::Permit(Ok(())),
            s1,
        ),
        s1 matches Ok(step) ==> advances_count(
            mode,
            step.phase,
            ProgressEvent::Progress(Some(snapshot)),
            s2,
        ),
        s2 matches Ok(step) ==> advances_count(
            mode,
            step.phase,
            ProgressEvent::Goal(Ok(Some(read))),
            s3,
        ),
        s3 matches Ok(step) ==> advances_count(
            mode,
            step.phase,
            ProgressEvent::Counted(Ok(GoalAccountingOutcome::Updated(changed))),
            s4,
        ),
        s4 matches Ok(step) ==> advances_count(mode, step.phase, ProgressEvent::Announced, s5),
    ensures
        s1 matches Ok(step) && step.action == ProgressAction::ReadProgress,
        s2 matches Ok(step) && step.action == ProgressAction::ReadGoal,
        s3 matches Ok(step) && step.action == (ProgressAction::CountUsage {
            time_delta_seconds: snapshot.time_delta_seconds,
            token_delta: snapshot.token_delta,
            mode,
            expected_goal_id: snapshot.expected_goal_id,
        }),
        s4 matches Ok(step) && step.action == ProgressAction::Announce && (
        step.phase matches ProgressPhase::Announcing {
            turn_id: turn,
            snapshot: counted,
            previous,
            goal,
        } && turn == turn_id && counted == snapshot && goal == changed && previous == (
        if read.goal_id@ == snapshot.expected_goal_id@ {
            Some(read.status)
        } else {
            None
        })),
        s5 matches Ok(step) && step.action == (ProgressAction::Finish {
            changed: Some(protocol_goal(changed)),
        }) && step.phase == ProgressPhase::Finished,
{
}

/// Where there is no progress, or the store changed nothing, counting is over without a change. A
/// failure ends it: a lost permit for good, and a failure of the store with a message.
pub proof fn lemma_count_without_a_change(
    mode: GoalAccountingMode,
    turn_id: String,
    snapshot: ProgressSnapshot,
    previous: Option<StoredGoalStatus>,
    error: String,
    outcome: Result<ProgressStep, FunctionCallError>,
)
    ensures
        advances_count(
            mode,
            ProgressPhase::ReadingProgress { turn_id },
            ProgressEvent::Progress(None),
            outcome,
        ) ==> (outcome matches Ok(step) && step.action == (ProgressAction::Finish { changed: None })),
        advances_count(
            mode,
            ProgressPhase::Counting { turn_id, snapshot, previous },
            ProgressEvent::Counted(Ok(GoalAccountingOutcome::Unchanged)),
            outcome,
        ) ==> (outcome matches Ok(step) && step.action == (ProgressAction::Finish { changed: None })),
        advances_count(
            mode,
            ProgressPhase::AwaitingPermit { turn_id },
            ProgressEvent::Permit(Err(error)),
            outcome,
        ) ==> (outcome matches Err(FunctionCallError::Fatal(message)) && message@
            == "goal progress accounting semaphore closed: "@ + error@),
        advances_count(
            mode,
            ProgressPhase::ReadingStatus { turn_id, snapshot },
            ProgressEvent::Goal(Err(error)),
            outcome,
        ) ==> tells_model(outcome, "failed to read goal metrics status: "@ + error@),
        advances_count(
            mode,
            ProgressPhase::Counting { turn_id, snapshot, previous },
            ProgressEvent::Counted(Err(error)),
            outcome,
        ) ==> tells_model(outcome, "failed to account goal progress: "@ + error@),
{
}

/// Each kind of executor runs the tool of its name.
pub proof fn lemma_tools_of_kinds()
    ensures
        tool_of(GoalToolKind::Get).name == "get_goal"@,
        tool_of(GoalToolKind::Create).name == "create_goal"@,
        tool_of(GoalToolKind::Update).name == "update_goal"@,
{
}

/// Once a change is known, the answer shows the changed goal with the snapshots that were taken, and
/// reports a completion exactly where it was asked to and there is one.
pub proof fn lemma_answer_with_quota(
    shown: ThreadGoal,
    report: CompletionBudgetReport,
    snapshots: Vec<GoalQuotaSnapshot>,
    s1: Result<GoalToolStep, FunctionCallError>,
    s2: Result<GoalToolStep, FunctionCallError>,
)
    requires
        advances(true, GoalToolPhase::Announcing { shown, report }, GoalToolEvent::Announced, s1),
        s1 matches Ok(step) ==> advances(true, step.phase, GoalToolEvent::Quota(snapshots), s2),
    ensures
        s1 matches Ok(step) && step.action == GoalToolAction::TakeQuota,
        s2 matches Ok(step) && responds_with(step, Some(shown), snapshots@),
        s2->Ok_0.action->Respond_0.completion_budget_report is Some <==> report
            == CompletionBudgetReport::Include && shown.status == ThreadGoalStatus::Complete && (
        shown.token_budget is Some || shown.time_used_seconds > 0),
{
}

/// What is told to the model is a failure that the model gets to read, with exactly that text.
pub proof fn lemma_what_the_model_is_told<T>(outcome: Result<T, FunctionCallError>, text: Seq<char>)
    ensures
        tells_model(outcome, text) <==> (outcome matches Err(FunctionCallError::RespondToModel(
            message,
        )) && message@ == text),
        outcome is Ok ==> !tells_model(outcome, text),
{
}

} // verus!

//! Bounded canonical facts for a live goal execution.

use crate::protocol::{GoalQuotaSnapshot, QuotaModel};
use vstd::prelude::*;

verus! {

/// Bounded canonical facts for a live goal execution.
#[derive(Debug, PartialEq)]
pub struct GoalExecutionContext {
    pub objective: String,
    pub now_at: i64,
    pub created_at: i64,
    pub timezone: Option<String>,
    pub final_deadline_at: Option<i64>,
    pub final_deadline_remaining_seconds: Option<i64>,
    pub final_deadline_overdue_seconds: Option<i64>,
    pub final_deadline_remaining_percent: Option<i64>,
    pub current_stage: Option<GoalStageExecutionContext>,
    pub overdue_stage_count: usize,
    pub latest_delivered_artifact: Option<String>,
    pub latest_delivered_at: Option<i64>,
    pub initial_token_budget: Option<i64>,
    pub current_token_budget: Option<i64>,
    pub tokens_used: i64,
    pub time_used_seconds: i64,
    pub initial_quota_snapshots: Vec<GoalQuotaSnapshot>,
    pub current_quota_snapshots: Vec<GoalQuotaSnapshot>,
}

/// The stage that is worked on, with the time that is left for it.
#[derive(Debug, PartialEq)]
pub struct GoalStageExecutionContext {
    pub id: String,
    pub label: String,
    pub expected_result: String,
    pub deadline_at: i64,
    pub remaining_seconds: i64,
    pub overdue_seconds: i64,
    pub remaining_percent: Option<i64>,
    pub delivered_at: Option<i64>,
    pub delivered_artifact: Option<String>,
}

/// What the facts of an execution stand for.
pub struct ExecutionModel {
    pub objective: Seq<char>,
    pub now_at: i64,
    pub created_at: i64,
    pub timezone: Option<Seq<char>>,
    pub final_deadline_at: Option<i64>,
    pub final_deadline_remaining_seconds: Option<i64>,
    pub final_deadline_overdue_seconds: Option<i64>,
    pub final_deadline_remaining_percent: Option<i64>,
    pub current_stage: Option<StageExecutionModel>,
    pub overdue_stage_count: nat,
    pub latest_delivered_artifact: Option<Seq<char>>,
    pub latest_delivered_at: Option<i64>,
    pub initial_token_budget: Option<i64>,
    pub current_token_budget: Option<i64>,
    pub tokens_used: i64,
    pub time_used_seconds: i64,
    pub initial_quota_snapshots: Seq<QuotaModel>,
    pub current_quota_snapshots: Seq<QuotaModel>,
}

/// What the facts of a stage stand for.
pub struct StageExecutionModel {
    pub id: Seq<char>,
    pub label: Seq<char>,
    pub expected_result: Seq<char>,
    pub deadline_at: i64,
    pub remaining_seconds: i64,
    pub overdue_seconds: i64,
    pub remaining_percent: Option<i64>,
    pub delivered_at: Option<i64>,
    pub delivered_artifact: Option<Seq<char>>,
}

impl DeepView for GoalStageExecutionContext {
    type V = StageExecutionModel;

    open spec fn deep_view(&self) -> StageExecutionModel {
        StageExecutionModel {
            id: self.id@,
            label: self.label@,
            expected_result: self.expected_result@,
            deadline_at: self.deadline_at,
            remaining_seconds: self.remaining_seconds,
            overdue_seconds: self.overdue_seconds,
            remaining_percent: self.remaining_percent,
            delivered_at: self.delivered_at,
            delivered_artifact: self.delivered_artifact.deep_view(),
        }
    }
}

impl DeepView for GoalExecutionContext {
    type V = ExecutionModel;

    open spec fn deep_view(&self) -> ExecutionModel {
        ExecutionModel {
            objective: self.objective@,
            now_at: self.now_at,
            created_at: self.created_at,
            timezone: self.timezone.deep_view(),
            final_deadline_at: self.final_deadline_at,
            final_deadline_remaining_seconds: self.final_deadline_remaining_seconds,
            final_deadline_overdue_seconds: self.final_deadline_overdue_seconds,
            final_deadline_remaining_percent: self.final_deadline_remaining_percent,
            current_stage: self.current_stage.deep_view(),
            overdue_stage_count: self.overdue_stage_count as nat,
            latest_delivered_artifact: self.latest_delivered_artifact.deep_view(),
            latest_delivered_at: self.latest_delivered_at,
            initial_token_budget: self.initial_token_budget,
            current_token_budget: self.current_token_budget,
            tokens_used: self.tokens_used,
            time_used_seconds: self.time_used_seconds,
            initial_quota_snapshots: self.initial_quota_snapshots.deep_view(),
            current_quota_snapshots: self.current_quota_snapshots.deep_view(),
        }
    }
}

} // verus!

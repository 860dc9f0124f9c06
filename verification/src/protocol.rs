//! Durable, user-authored goal scheduling data.
//!
//! These types carry only schedule and accounting baselines. Goal execution remains owned by the
//! runtime; an overdue stage is informational and never changes a goal's status on its own.

use vstd::prelude::*;

verus! {

/// How far a goal has come.
#[derive(Debug, Clone, Copy, PartialEq, Eq, Structural)]
pub enum ThreadGoalStatus {
    Active,
    Paused,
    Blocked,
    UsageLimited,
    BudgetLimited,
    Complete,
}

impl DeepView for ThreadGoalStatus {
    type V = ThreadGoalStatus;

    open spec fn deep_view(&self) -> ThreadGoalStatus {
        *self
    }
}

/// One deliverable of a goal.
#[derive(Debug, PartialEq)]
pub struct ThreadGoalStage {
    /// Stable user-visible identity. Revisions retain a stage's id.
    pub id: String,
    pub label: String,
    pub expected_result: String,
    /// Unix seconds at which this deliverable is due.
    pub deadline_at: i64,
    /// Server-stamped Unix seconds when evidence was recorded.
    pub delivered_at: Option<i64>,
    /// Reference to an actually delivered artifact.
    pub delivered_artifact: Option<String>,
}

/// What a stage stands for.
pub struct StageModel {
    pub id: Seq<char>,
    pub label: Seq<char>,
    pub expected_result: Seq<char>,
    pub deadline_at: i64,
    pub delivered_at: Option<i64>,
    pub delivered_artifact: Option<Seq<char>>,
}

impl DeepView for ThreadGoalStage {
    type V = StageModel;

    open spec fn deep_view(&self) -> StageModel {
        StageModel {
            id: self.id@,
            label: self.label@,
            expected_result: self.expected_result@,
            deadline_at: self.deadline_at,
            delivered_at: self.delivered_at,
            delivered_artifact: self.delivered_artifact.deep_view(),
        }
    }
}

impl Clone for ThreadGoalStage {
    fn clone(&self) -> (copy: Self)
        ensures
            copy.deep_view() == self.deep_view(),
    {
        ThreadGoalStage {
            id: self.id.clone(),
            label: self.label.clone(),
            expected_result: self.expected_result.clone(),
            deadline_at: self.deadline_at,
            delivered_at: self.delivered_at,
            delivered_artifact: self.delivered_artifact.clone(),
        }
    }
}

/// One quota window as a provider reports it.
#[derive(Debug, Clone, Copy, PartialEq, Eq, Structural)]
pub struct RateLimitWindow {
    /// Share of the window that is used, in millionths of a percent.
    pub used_percent: i64,
    pub window_minutes: Option<i64>,
    /// Unix seconds at which the window starts anew.
    pub resets_at: Option<i64>,
}

impl DeepView for RateLimitWindow {
    type V = RateLimitWindow;

    open spec fn deep_view(&self) -> RateLimitWindow {
        *self
    }
}

/// The limits of one metered feature. Facts that only pass through are kept in the form in which
/// the provider rendered them.
#[derive(Debug, PartialEq)]
pub struct RateLimitSnapshot {
    pub limit_id: Option<String>,
    pub primary: Option<RateLimitWindow>,
    pub secondary: Option<RateLimitWindow>,
    pub credits: Option<String>,
    pub individual_limit: Option<String>,
    pub spend_control_reached: Option<bool>,
    pub plan_type: Option<String>,
    pub rate_limit_reached_type: Option<String>,
    pub normal_model_slug: Option<String>,
}

/// What the limits of one metered feature stand for.
pub struct LimitModel {
    pub limit_id: Option<Seq<char>>,
    pub primary: Option<RateLimitWindow>,
    pub secondary: Option<RateLimitWindow>,
    pub credits: Option<Seq<char>>,
    pub individual_limit: Option<Seq<char>>,
    pub spend_control_reached: Option<bool>,
    pub plan_type: Option<Seq<char>>,
    pub rate_limit_reached_type: Option<Seq<char>>,
    pub normal_model_slug: Option<Seq<char>>,
}

impl DeepView for RateLimitSnapshot {
    type V = LimitModel;

    open spec fn deep_view(&self) -> LimitModel {
        LimitModel {
            limit_id: self.limit_id.deep_view(),
            primary: self.primary,
            secondary: self.secondary,
            credits: self.credits.deep_view(),
            individual_limit: self.individual_limit.deep_view(),
            spend_control_reached: self.spend_control_reached,
            plan_type: self.plan_type.deep_view(),
            rate_limit_reached_type: self.rate_limit_reached_type.deep_view(),
            normal_model_slug: self.normal_model_slug.deep_view(),
        }
    }
}

impl Clone for RateLimitSnapshot {
    fn clone(&self) -> (copy: Self)
        ensures
            copy.deep_view() == self.deep_view(),
    {
        RateLimitSnapshot {
            limit_id: self.limit_id.clone(),
            primary: self.primary,
            secondary: self.secondary,
            credits: self.credits.clone(),
            individual_limit: self.individual_limit.clone(),
            spend_control_reached: self.spend_control_reached,
            plan_type: self.plan_type.clone(),
            rate_limit_reached_type: self.rate_limit_reached_type.clone(),
            normal_model_slug: self.normal_model_slug.clone(),
        }
    }
}

/// The limits that one source reported for one scope.
#[derive(Debug, PartialEq)]
pub struct GoalQuotaSnapshot {
    /// Unix seconds when this host observed the limits.
    pub captured_at: i64,
    /// The provider or runtime that supplied the limits.
    pub source: String,
    /// Account/workspace scope to which the limits apply.
    pub scope_id: String,
    pub limits: Vec<RateLimitSnapshot>,
}

/// What a quota snapshot stands for.
pub struct QuotaModel {
    pub captured_at: i64,
    pub source: Seq<char>,
    pub scope_id: Seq<char>,
    pub limits: Seq<LimitModel>,
}

impl DeepView for GoalQuotaSnapshot {
    type V = QuotaModel;

    open spec fn deep_view(&self) -> QuotaModel {
        QuotaModel {
            captured_at: self.captured_at,
            source: self.source@,
            scope_id: self.scope_id@,
            limits: self.limits.deep_view(),
        }
    }
}

impl Clone for GoalQuotaSnapshot {
    fn clone(&self) -> (copy: Self)
        ensures
            copy.deep_view() == self.deep_view(),
    {
        let limits = self.limits.clone();
        proof {
            assert(limits.deep_view() =~= self.limits.deep_view());
        }
        GoalQuotaSnapshot {
            captured_at: self.captured_at,
            source: self.source.clone(),
            scope_id: self.scope_id.clone(),
            limits,
        }
    }
}

/// A goal of a thread.
#[derive(Debug, PartialEq)]
pub struct ThreadGoal {
    pub thread_id: String,
    pub objective: String,
    pub status: ThreadGoalStatus,
    pub token_budget: Option<i64>,
    pub tokens_used: i64,
    pub time_used_seconds: i64,
    pub created_at: i64,
    pub updated_at: i64,
    pub timezone: Option<String>,
    pub stages: Vec<ThreadGoalStage>,
    pub initial_quota_snapshots: Vec<GoalQuotaSnapshot>,
    pub initial_token_budget: Option<i64>,
}

/// What a goal stands for.
pub struct GoalModel {
    pub thread_id: Seq<char>,
    pub objective: Seq<char>,
    pub status: ThreadGoalStatus,
    pub token_budget: Option<i64>,
    pub tokens_used: i64,
    pub time_used_seconds: i64,
    pub created_at: i64,
    pub updated_at: i64,
    pub timezone: Option<Seq<char>>,
    pub stages: Seq<StageModel>,
    pub initial_quota_snapshots: Seq<QuotaModel>,
    pub initial_token_budget: Option<i64>,
}

impl DeepView for ThreadGoal {
    type V = GoalModel;

    open spec fn deep_view(&self) -> GoalModel {
        GoalModel {
            thread_id: self.thread_id@,
            objective: self.objective@,
            status: self.status,
            token_budget: self.token_budget,
            tokens_used: self.tokens_used,
            time_used_seconds: self.time_used_seconds,
            created_at: self.created_at,
            updated_at: self.updated_at,
            timezone: self.timezone.deep_view(),
            stages: self.stages.deep_view(),
            initial_quota_snapshots: self.initial_quota_snapshots.deep_view(),
            initial_token_budget: self.initial_token_budget,
        }
    }
}

/// A copy of a list of stages.
pub fn clone_stages(stages: &Vec<ThreadGoalStage>) -> (copy: Vec<ThreadGoalStage>)
    ensures
        copy.deep_view() == stages.deep_view(),
{
    let copy = stages.clone();
    proof {
        assert(copy.deep_view() =~= stages.deep_view());
    }
    copy
}

/// A copy of a list of quota snapshots.
pub fn clone_snapshots(snapshots: &Vec<GoalQuotaSnapshot>) -> (copy: Vec<GoalQuotaSnapshot>)
    ensures
        copy.deep_view() == snapshots.deep_view(),
{
    let copy = snapshots.clone();
    proof {
        assert(copy.deep_view() =~= snapshots.deep_view());
    }
    copy
}

impl Clone for ThreadGoal {
    fn clone(&self) -> (copy: Self)
        ensures
            copy.deep_view() == self.deep_view(),
    {
        ThreadGoal {
            thread_id: self.thread_id.clone(),
            objective: self.objective.clone(),
            status: self.status,
            token_budget: self.token_budget,
            tokens_used: self.tokens_used,
            time_used_seconds: self.time_used_seconds,
            created_at: self.created_at,
            updated_at: self.updated_at,
            timezone: self.timezone.clone(),
            stages: clone_stages(&self.stages),
            initial_quota_snapshots: clone_snapshots(&self.initial_quota_snapshots),
            initial_token_budget: self.initial_token_budget,
        }
    }
}

} // verus!

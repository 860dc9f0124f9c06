//! Goal schedules: which stage is due, how much time is left, and the reminder for the model.

use crate::calendar::{render_utc_seconds, utc_seconds_text};
use crate::goal_execution::{
    ExecutionModel, GoalExecutionContext, GoalStageExecutionContext, StageExecutionModel,
};
use crate::lists::{
    first_where, lemma_first_where, lemma_first_where_skip, lemma_push_deep_view, models,
};
use crate::protocol::{
    GoalModel, GoalQuotaSnapshot, LimitModel, QuotaModel, RateLimitSnapshot, RateLimitWindow,
    StageModel, ThreadGoal, ThreadGoalStage, ThreadGoalStatus,
};
use crate::text::{
    bounded, bounded_text, decimal, has_prefix, integer_text, lemma_bounded_text,
    lemma_bounded_text_keeps_prefix, lemma_utf8_len_concat, push_decimal, push_two_digits,
    same_text, signed_text, two_digits, utf8_len,
};
use vstd::prelude::*;

verus! {

/// An integer, or the end of the range of `i64` that lies nearer to it.
pub open spec fn saturated(value: int) -> i64 {
    if value > i64::MAX {
        i64::MAX
    } else if value < i64::MIN {
        i64::MIN
    } else {
        value as i64
    }
}

/// `a - b`, held within `i64`.
pub fn saturating_difference(a: i64, b: i64) -> (difference: i64)
    ensures
        difference == saturated(a - b),
{
    let exact: i128 = a as i128 - b as i128;
    if exact > i64::MAX as i128 {
        i64::MAX
    } else if exact < i64::MIN as i128 {
        i64::MIN
    } else {
        exact as i64
    }
}

/// The seconds by which `now` is past `due`.
pub open spec fn overdue_by(due: i64, now: i64) -> i64 {
    if now <= due {
        0
    } else {
        saturated(now - due)
    }
}

fn overdue_seconds(due: i64, now: i64) -> (seconds: i64)
    ensures
        seconds == overdue_by(due, now),
{
    if now <= due {
        0
    } else {
        saturating_difference(now, due)
    }
}

/// The share of the time from `start` to `due` that is left at `now`, in whole percent; none where
/// no time lies between `start` and `due`.
pub open spec fn percent_left(start: i64, due: i64, now: i64) -> Option<i64> {
    if now >= due {
        Some(0)
    } else if due - start > 0 {
        let share = ((due - now) * 100) / (due - start);
        if share > 100 {
            Some(100)
        } else {
            Some(share as i64)
        }
    } else {
        None
    }
}

/// The share of the time from `start` to `due` that is left at `now`, in whole percent.
pub fn remaining_percent(start: i64, due: i64, now: i64) -> (percent: Option<i64>)
    ensures
        percent == percent_left(start, due, now),
        percent matches Some(value) ==> 0 <= value <= 100,
{
    if now >= due {
        return Some(0);
    }
    let total: i128 = due as i128 - start as i128;
    if total <= 0 {
        return None;
    }
    let scaled: i128 = (due as i128 - now as i128) * 100;
    let share: i128 = scaled / total;
    proof {
        assert(scaled / total >= 0) by (nonlinear_arith)
            requires
                scaled >= 0,
                total > 0,
        ;
    }
    if share > 100 {
        Some(100)
    } else {
        Some(share as i64)
    }
}

/// The delivered stage that was delivered last; of several at the same time, the last listed.
pub open spec fn latest_delivered(stages: Seq<StageModel>) -> Option<StageModel>
    decreases stages.len(),
{
    if stages.len() == 0 {
        None
    } else {
        let stage = stages.last();
        let earlier = latest_delivered(stages.drop_last());
        match (stage.delivered_at, earlier) {
            (None, _) => earlier,
            (Some(_), None) => Some(stage),
            (Some(at), Some(other)) => if other.delivered_at->0 <= at {
                Some(stage)
            } else {
                earlier
            },
        }
    }
}

/// The stage without delivery whose deadline comes first; of several with the same deadline, the
/// first listed.
pub open spec fn next_due(stages: Seq<StageModel>) -> Option<StageModel>
    decreases stages.len(),
{
    if stages.len() == 0 {
        None
    } else {
        let stage = stages.last();
        let earlier = next_due(stages.drop_last());
        match (stage.delivered_at, earlier) {
            (Some(_), _) => earlier,
            (None, None) => Some(stage),
            (None, Some(other)) => if stage.deadline_at < other.deadline_at {
                Some(stage)
            } else {
                earlier
            },
        }
    }
}

/// The last deadline of all.
pub open spec fn final_deadline(stages: Seq<StageModel>) -> Option<i64>
    decreases stages.len(),
{
    if stages.len() == 0 {
        None
    } else {
        let due = stages.last().deadline_at;
        match final_deadline(stages.drop_last()) {
            Some(other) if other > due => Some(other),
            _ => Some(due),
        }
    }
}

/// The number of stages without delivery whose deadline is past.
pub open spec fn overdue_count(stages: Seq<StageModel>, now: i64) -> nat
    decreases stages.len(),
{
    if stages.len() == 0 {
        0
    } else {
        let stage = stages.last();
        overdue_count(stages.drop_last(), now) + if stage.delivered_at is None && stage.deadline_at
            < now {
            1nat
        } else {
            0nat
        }
    }
}

/// The facts of a stage at the instant `now`, for a goal that was created at `created`.
pub open spec fn stage_facts(stage: StageModel, created: i64, now: i64) -> StageExecutionModel {
    StageExecutionModel {
        id: bounded_text(stage.id, 64),
        label: bounded_text(stage.label, 120),
        expected_result: bounded_text(stage.expected_result, 240),
        deadline_at: stage.deadline_at,
        remaining_seconds: saturated(stage.deadline_at - now),
        overdue_seconds: overdue_by(stage.deadline_at, now),
        remaining_percent: percent_left(created, stage.deadline_at, now),
        delivered_at: stage.delivered_at,
        delivered_artifact: bounded_option(stage.delivered_artifact, 240),
    }
}

/// A text, where there is one, within a byte bound.
pub open spec fn bounded_option(text: Option<Seq<char>>, bytes: nat) -> Option<Seq<char>> {
    match text {
        Some(value) => Some(bounded_text(value, bytes)),
        None => None,
    }
}

/// The first `count` items of a list, or all where there are fewer.
pub open spec fn at_most<T>(items: Seq<T>, count: int) -> Seq<T> {
    if items.len() <= count {
        items
    } else {
        items.take(count)
    }
}

/// The facts of a goal at the instant `now`.
pub open spec fn execution_facts(goal: GoalModel, now: i64) -> ExecutionModel {
    let due = final_deadline(goal.stages);
    let delivered = latest_delivered(goal.stages);
    ExecutionModel {
        objective: bounded_text(goal.objective, 600),
        now_at: now,
        created_at: goal.created_at,
        timezone: bounded_option(goal.timezone, 80),
        final_deadline_at: due,
        final_deadline_remaining_seconds: match due {
            Some(at) => Some(saturated(at - now)),
            None => None,
        },
        final_deadline_overdue_seconds: match due {
            Some(at) => Some(overdue_by(at, now)),
            None => None,
        },
        final_deadline_remaining_percent: match due {
            Some(at) => percent_left(goal.created_at, at, now),
            None => None,
        },
        current_stage: match next_due(goal.stages) {
            Some(stage) => Some(stage_facts(stage, goal.created_at, now)),
            None => None,
        },
        overdue_stage_count: overdue_count(goal.stages, now),
        latest_delivered_artifact: match delivered {
            Some(stage) => bounded_option(stage.delivered_artifact, 240),
            None => None,
        },
        latest_delivered_at: match delivered {
            Some(stage) => stage.delivered_at,
            None => None,
        },
        initial_token_budget: goal.initial_token_budget,
        current_token_budget: goal.token_budget,
        tokens_used: goal.tokens_used,
        time_used_seconds: goal.time_used_seconds,
        initial_quota_snapshots: at_most(goal.initial_quota_snapshots, 2),
        current_quota_snapshots: Seq::empty(),
    }
}

fn bounded_text_option(text: &Option<String>, bytes: usize) -> (cut: Option<String>)
    ensures
        cut.deep_view() == bounded_option(text.deep_view(), bytes as nat),
{
    match text {
        Some(value) => Some(bounded(value.as_str(), bytes)),
        None => None,
    }
}

/// What the loops over the stages of a goal have found in its first stages.
struct StageScan {
    delivered: Option<usize>,
    current: Option<usize>,
    final_deadline: Option<i64>,
    overdue: usize,
}

impl StageScan {
    /// Whether the scan has found what there is to find in `stages`.
    spec fn covers(&self, stages: Seq<ThreadGoalStage>, models: Seq<StageModel>, now: i64) -> bool {
        &&& (self.delivered matches Some(i) ==> i < stages.len())
        &&& (self.current matches Some(i) ==> i < stages.len())
        &&& latest_delivered(models) == (match self.delivered {
            Some(i) => Some(stages[i as int].deep_view()),
            None => None::<StageModel>,
        })
        &&& next_due(models) == (match self.current {
            Some(i) => Some(stages[i as int].deep_view()),
            None => None::<StageModel>,
        })
        &&& self.final_deadline == final_deadline(models)
        &&& self.overdue == overdue_count(models, now)
        &&& self.overdue <= models.len()
        &&& (latest_delivered(models) matches Some(stage) ==> stage.delivered_at is Some)
    }
}

fn scan_stages(stages: &Vec<ThreadGoalStage>, now: i64) -> (scan: StageScan)
    ensures
        scan.covers(stages@, stages.deep_view(), now),
{
    let mut delivered: Option<usize> = None;
    let mut current: Option<usize> = None;
    let mut last_due: Option<i64> = None;
    let mut overdue: usize = 0;
    let mut i: usize = 0;
    let ghost models = stages.deep_view();
    proof {
        assert(models.take(0) =~= Seq::empty());
    }
    while i < stages.len()
        invariant
            i <= stages@.len(),
            models == stages.deep_view(),
            (StageScan { delivered, current, final_deadline: last_due, overdue }).covers(
                stages@,
                models.take(i as int),
                now,
            ),
        decreases stages@.len() - i,
    {
        let stage = &stages[i];
        proof {
            assert(models.take(i + 1).drop_last() =~= models.take(i as int));
            assert(models.take(i + 1).last() == stage.deep_view());
        }
        match stage.delivered_at {
            Some(at) => {
                let replace = match delivered {
                    Some(other) => match stages[other].delivered_at {
                        Some(before) => before <= at,
                        None => true,
                    },
                    None => true,
                };
                if replace {
                    delivered = Some(i);
                }
            },
            None => {
                let replace = match current {
                    Some(other) => stage.deadline_at < stages[other].deadline_at,
                    None => true,
                };
                if replace {
                    current = Some(i);
                }
                if stage.deadline_at < now {
                    overdue = overdue + 1;
                }
            },
        }
        last_due =
        match last_due {
            Some(other) if other > stage.deadline_at => Some(other),
            _ => Some(stage.deadline_at),
        };
        i = i + 1;
    }
    proof {
        assert(models.take(models.len() as int) =~= models);
    }
    StageScan { delivered, current, final_deadline: last_due, overdue }
}

/// The first `count` snapshots of a list.
fn first_snapshots(snapshots: &Vec<GoalQuotaSnapshot>, count: usize) -> (copy: Vec<
    GoalQuotaSnapshot,
>)
    ensures
        copy.deep_view() == at_most(snapshots.deep_view(), count as int),
{
    let mut copy: Vec<GoalQuotaSnapshot> = Vec::new();
    let mut i: usize = 0;
    while i < count && i < snapshots.len()
        invariant
            i <= count,
            i <= snapshots@.len(),
            copy.deep_view() =~= snapshots.deep_view().take(i as int),
        decreases count - i,
    {
        let ghost before = copy@;
        let snapshot = snapshots[i].clone();
        copy.push(snapshot);
        proof {
            lemma_push_deep_view(before, copy, snapshot);
            assert(models(before) =~= snapshots.deep_view().take(i as int));
        }
        i = i + 1;
    }
    proof {
        assert(snapshots.deep_view().take(snapshots@.len() as int) =~= snapshots.deep_view());
    }
    copy
}

/// The facts of a goal at the instant `now_at`.
pub fn summarize_goal_execution(goal: &ThreadGoal, now_at: i64) -> (context: GoalExecutionContext)
    ensures
        context.deep_view() == execution_facts(goal.deep_view(), now_at),
{
    let scan = scan_stages(&goal.stages, now_at);
    let current_stage = match scan.current {
        Some(i) => {
            let stage = &goal.stages[i];
            Some(
                GoalStageExecutionContext {
                    id: bounded(stage.id.as_str(), 64),
                    label: bounded(stage.label.as_str(), 120),
                    expected_result: bounded(stage.expected_result.as_str(), 240),
                    deadline_at: stage.deadline_at,
                    remaining_seconds: saturating_difference(stage.deadline_at, now_at),
                    overdue_seconds: overdue_seconds(stage.deadline_at, now_at),
                    remaining_percent: remaining_percent(
                        goal.created_at,
                        stage.deadline_at,
                        now_at,
                    ),
                    delivered_at: stage.delivered_at,
                    delivered_artifact: bounded_text_option(&stage.delivered_artifact, 240),
                },
            )
        },
        None => None,
    };
    let (latest_delivered_artifact, latest_delivered_at) = match scan.delivered {
        Some(i) => (
            bounded_text_option(&goal.stages[i].delivered_artifact, 240),
            goal.stages[i].delivered_at,
        ),
        None => (None, None),
    };
    let (left, over, percent) = match scan.final_deadline {
        Some(due) => (
            Some(saturating_difference(due, now_at)),
            Some(overdue_seconds(due, now_at)),
            remaining_percent(goal.created_at, due, now_at),
        ),
        None => (None, None, None),
    };
    let current_quota_snapshots: Vec<GoalQuotaSnapshot> = Vec::new();
    proof {
        assert(current_quota_snapshots.deep_view() =~= Seq::empty());
    }
    GoalExecutionContext {
        objective: bounded(goal.objective.as_str(), 600),
        now_at,
        created_at: goal.created_at,
        timezone: bounded_text_option(&goal.timezone, 80),
        final_deadline_at: scan.final_deadline,
        final_deadline_remaining_seconds: left,
        final_deadline_overdue_seconds: over,
        final_deadline_remaining_percent: percent,
        current_stage,
        overdue_stage_count: scan.overdue,
        latest_delivered_artifact,
        latest_delivered_at,
        initial_token_budget: goal.initial_token_budget,
        current_token_budget: goal.token_budget,
        tokens_used: goal.tokens_used,
        time_used_seconds: goal.time_used_seconds,
        initial_quota_snapshots: first_snapshots(&goal.initial_quota_snapshots, 2),
        current_quota_snapshots,
    }
}

/// The most bytes that a reminder takes. A byte bound also bounds the output of a tokenizer that
/// works on bytes, whatever the characters.
pub const REMINDER_BYTES: usize = 800;

/// The imperative that opens every reminder.
pub const NUDGE: &'static str =
    "Deliver usable work; reserve review time; delegate bounded tasks cheaper when authorized. Adjust depth to time/quota. Overdue: show artifact or say none, then continue.\n";

/// What closes a reminder that was cut.
pub const MORE_FACTS: &'static str = "\n[More facts: get_goal.]";

/// The UTC instant in RFC 3339, or its seconds where it has none.
pub open spec fn timestamp_text(value: i64) -> Seq<char> {
    match utc_seconds_text(value) {
        Some(text) => text,
        None => integer_text(value as int) + "sUTC"@,
    }
}

/// The UTC instant in RFC 3339, or its seconds where it has none.
pub fn timestamp(value: i64) -> (text: String)
    ensures
        text@ == timestamp_text(value),
{
    match render_utc_seconds(value) {
        Some(text) => text,
        None => {
            let mut text = signed_text(value);
            text.append("sUTC");
            text
        },
    }
}

/// A number of seconds in whole hours and minutes, both rounded toward zero.
pub open spec fn duration_text(seconds: i64) -> Seq<char> {
    if seconds >= 0 {
        decimal((seconds / 3600) as nat) + "h"@ + two_digits(((seconds / 60) % 60) as nat) + "m"@
    } else {
        let hours = (-seconds) / 3600;
        let minutes = ((-seconds) / 60) % 60;
        integer_text(-hours) + "h"@ + (if minutes == 0 {
            two_digits(0)
        } else {
            integer_text(-minutes)
        }) + "m"@
    }
}

/// A number of seconds in whole hours and minutes, both rounded toward zero.
pub fn duration(seconds: i64) -> (text: String)
    ensures
        text@ == duration_text(seconds),
{
    if seconds >= 0 {
        let mut text = String::new();
        push_decimal(&mut text, seconds as u64 / 3600);
        text.append("h");
        push_two_digits(&mut text, (seconds as u64 / 60) % 60);
        text.append("m");
        text
    } else {
        let size: i128 = -(seconds as i128);
        let hours: i128 = size / 3600;
        let minutes: i128 = (size / 60) % 60;
        let mut text = signed_text(-hours as i64);
        text.append("h");
        if minutes == 0 {
            push_two_digits(&mut text, 0);
        } else {
            text.append(signed_text(-minutes as i64).as_str());
        }
        text.append("m");
        text
    }
}

/// A number, or `none`.
pub open spec fn amount_text(value: Option<i64>) -> Seq<char> {
    match value {
        Some(number) => integer_text(number as int),
        None => "none"@,
    }
}

/// A number, or `none`.
pub fn amount(value: Option<i64>) -> (text: String)
    ensures
        text@ == amount_text(value),
{
    match value {
        Some(number) => signed_text(number),
        None => "none".to_owned(),
    }
}

/// The size of a number of seconds, held within `i64`.
pub open spec fn saturated_abs(value: i64) -> i64 {
    if value < 0 {
        saturated(-value)
    } else {
        value
    }
}

/// A deadline, the time that is left for it or past it, and the share that is left.
pub open spec fn deadline_text(due: i64, remaining: i64, percent: Option<i64>) -> Seq<char> {
    timestamp_text(due) + " "@ + (if remaining < 0 {
        "overdue"@
    } else {
        "left"@
    }) + " "@ + duration_text(saturated_abs(remaining)) + " ("@ + (match percent {
        Some(value) => integer_text(value as int),
        None => "n/a"@,
    }) + "%)"@
}

/// A deadline, the time that is left for it or past it, and the share that is left.
pub fn deadline(due: i64, remaining: i64, percent: Option<i64>) -> (text: String)
    ensures
        text@ == deadline_text(due, remaining, percent),
{
    let mut text = timestamp(due);
    text.append(" ");
    text.append(
        if remaining < 0 {
            "overdue"
        } else {
            "left"
        },
    );
    text.append(" ");
    let size: i64 = if remaining < 0 {
        saturating_difference(0, remaining)
    } else {
        remaining
    };
    text.append(duration(size).as_str());
    text.append(" (");
    match percent {
        Some(value) => text.append(signed_text(value).as_str()),
        None => text.append("n/a"),
    }
    text.append("%)");
    text
}

/// One percent, in the unit of `RateLimitWindow::used_percent`.
pub const PERCENT: i64 = 1_000_000;

/// The share of a window that is left, to the nearest whole percent between 0 and 100, where a
/// half goes to the even neighbour.
pub open spec fn left_percent(used: i64) -> nat {
    let left = 100 * PERCENT - used;
    if left <= 0 {
        0
    } else if left >= 100 * PERCENT {
        100
    } else {
        let whole = left / PERCENT as int;
        let part = left % PERCENT as int;
        if part * 2 > PERCENT || (part * 2 == PERCENT && whole % 2 == 1) {
            (whole + 1) as nat
        } else {
            whole as nat
        }
    }
}

/// The share of a window that is left, to the nearest whole percent.
pub fn percent_of_window_left(used: i64) -> (percent: u64)
    ensures
        percent == left_percent(used),
        percent <= 100,
{
    if used >= 100 * PERCENT {
        return 0;
    }
    if used <= 0 {
        return 100;
    }
    let left: i64 = 100 * PERCENT - used;
    let whole: i64 = left / PERCENT;
    let part: i64 = left % PERCENT;
    if part * 2 > PERCENT || (part * 2 == PERCENT && whole % 2 == 1) {
        (whole + 1) as u64
    } else {
        whole as u64
    }
}

/// A number, or a question mark.
pub open spec fn number_or_question(value: Option<i64>) -> Seq<char> {
    match value {
        Some(number) => integer_text(number as int),
        None => "?"@,
    }
}

fn push_number_or_question(out: &mut String, value: Option<i64>)
    ensures
        final(out)@ == old(out)@ + number_or_question(value),
{
    match value {
        Some(number) => out.append(signed_text(number).as_str()),
        None => out.append("?"),
    }
}

/// One window: its length, the share left at the start of the goal and now, and its reset. The
/// share at the start is unknown unless a window of the same length was seen then.
pub open spec fn window_text(window: RateLimitWindow, seen: Option<RateLimitWindow>) -> Seq<char> {
    number_or_question(window.window_minutes) + "m:"@ + (match seen {
        Some(before) if before.window_minutes == window.window_minutes => decimal(
            left_percent(before.used_percent),
        ),
        _ => "unknown"@,
    }) + ">"@ + decimal(left_percent(window.used_percent)) + " reset="@ + number_or_question(
        window.resets_at,
    )
}

fn same_minutes(a: Option<i64>, b: Option<i64>) -> (same: bool)
    ensures
        same == (a == b),
{
    match (a, b) {
        (Some(x), Some(y)) => x == y,
        (None, None) => true,
        _ => false,
    }
}

fn push_window(out: &mut String, window: RateLimitWindow, seen: Option<RateLimitWindow>)
    ensures
        final(out)@ == old(out)@ + window_text(window, seen),
{
    push_number_or_question(out, window.window_minutes);
    out.append("m:");
    match seen {
        Some(before) if same_minutes(before.window_minutes, window.window_minutes) => {
            push_decimal(out, percent_of_window_left(before.used_percent));
        },
        _ => out.append("unknown"),
    }
    out.append(">");
    push_decimal(out, percent_of_window_left(window.used_percent));
    out.append(" reset=");
    push_number_or_question(out, window.resets_at);
    proof {
        assert(out@ =~= old(out)@ + window_text(window, seen));
    }
}

/// The limit of the initial snapshot that has the same id as `limit`.
pub open spec fn initial_limit(initial: Option<QuotaModel>, limit: LimitModel) -> Option<
    LimitModel,
> {
    match initial {
        Some(snapshot) => first_where(
            snapshot.limits,
            |seen: LimitModel| seen.limit_id == limit.limit_id,
        ),
        None => None,
    }
}

/// The windows of the first limit of a snapshot, each beside the same window of `initial`.
pub open spec fn quota_windows_text(
    snapshot: QuotaModel,
    initial: Option<QuotaModel>,
) -> Seq<char> {
    if snapshot.limits.len() == 0 {
        "unknown"@
    } else {
        let limit = snapshot.limits[0];
        let seen = initial_limit(initial, limit);
        let old_primary = match seen {
            Some(before) => before.primary,
            None => None,
        };
        let old_secondary = match seen {
            Some(before) => before.secondary,
            None => None,
        };
        match (limit.primary, limit.secondary) {
            (Some(first), Some(second)) => window_text(first, old_primary) + " "@ + window_text(
                second,
                old_secondary,
            ),
            (Some(first), None) => window_text(first, old_primary),
            (None, Some(second)) => window_text(second, old_secondary),
            (None, None) => "unknown"@,
        }
    }
}

/// Whether two optional texts are the same.
pub fn same_optional_text(a: &Option<String>, b: &Option<String>) -> (same: bool)
    ensures
        same == (a.deep_view() == b.deep_view()),
{
    match (a, b) {
        (Some(x), Some(y)) => *x == *y,
        (None, None) => true,
        _ => false,
    }
}

/// The position of the first limit that has the id of `limit`.
pub fn find_limit(limits: &Vec<RateLimitSnapshot>, limit_id: &Option<String>) -> (at: Option<usize>)
    ensures
        match at {
            Some(i) => i < limits@.len() && first_where(
                limits.deep_view(),
                |seen: LimitModel| seen.limit_id == limit_id.deep_view(),
            ) == Some(limits@[i as int].deep_view()) && limits@[i as int].limit_id.deep_view()
                == limit_id.deep_view() && (forall|j: int|
                0 <= j < i ==> (#[trigger] limits@[j]).limit_id.deep_view()
                    != limit_id.deep_view()),
            None => first_where(
                limits.deep_view(),
                |seen: LimitModel| seen.limit_id == limit_id.deep_view(),
            ) is None && (forall|j: int|
                0 <= j < limits@.len() ==> (#[trigger] limits@[j]).limit_id.deep_view()
                    != limit_id.deep_view()),
        },
{
    let ghost all = limits.deep_view();
    let ghost same_id = |seen: LimitModel| seen.limit_id == limit_id.deep_view();
    let mut i: usize = 0;
    proof {
        assert(all.skip(0) =~= all);
    }
    while i < limits.len()
        invariant
            i <= limits@.len(),
            all == limits.deep_view(),
            same_id == (|seen: LimitModel| seen.limit_id == limit_id.deep_view()),
            first_where(all, same_id) == first_where(all.skip(i as int), same_id),
            forall|j: int|
                0 <= j < i ==> (#[trigger] limits@[j]).limit_id.deep_view() != limit_id.deep_view(),
        decreases limits@.len() - i,
    {
        proof {
            lemma_first_where_skip(all, same_id, i as int);
        }
        if same_optional_text(&limits[i].limit_id, limit_id) {
            return Some(i);
        }
        i = i + 1;
    }
    None
}

/// The windows of the first limit of a snapshot, each beside the same window of `initial`.
pub fn quota_windows(snapshot: &GoalQuotaSnapshot, initial: Option<&GoalQuotaSnapshot>) -> (text:
    String)
    ensures
        text@ == quota_windows_text(snapshot.deep_view(), initial.deep_view()),
{
    if snapshot.limits.len() == 0 {
        return "unknown".to_owned();
    }
    let limit = &snapshot.limits[0];
    let (old_primary, old_secondary) = match initial {
        Some(seen) => match find_limit(&seen.limits, &limit.limit_id) {
            Some(i) => (seen.limits[i].primary, seen.limits[i].secondary),
            None => (None, None),
        },
        None => (None, None),
    };
    let mut text = String::new();
    match (limit.primary, limit.secondary) {
        (Some(first), Some(second)) => {
            push_window(&mut text, first, old_primary);
            text.append(" ");
            push_window(&mut text, second, old_secondary);
        },
        (Some(first), None) => push_window(&mut text, first, old_primary),
        (None, Some(second)) => push_window(&mut text, second, old_secondary),
        (None, None) => text.append("unknown"),
    }
    proof {
        assert(text@ =~= quota_windows_text(snapshot.deep_view(), initial.deep_view()));
    }
    text
}

/// A text in quotation marks, with the escapes of the `Debug` form of `str`.
pub uninterp spec fn quoted_text(text: Seq<char>) -> Seq<char>;

/// Formats a text with the `Debug` form of `str` in the standard library. The form is named, not
/// described.
#[verifier::external_body]
fn quoted(text: &str) -> (quote: String)
    ensures
        quote@ == quoted_text(text@),
{
    format!("{text:?}")
}

/// The short name of a source of quota.
pub open spec fn source_name(source: Seq<char>) -> Seq<char> {
    if source == "provider-key"@ {
        "key"@
    } else if source == "provider-pool"@ {
        "pool"@
    } else if source == "chatgpt-account"@ {
        "account"@
    } else {
        source
    }
}

/// Whether `seen` is a snapshot of the source and scope of `snapshot`, and the scope is known.
pub open spec fn same_scope(snapshot: QuotaModel) -> spec_fn(QuotaModel) -> bool {
    |seen: QuotaModel|
        seen.source == snapshot.source && seen.scope_id == snapshot.scope_id && seen.scope_id
            != "unknown"@
}

/// The line of one current snapshot, beside the initial snapshot of the same scope.
pub open spec fn quota_line(snapshot: QuotaModel, initial: Seq<QuotaModel>) -> Seq<char> {
    let start = first_where(initial, same_scope(snapshot));
    bounded_text(source_name(snapshot.source), 12) + "/"@ + bounded_text(snapshot.scope_id, 10)
        + " "@ + quota_windows_text(snapshot, start) + " seen="@ + (match start {
        Some(seen) => integer_text(seen.captured_at as int),
        None => "unknown"@,
    }) + ">"@ + integer_text(snapshot.captured_at as int) + ".\n"@
}

/// The lines of the first `count` current snapshots.
pub open spec fn quota_lines(
    current: Seq<QuotaModel>,
    initial: Seq<QuotaModel>,
    count: nat,
) -> Seq<char>
    decreases count,
{
    if count == 0 {
        Seq::empty()
    } else {
        quota_lines(current, initial, (count - 1) as nat) + quota_line(current[count - 1], initial)
    }
}

/// The opening of a reminder: the imperative, the start of the goal and the time.
pub open spec fn reminder_opening(context: ExecutionModel) -> Seq<char> {
    NUDGE@ + "Goal start="@ + timestamp_text(context.created_at) + " now="@ + timestamp_text(
        context.now_at,
    ) + " tz="@ + bounded_text(
        match context.timezone {
            Some(timezone) => timezone,
            None => "UTC"@,
        },
        24,
    ) + ".\n"@
}

/// The deadlines of a reminder: the one of the current stage and the final one.
pub open spec fn reminder_deadlines(context: ExecutionModel) -> Seq<char> {
    (match context.current_stage {
        Some(stage) => "Next "@ + quoted_text(bounded_text(stage.label, 24)) + ": "@
            + deadline_text(stage.deadline_at, stage.remaining_seconds, stage.remaining_percent)
            + "; "@,
        None => Seq::empty(),
    }) + (match context.final_deadline_at {
        Some(due) => "Final "@ + deadline_text(
            due,
            match context.final_deadline_remaining_seconds {
                Some(left) => left,
                None => 0,
            },
            context.final_deadline_remaining_percent,
        ) + "; "@,
        None => Seq::empty(),
    })
}

/// The usage of a reminder: overdue stages, tokens and quota.
pub open spec fn reminder_usage(context: ExecutionModel) -> Seq<char> {
    "overdue="@ + decimal(context.overdue_stage_count) + ".\nTokens="@ + integer_text(
        context.tokens_used as int,
    ) + " budget start="@ + amount_text(context.initial_token_budget) + " now="@ + amount_text(
        context.current_token_budget,
    ) + ". "@ + "Quota shared, not reserved; %left start>now; reset/seen=Unix UTC.\n"@ + (
    if context.current_quota_snapshots.len() == 0 {
        "Quota now=unknown.\n"@
    } else {
        Seq::empty()
    }) + quota_lines(
        context.current_quota_snapshots,
        context.initial_quota_snapshots,
        at_most(context.current_quota_snapshots, 2).len(),
    )
}

/// The results of a reminder: the latest artifact and the output that comes next.
pub open spec fn reminder_results(context: ExecutionModel) -> Seq<char> {
    "Result="@ + bounded_text(
        match context.latest_delivered_artifact {
            Some(artifact) => artifact,
            None => "none recorded"@,
        },
        64,
    ) + "; next output="@ + bounded_text(
        match context.current_stage {
            Some(stage) => stage.expected_result,
            None => "see get_goal"@,
        },
        48,
    ) + ".\n"@
}

/// All that a reminder has to say, before it is cut.
pub open spec fn full_reminder(context: ExecutionModel) -> Seq<char> {
    reminder_opening(context) + reminder_deadlines(context) + reminder_usage(context)
        + reminder_results(context)
}

/// The reminder: all that there is to say where it fits, or else the part of it that fits before
/// the closing words.
pub open spec fn reminder_text(context: ExecutionModel) -> Seq<char> {
    let full = full_reminder(context);
    if utf8_len(full) > REMINDER_BYTES {
        bounded_text(full, (REMINDER_BYTES - utf8_len(MORE_FACTS@)) as nat) + MORE_FACTS@
    } else {
        full
    }
}

fn short_source(source: &String) -> (name: String)
    ensures
        name@ == source_name(source@),
{
    if same_text(source.as_str(), "provider-key") {
        "key".to_owned()
    } else if same_text(source.as_str(), "provider-pool") {
        "pool".to_owned()
    } else if same_text(source.as_str(), "chatgpt-account") {
        "account".to_owned()
    } else {
        source.clone()
    }
}

/// The initial snapshot of the source and scope of `snapshot`.
fn find_initial<'a>(
    initial: &'a Vec<GoalQuotaSnapshot>,
    snapshot: &GoalQuotaSnapshot,
) -> (found: Option<&'a GoalQuotaSnapshot>)
    ensures
        found.deep_view() == first_where(initial.deep_view(), same_scope(snapshot.deep_view())),
{
    let ghost all = initial.deep_view();
    let ghost same = same_scope(snapshot.deep_view());
    let mut i: usize = 0;
    proof {
        assert(all.skip(0) =~= all);
    }
    while i < initial.len()
        invariant
            i <= initial@.len(),
            all == initial.deep_view(),
            same == same_scope(snapshot.deep_view()),
            first_where(all, same) == first_where(all.skip(i as int), same),
        decreases initial@.len() - i,
    {
        let seen = &initial[i];
        proof {
            lemma_first_where_skip(all, same, i as int);
        }
        if seen.source == snapshot.source && seen.scope_id == snapshot.scope_id && !same_text(
            seen.scope_id.as_str(),
            "unknown",
        ) {
            return Some(seen);
        }
        i = i + 1;
    }
    None
}

fn line_of_quota(snapshot: &GoalQuotaSnapshot, initial: &Vec<GoalQuotaSnapshot>) -> (out: String)
    ensures
        out@ == quota_line(snapshot.deep_view(), initial.deep_view()),
{
    let start = find_initial(initial, snapshot);
    let source = short_source(&snapshot.source);
    let mut out = bounded(source.as_str(), 12);
    out.append("/");
    out.append(bounded(snapshot.scope_id.as_str(), 10).as_str());
    out.append(" ");
    out.append(quota_windows(snapshot, start).as_str());
    out.append(" seen=");
    match start {
        Some(seen) => out.append(signed_text(seen.captured_at).as_str()),
        None => out.append("unknown"),
    }
    out.append(">");
    out.append(signed_text(snapshot.captured_at).as_str());
    out.append(".\n");
    out
}

fn opening(context: &GoalExecutionContext) -> (out: String)
    ensures
        out@ == reminder_opening(context.deep_view()),
{
    let mut out = NUDGE.to_owned();
    out.append("Goal start=");
    out.append(timestamp(context.created_at).as_str());
    out.append(" now=");
    out.append(timestamp(context.now_at).as_str());
    out.append(" tz=");
    match &context.timezone {
        Some(timezone) => out.append(bounded(timezone.as_str(), 24).as_str()),
        None => out.append(bounded("UTC", 24).as_str()),
    }
    out.append(".\n");
    out
}

fn deadlines(context: &GoalExecutionContext) -> (text: String)
    ensures
        text@ == reminder_deadlines(context.deep_view()),
{
    let mut text = match &context.current_stage {
        Some(stage) => {
            let mut out = "Next ".to_owned();
            out.append(quoted(bounded(stage.label.as_str(), 24).as_str()).as_str());
            out.append(": ");
            out.append(
                deadline(
                    stage.deadline_at,
                    stage.remaining_seconds,
                    stage.remaining_percent,
                ).as_str(),
            );
            out.append("; ");
            out
        },
        None => String::new(),
    };
    match context.final_deadline_at {
        Some(due) => {
            let left = match context.final_deadline_remaining_seconds {
                Some(seconds) => seconds,
                None => 0,
            };
            let mut out = "Final ".to_owned();
            out.append(deadline(due, left, context.final_deadline_remaining_percent).as_str());
            out.append("; ");
            text.append(out.as_str());
        },
        None => {
            assert(text@ + Seq::<char>::empty() =~= text@);
        },
    }
    text
}

fn usage(context: &GoalExecutionContext) -> (out: String)
    ensures
        out@ == reminder_usage(context.deep_view()),
{
    let current = &context.current_quota_snapshots;
    let initial = &context.initial_quota_snapshots;
    let mut out = "overdue=".to_owned();
    push_decimal(&mut out, context.overdue_stage_count as u64);
    out.append(".\nTokens=");
    out.append(signed_text(context.tokens_used).as_str());
    out.append(" budget start=");
    out.append(amount(context.initial_token_budget).as_str());
    out.append(" now=");
    out.append(amount(context.current_token_budget).as_str());
    out.append(". ");
    out.append("Quota shared, not reserved; %left start>now; reset/seen=Unix UTC.\n");
    let ghost before = out@;
    if current.len() == 0 {
        out.append("Quota now=unknown.\n");
    }
    let ghost facts = out@;
    proof {
        assert(before + Seq::<char>::empty() =~= before);
        assert(facts + Seq::<char>::empty() =~= facts);
    }
    let count: usize = if current.len() <= 2 {
        current.len()
    } else {
        2
    };
    let mut i: usize = 0;
    while i < count
        invariant
            i <= count <= current@.len(),
            out@ == facts + quota_lines(current.deep_view(), initial.deep_view(), i as nat),
        decreases count - i,
    {
        let line = line_of_quota(&current[i], initial);
        out.append(line.as_str());
        proof {
            let lines = quota_lines(current.deep_view(), initial.deep_view(), i as nat);
            assert(facts + lines + line@ =~= facts + (lines + line@));
        }
        i = i + 1;
    }
    out
}

fn results(context: &GoalExecutionContext) -> (out: String)
    ensures
        out@ == reminder_results(context.deep_view()),
{
    let mut out = "Result=".to_owned();
    match &context.latest_delivered_artifact {
        Some(artifact) => out.append(bounded(artifact.as_str(), 64).as_str()),
        None => out.append(bounded("none recorded", 64).as_str()),
    }
    out.append("; next output=");
    match &context.current_stage {
        Some(stage) => out.append(bounded(stage.expected_result.as_str(), 48).as_str()),
        None => out.append(bounded("see get_goal", 48).as_str()),
    }
    out.append(".\n");
    out
}

/// A character takes at most four bytes.
proof fn lemma_utf8_len_bound(s: Seq<char>)
    ensures
        utf8_len(s) <= 4 * s.len(),
    decreases s.len(),
{
    if s.len() > 0 {
        lemma_utf8_len_bound(s.drop_first());
    }
}

/// A reminder stays within its byte bound and keeps the imperative whole.
pub proof fn lemma_reminder_is_bounded(context: ExecutionModel)
    ensures
        utf8_len(reminder_text(context)) <= REMINDER_BYTES,
        has_prefix(reminder_text(context), NUDGE@),
{
    let full = full_reminder(context);
    let nudge = NUDGE@.len() as int;
    reveal_strlit(
        "Deliver usable work; reserve review time; delegate bounded tasks cheaper when authorized. Adjust depth to time/quota. Overdue: show artifact or say none, then continue.\n",
    );
    reveal_strlit("\n[More facts: get_goal.]");
    assert(full.take(nudge) =~= NUDGE@);
    lemma_utf8_len_bound(NUDGE@);
    lemma_utf8_len_bound(MORE_FACTS@);
    if utf8_len(full) > REMINDER_BYTES {
        let room = (REMINDER_BYTES - utf8_len(MORE_FACTS@)) as nat;
        let cut = bounded_text(full, room);
        lemma_bounded_text(full, room);
        lemma_bounded_text_keeps_prefix(full, nudge, room);
        lemma_utf8_len_concat(cut, MORE_FACTS@);
        assert((cut + MORE_FACTS@).take(nudge) =~= cut.take(nudge));
    }
}

/// The reminder for the model: at most 800 bytes, and always with the imperative whole at its
/// start.
pub fn model_reminder(context: &GoalExecutionContext) -> (text: String)
    ensures
        text@ == reminder_text(context.deep_view()),
        utf8_len(text@) <= REMINDER_BYTES,
        has_prefix(text@, NUDGE@),
{
    proof {
        lemma_reminder_is_bounded(context.deep_view());
        reveal_strlit("\n[More facts: get_goal.]");
        lemma_utf8_len_bound(MORE_FACTS@);
    }
    let mut text = opening(context);
    text.append(deadlines(context).as_str());
    text.append(usage(context).as_str());
    text.append(results(context).as_str());
    if text.as_str().as_bytes().len() > REMINDER_BYTES {
        let suffix: usize = MORE_FACTS.as_bytes().len();
        let mut cut = bounded(text.as_str(), REMINDER_BYTES - suffix);
        cut.append(MORE_FACTS);
        cut
    } else {
        text
    }
}

/// The current stage is undelivered, and no undelivered stage is due before it. There is none
/// only where every stage is delivered.
pub proof fn lemma_next_due_is_earliest(stages: Seq<StageModel>)
    ensures
        match next_due(stages) {
            Some(stage) => {
                &&& stages.contains(stage)
                &&& stage.delivered_at is None
                &&& forall|i: int|
                    0 <= i < stages.len() && (#[trigger] stages[i]).delivered_at is None
                        ==> stage.deadline_at <= stages[i].deadline_at
            },
            None => forall|i: int|
                0 <= i < stages.len() ==> (#[trigger] stages[i]).delivered_at is Some,
        },
    decreases stages.len(),
{
    if stages.len() > 0 {
        let rest = stages.drop_last();
        lemma_next_due_is_earliest(rest);
        assert forall|i: int| 0 <= i < rest.len() implies rest[i] == #[trigger] stages[i] by {}
        if let Some(stage) = next_due(rest) {
            let i = choose|i: int| 0 <= i < rest.len() && rest[i] == stage;
            assert(stages[i] == stage);
        }
        assert(stages[stages.len() - 1] == stages.last());
    }
}

/// The latest delivery is a delivered stage, and no stage was delivered after it. There is none
/// only where no stage is delivered.
pub proof fn lemma_latest_delivered_is_last(stages: Seq<StageModel>)
    ensures
        match latest_delivered(stages) {
            Some(stage) => {
                &&& stages.contains(stage)
                &&& stage.delivered_at is Some
                &&& forall|i: int|
                    0 <= i < stages.len() && (#[trigger] stages[i]).delivered_at is Some
                        ==> stages[i].delivered_at->0 <= stage.delivered_at->0
            },
            None => forall|i: int|
                0 <= i < stages.len() ==> (#[trigger] stages[i]).delivered_at is None,
        },
    decreases stages.len(),
{
    if stages.len() > 0 {
        let rest = stages.drop_last();
        lemma_latest_delivered_is_last(rest);
        assert forall|i: int| 0 <= i < rest.len() implies rest[i] == #[trigger] stages[i] by {}
        if let Some(stage) = latest_delivered(rest) {
            let i = choose|i: int| 0 <= i < rest.len() && rest[i] == stage;
            assert(stages[i] == stage);
        }
        assert(stages[stages.len() - 1] == stages.last());
    }
}

/// The final deadline is the deadline of some stage, and no stage is due after it.
pub proof fn lemma_final_deadline_is_last(stages: Seq<StageModel>)
    ensures
        match final_deadline(stages) {
            Some(due) => {
                &&& exists|i: int|
                    0 <= i < stages.len() && (#[trigger] stages[i]).deadline_at == due
                &&& forall|i: int|
                    0 <= i < stages.len() ==> (#[trigger] stages[i]).deadline_at <= due
            },
            None => stages.len() == 0,
        },
    decreases stages.len(),
{
    if stages.len() > 0 {
        let rest = stages.drop_last();
        lemma_final_deadline_is_last(rest);
        assert forall|i: int| 0 <= i < rest.len() implies rest[i] == #[trigger] stages[i] by {}
        if let Some(due) = final_deadline(rest) {
            let i = choose|i: int|
                0 <= i < rest.len() && (#[trigger] rest[i]).deadline_at == due;
            assert(stages[i].deadline_at == due);
        }
        assert(stages[stages.len() - 1] == stages.last());
    }
}

/// The final deadline speaks of deadlines alone: no delivery changes it.
pub proof fn lemma_final_deadline_ignores_delivery(before: Seq<StageModel>, after: Seq<StageModel>)
    requires
        before.len() == after.len(),
        forall|i: int|
            0 <= i < before.len() ==> (#[trigger] before[i]).deadline_at == after[i].deadline_at,
    ensures
        final_deadline(before) == final_deadline(after),
    decreases before.len(),
{
    if before.len() > 0 {
        assert(before[before.len() - 1].deadline_at == after.last().deadline_at);
        assert forall|i: int| 0 <= i < before.len() - 1 implies (
        #[trigger] before.drop_last()[i]).deadline_at == after.drop_last()[i].deadline_at by {
            assert(before[i].deadline_at == after[i].deadline_at);
        }
        lemma_final_deadline_ignores_delivery(before.drop_last(), after.drop_last());
    }
}

/// A stage counts as overdue exactly while it is undelivered and its deadline is past: none is
/// overdue where there is no such stage, and no more are than there are stages.
pub proof fn lemma_overdue_count(stages: Seq<StageModel>, now: i64)
    ensures
        overdue_count(stages, now) <= stages.len(),
        overdue_count(stages, now) == 0 <==> forall|i: int|
            0 <= i < stages.len() ==> (#[trigger] stages[i]).delivered_at is Some
                || stages[i].deadline_at >= now,
    decreases stages.len(),
{
    if stages.len() > 0 {
        let rest = stages.drop_last();
        lemma_overdue_count(rest, now);
        assert forall|i: int| 0 <= i < rest.len() implies rest[i] == #[trigger] stages[i] by {}
        assert(stages[stages.len() - 1] == stages.last());
        assert(forall|i: int| 0 <= i < rest.len() ==> #[trigger] stages[i] == rest[i]);
        if forall|i: int|
            0 <= i < stages.len() ==> (#[trigger] stages[i]).delivered_at is Some
                || stages[i].deadline_at >= now {
            assert forall|i: int| 0 <= i < rest.len() implies (
            #[trigger] rest[i]).delivered_at is Some || rest[i].deadline_at >= now by {
                assert(stages[i] == rest[i]);
            }
        }
    }
}

/// An overdue stage is information only: the facts of a goal do not depend on its status, and
/// no clock reading changes what the goal itself says.
pub proof fn lemma_facts_ignore_status(goal: GoalModel, status: ThreadGoalStatus, now: i64)
    ensures
        execution_facts(GoalModel { status, ..goal }, now) == execution_facts(goal, now),
{
}

/// The texts among the facts of a goal keep their byte bounds.
pub proof fn lemma_facts_are_bounded(goal: GoalModel, now: i64)
    ensures
        ({
            let facts = execution_facts(goal, now);
            &&& utf8_len(facts.objective) <= 600
            &&& (facts.timezone matches Some(timezone) ==> utf8_len(timezone) <= 80)
            &&& (facts.latest_delivered_artifact matches Some(artifact) ==> utf8_len(artifact)
                <= 240)
            &&& (facts.current_stage matches Some(stage) ==> utf8_len(stage.id) <= 64 && utf8_len(
                stage.label,
            ) <= 120 && utf8_len(stage.expected_result) <= 240)
            &&& facts.initial_quota_snapshots.len() <= 2
        }),
{
    lemma_bounded_text(goal.objective, 600);
    if let Some(timezone) = goal.timezone {
        lemma_bounded_text(timezone, 80);
    }
    if let Some(stage) = latest_delivered(goal.stages) {
        if let Some(artifact) = stage.delivered_artifact {
            lemma_bounded_text(artifact, 240);
        }
    }
    if let Some(stage) = next_due(goal.stages) {
        lemma_bounded_text(stage.id, 64);
        lemma_bounded_text(stage.label, 120);
        lemma_bounded_text(stage.expected_result, 240);
    }
}

/// The percentage of time left never grows as time passes.
pub proof fn lemma_percent_left_falls(start: i64, due: i64, earlier: i64, later: i64)
    requires
        earlier <= later,
    ensures
        match (percent_left(start, due, earlier), percent_left(start, due, later)) {
            (Some(before), Some(after)) => after <= before,
            (None, Some(after)) => after == 0,
            (Some(_), None) => false,
            (None, None) => true,
        },
{
    if later < due && due - start > 0 {
        let total = due - start;
        let more = (due - earlier) * 100;
        let less = (due - later) * 100;
        assert(less / total <= more / total) by (nonlinear_arith)
            requires
                less <= more,
                total > 0,
        ;
        assert(less / total >= 0) by (nonlinear_arith)
            requires
                less >= 0,
                total > 0,
        ;
    } else if earlier < due && due - start > 0 {
        let total = due - start;
        let more = (due - earlier) * 100;
        assert(more / total >= 0) by (nonlinear_arith)
            requires
                more >= 0,
                total > 0,
        ;
    }
}

/// The number of overdue stages is the number of those that are undelivered and whose deadline is past.
pub proof fn lemma_overdue_count_is_exact(stages: Seq<StageModel>, now: i64)
    ensures
        overdue_count(stages, now) == stages.filter(
            |stage: StageModel| stage.delivered_at is None && stage.deadline_at < now,
        ).len(),
    decreases stages.len(),
{
    reveal(Seq::filter);
    if stages.len() > 0 {
        lemma_overdue_count_is_exact(stages.drop_last(), now);
    }
}

/// The facts of a goal count its overdue stages one by one.
pub proof fn lemma_facts_count_overdue_stages(goal: GoalModel, now: i64)
    ensures
        execution_facts(goal, now).overdue_stage_count == goal.stages.filter(
            |stage: StageModel| stage.delivered_at is None && stage.deadline_at < now,
        ).len(),
{
    lemma_overdue_count_is_exact(goal.stages, now);
}

/// Of undelivered stages with the same first deadline, the first listed is the current one.
pub proof fn lemma_first_listed_is_current(stages: Seq<StageModel>)
    ensures
        next_due(stages) matches Some(stage) ==> exists|i: int|
            0 <= i < stages.len() && #[trigger] stages[i] == stage && stage.delivered_at is None
                && (forall|j: int|
                0 <= j < i && (#[trigger] stages[j]).delivered_at is None ==> stages[j].deadline_at
                    > stage.deadline_at) && (forall|j: int|
                i < j < stages.len() && (#[trigger] stages[j]).delivered_at is None
                    ==> stages[j].deadline_at >= stage.deadline_at),
    decreases stages.len(),
{
    if stages.len() > 0 {
        let rest = stages.drop_last();
        let end = stages.len() - 1;
        lemma_first_listed_is_current(rest);
        lemma_next_due_is_earliest(rest);
        assert(stages[end] == stages.last());
        assert forall|j: int| 0 <= j < end implies #[trigger] stages[j] == rest[j] by {}
        if let Some(before) = next_due(rest) {
            let i = choose|i: int|
                0 <= i < rest.len() && #[trigger] rest[i] == before && before.delivered_at is None
                    && (forall|j: int|
                    0 <= j < i && (#[trigger] rest[j]).delivered_at is None ==> rest[j].deadline_at
                        > before.deadline_at) && (forall|j: int|
                    i < j < rest.len() && (#[trigger] rest[j]).delivered_at is None
                        ==> rest[j].deadline_at >= before.deadline_at);
            if next_due(stages) == Some(before) {
                assert(stages[i] == before);
            } else {
                assert(stages[end] == next_due(stages)->0);
            }
        } else if next_due(stages) is Some {
            assert(stages[end] == next_due(stages)->0);
        }
    }
}

/// Of stages that were delivered last at the same time, the last listed counts.
pub proof fn lemma_last_listed_is_latest(stages: Seq<StageModel>)
    ensures
        latest_delivered(stages) matches Some(stage) ==> exists|i: int|
            0 <= i < stages.len() && #[trigger] stages[i] == stage && stage.delivered_at is Some
                && (forall|j: int|
                0 <= j < i && (#[trigger] stages[j]).delivered_at is Some
                    ==> stages[j].delivered_at->0 <= stage.delivered_at->0) && (forall|j: int|
                i < j < stages.len() && (#[trigger] stages[j]).delivered_at is Some
                    ==> stages[j].delivered_at->0 < stage.delivered_at->0),
    decreases stages.len(),
{
    if stages.len() > 0 {
        let rest = stages.drop_last();
        let end = stages.len() - 1;
        lemma_last_listed_is_latest(rest);
        lemma_latest_delivered_is_last(rest);
        assert(stages[end] == stages.last());
        assert forall|j: int| 0 <= j < end implies #[trigger] stages[j] == rest[j] by {}
        if let Some(before) = latest_delivered(rest) {
            let i = choose|i: int|
                0 <= i < rest.len() && #[trigger] rest[i] == before && before.delivered_at is Some
                    && (forall|j: int|
                    0 <= j < i && (#[trigger] rest[j]).delivered_at is Some
                        ==> rest[j].delivered_at->0 <= before.delivered_at->0) && (forall|j: int|
                    i < j < rest.len() && (#[trigger] rest[j]).delivered_at is Some
                        ==> rest[j].delivered_at->0 < before.delivered_at->0);
            if stages.last().delivered_at is Some && before.delivered_at->0
                <= stages.last().delivered_at->0 {
                assert(stages[end] == latest_delivered(stages)->0);
            } else {
                assert(stages[i] == before);
            }
        } else if latest_delivered(stages) is Some {
            assert(stages[end] == latest_delivered(stages)->0);
        }
    }
}

/// The percentage of time left is the whole percents of the time from start to deadline that lie ahead:
/// none once the deadline is there, all before the start, and unknown where no time lies between.
pub proof fn lemma_percent_left_is_exact(start: i64, due: i64, now: i64)
    ensures
        now >= due ==> percent_left(start, due, now) == Some(0i64),
        now < due && due <= start ==> percent_left(start, due, now) is None,
        start <= now < due ==> (percent_left(start, due, now) matches Some(percent) && 0 <= percent
            <= 100 && percent * (due - start) <= (due - now) * 100 < (percent + 1) * (due - start)),
        now < start < due ==> percent_left(start, due, now) == Some(100i64),
{
    if now < due && start < due {
        let total = due - start;
        let ahead = (due - now) * 100;
        let share = ahead / total;
        assert(share * total <= ahead < (share + 1) * total) by (nonlinear_arith)
            requires
                share == ahead / total,
                total > 0,
        ;
        if start <= now {
            assert(0 <= share <= 100) by (nonlinear_arith)
                requires
                    share * total <= ahead < (share + 1) * total,
                    0 <= ahead <= 100 * total,
                    total > 0,
            ;
        } else {
            assert(share >= 100) by (nonlinear_arith)
                requires
                    ahead < (share + 1) * total,
                    ahead >= 100 * total,
                    total > 0,
            ;
        }
    }
}

/// The time that is left and the time that is overdue are the distance to the deadline, one before it
/// and the other after it, as far as 64 bits reach.
pub proof fn lemma_time_left_and_overdue(due: i64, now: i64)
    ensures
        i64::MIN <= due - now <= i64::MAX ==> saturated(due - now) == due - now,
        due - now > i64::MAX ==> saturated(due - now) == i64::MAX,
        due - now < i64::MIN ==> saturated(due - now) == i64::MIN,
        now <= due ==> overdue_by(due, now) == 0,
        now > due && now - due <= i64::MAX ==> overdue_by(due, now) == now - due,
        now - due > i64::MAX ==> overdue_by(due, now) == i64::MAX,
{
}

/// The facts of a goal are those of the goal: its own texts within their bounds, its own numbers, its
/// first two baselines, and no current quota yet.
pub proof fn lemma_facts_are_those_of_the_goal(goal: GoalModel, now: i64)
    ensures
        ({
            let facts = execution_facts(goal, now);
            &&& facts.objective == bounded_text(goal.objective, 600)
            &&& facts.now_at == now
            &&& facts.created_at == goal.created_at
            &&& (goal.timezone is None ==> facts.timezone is None)
            &&& (goal.timezone matches Some(timezone) ==> facts.timezone == Some(
                bounded_text(timezone, 80),
            ))
            &&& facts.initial_token_budget == goal.initial_token_budget
            &&& facts.current_token_budget == goal.token_budget
            &&& facts.tokens_used == goal.tokens_used
            &&& facts.time_used_seconds == goal.time_used_seconds
            &&& facts.current_quota_snapshots.len() == 0
            &&& (goal.initial_quota_snapshots.len() <= 2 ==> facts.initial_quota_snapshots
                == goal.initial_quota_snapshots)
            &&& (goal.initial_quota_snapshots.len() > 2 ==> facts.initial_quota_snapshots
                == goal.initial_quota_snapshots.take(2))
            &&& facts.final_deadline_at == final_deadline(goal.stages)
            &&& (facts.final_deadline_at is None ==> facts.final_deadline_remaining_seconds is None
                && facts.final_deadline_overdue_seconds is None
                && facts.final_deadline_remaining_percent is None)
            &&& (facts.final_deadline_at matches Some(due)
                ==> facts.final_deadline_remaining_seconds == Some(saturated(due - now))
                && facts.final_deadline_overdue_seconds == Some(overdue_by(due, now))
                && facts.final_deadline_remaining_percent == percent_left(
                goal.created_at,
                due,
                now,
            ))
        }),
{
}

/// The facts of the current stage are those of the stage: its own texts within their bounds, and the
/// distance from now to its deadline.
pub proof fn lemma_facts_of_the_current_stage(goal: GoalModel, now: i64)
    ensures
        next_due(goal.stages) is None ==> execution_facts(goal, now).current_stage is None,
        next_due(goal.stages) matches Some(stage) ==> (execution_facts(
            goal,
            now,
        ).current_stage matches Some(facts) && {
            &&& facts.id == bounded_text(stage.id, 64)
            &&& facts.label == bounded_text(stage.label, 120)
            &&& facts.expected_result == bounded_text(stage.expected_result, 240)
            &&& facts.deadline_at == stage.deadline_at
            &&& facts.remaining_seconds == saturated(stage.deadline_at - now)
            &&& facts.overdue_seconds == overdue_by(stage.deadline_at, now)
            &&& facts.remaining_percent == percent_left(goal.created_at, stage.deadline_at, now)
            &&& facts.delivered_at is None
            &&& (stage.delivered_artifact is None ==> facts.delivered_artifact is None)
            &&& (stage.delivered_artifact matches Some(artifact) ==> facts.delivered_artifact
                == Some(bounded_text(artifact, 240)))
        }),
        latest_delivered(goal.stages) is None ==> execution_facts(
            goal,
            now,
        ).latest_delivered_at is None && execution_facts(
            goal,
            now,
        ).latest_delivered_artifact is None,
        latest_delivered(goal.stages) matches Some(stage) ==> {
            &&& execution_facts(goal, now).latest_delivered_at == stage.delivered_at
            &&& (stage.delivered_artifact is None ==> execution_facts(
                goal,
                now,
            ).latest_delivered_artifact is None)
            &&& (stage.delivered_artifact matches Some(artifact) ==> execution_facts(
                goal,
                now,
            ).latest_delivered_artifact == Some(bounded_text(artifact, 240)))
        },
{
    lemma_next_due_is_earliest(goal.stages);
}

/// The share of a window that is left is what was not used, to the nearest whole percent and within 0
/// to 100; halfway it is the even one.
pub proof fn lemma_left_percent_is_nearest(used: i64)
    ensures
        ({
            let left = 100_000_000 - used;
            let shown = left_percent(used);
            &&& left <= 0 ==> shown == 0
            &&& left >= 100_000_000 ==> shown == 100
            &&& 0 < left < 100_000_000 ==> -500_000 <= shown * 1_000_000 - left <= 500_000
            &&& 0 < left < 100_000_000 && (shown * 1_000_000 - left == 500_000 || left - shown
                * 1_000_000 == 500_000) ==> shown % 2 == 0
        }),
{
}

/// A span of hours, minutes and seconds is shown by its hours and its minutes, the minutes with two
/// digits.
pub proof fn lemma_duration_shows_hours_and_minutes(hours: int, minutes: int, seconds: int)
    requires
        0 <= hours,
        0 <= minutes < 60,
        0 <= seconds < 60,
        hours * 3600 + minutes * 60 + seconds <= i64::MAX,
    ensures
        duration_text((hours * 3600 + minutes * 60 + seconds) as i64) == decimal(hours as nat) + "h"@
            + (if minutes < 10 {
            "0"@ + decimal(minutes as nat)
        } else {
            decimal(minutes as nat)
        }) + "m"@,
{
    let total = hours * 3600 + minutes * 60 + seconds;
    assert(total / 3600 == hours);
    assert((total / 60) % 60 == minutes);
    reveal_strlit("0");
    assert("0"@ =~= seq!['0']);
}

/// The share of a window at the start of a goal is told only where a window of the same length was seen
/// then; a window of another length counts as none.
pub proof fn lemma_window_beside_its_like(window: RateLimitWindow, seen: RateLimitWindow)
    ensures
        seen.window_minutes != window.window_minutes ==> window_text(window, Some(seen))
            == window_text(window, None),
        window_text(window, None) == (match window.window_minutes {
            Some(minutes) => integer_text(minutes as int),
            None => "?"@,
        }) + "m:"@ + "unknown"@ + ">"@ + decimal(left_percent(window.used_percent)) + " reset="@ + (
        match window.resets_at {
            Some(at) => integer_text(at as int),
            None => "?"@,
        }),
        seen.window_minutes == window.window_minutes ==> window_text(window, Some(seen)) == (
        match window.window_minutes {
            Some(minutes) => integer_text(minutes as int),
            None => "?"@,
        }) + "m:"@ + decimal(left_percent(seen.used_percent)) + ">"@ + decimal(
            left_percent(window.used_percent),
        ) + " reset="@ + (match window.resets_at {
            Some(at) => integer_text(at as int),
            None => "?"@,
        }),
{
}

/// Of a snapshot only the first limit is shown: its windows in their order, and `unknown` where it has
/// none. Of the initial snapshot only the limit of the same id counts.
pub proof fn lemma_windows_of_the_first_limit(
    snapshot: QuotaModel,
    initial: QuotaModel,
)
    ensures
        snapshot.limits.len() == 0 ==> quota_windows_text(snapshot, Some(initial)) == "unknown"@,
        snapshot.limits.len() > 0 && snapshot.limits[0].primary is None
            && snapshot.limits[0].secondary is None ==> quota_windows_text(snapshot, Some(initial))
            == "unknown"@,
        snapshot.limits.len() > 0 && (forall|i: int|
            0 <= i < initial.limits.len() ==> (#[trigger] initial.limits[i]).limit_id
                != snapshot.limits[0].limit_id) ==> quota_windows_text(snapshot, Some(initial))
            == quota_windows_text(snapshot, None),
        snapshot.limits.len() > 0 && initial.limits.len() > 0 && initial.limits[0].limit_id
            == snapshot.limits[0].limit_id ==> {
            let now = snapshot.limits[0];
            let then = initial.limits[0];
            &&& now.primary is Some && now.secondary is Some ==> quota_windows_text(
                snapshot,
                Some(initial),
            ) == window_text(now.primary->0, then.primary) + " "@ + window_text(
                now.secondary->0,
                then.secondary,
            )
            &&& now.primary is Some && now.secondary is None ==> quota_windows_text(
                snapshot,
                Some(initial),
            ) == window_text(now.primary->0, then.primary)
            &&& now.primary is None && now.secondary is Some ==> quota_windows_text(
                snapshot,
                Some(initial),
            ) == window_text(now.secondary->0, then.secondary)
        },
{
    if snapshot.limits.len() > 0 {
        let first = snapshot.limits[0];
        let meets = |seen: LimitModel| seen.limit_id == first.limit_id;
        lemma_first_where(initial.limits, meets);
        if forall|i: int|
            0 <= i < initial.limits.len() ==> (#[trigger] initial.limits[i]).limit_id
                != first.limit_id {
            if let Some(found) = first_where(initial.limits, meets) {
                let i = choose|i: int| 0 <= i < initial.limits.len() && initial.limits[i] == found;
                assert(initial.limits[i].limit_id == first.limit_id);
            }
        }
        if initial.limits.len() > 0 && initial.limits[0].limit_id == first.limit_id {
            assert(meets(initial.limits[0]));
        }
    }
}

/// A snapshot is shown beside the initial one of its own source and scope alone: others do not count,
/// and neither does any where the scope is unknown.
pub proof fn lemma_quota_beside_its_scope(
    snapshot: QuotaModel,
    initial: Seq<QuotaModel>,
    before: Seq<QuotaModel>,
    same: QuotaModel,
)
    ensures
        snapshot.scope_id == "unknown"@ ==> quota_line(snapshot, initial) == quota_line(
            snapshot,
            Seq::empty(),
        ),
        (forall|i: int|
            0 <= i < initial.len() ==> (#[trigger] initial[i]).source != snapshot.source
                || initial[i].scope_id != snapshot.scope_id) ==> quota_line(snapshot, initial)
            == quota_line(snapshot, Seq::empty()),
        same.source == snapshot.source && same.scope_id == snapshot.scope_id && snapshot.scope_id
            != "unknown"@ ==> quota_line(snapshot, seq![same] + before) == bounded_text(
            source_name(snapshot.source),
            12,
        ) + "/"@ + bounded_text(snapshot.scope_id, 10) + " "@ + quota_windows_text(
            snapshot,
            Some(same),
        ) + " seen="@ + integer_text(same.captured_at as int) + ">"@ + integer_text(
            snapshot.captured_at as int,
        ) + ".\n"@,
        quota_line(snapshot, Seq::empty()) == bounded_text(source_name(snapshot.source), 12) + "/"@
            + bounded_text(snapshot.scope_id, 10) + " "@ + quota_windows_text(snapshot, None)
            + " seen="@ + "unknown"@ + ">"@ + integer_text(snapshot.captured_at as int) + ".\n"@,
{
    let meets = same_scope(snapshot);
    lemma_first_where(initial, meets);
    if let Some(found) = first_where(initial, meets) {
        let i = choose|i: int| 0 <= i < initial.len() && initial[i] == found;
        assert(initial[i].source == snapshot.source);
    }
    let list = seq![same] + before;
    assert(list[0] == same);
}

/// A source is shown by its short name: a key, a pool or an account; another as it is.
pub proof fn lemma_short_names_of_sources(source: Seq<char>)
    ensures
        source_name("provider-key"@) == "key"@,
        source_name("provider-pool"@) == "pool"@,
        source_name("chatgpt-account"@) == "account"@,
        source != "provider-key"@ && source != "provider-pool"@ && source != "chatgpt-account"@
            ==> source_name(source) == source,
{
    reveal_strlit("provider-key");
    reveal_strlit("provider-pool");
    reveal_strlit("chatgpt-account");
    assert("provider-key"@.len() == 12);
    assert("provider-pool"@.len() == 13);
    assert("chatgpt-account"@.len() == 15);
}

/// A reminder speaks of the first two current snapshots and no others.
pub proof fn lemma_reminder_shows_two_snapshots(context: ExecutionModel)
    requires
        context.current_quota_snapshots.len() > 2,
    ensures
        full_reminder(context) == full_reminder(
            ExecutionModel {
                current_quota_snapshots: context.current_quota_snapshots.take(2),
                ..context
            },
        ),
        quota_lines(context.current_quota_snapshots, context.initial_quota_snapshots, 2)
            == quota_line(context.current_quota_snapshots[0], context.initial_quota_snapshots)
            + quota_line(context.current_quota_snapshots[1], context.initial_quota_snapshots),
{
    let all = context.current_quota_snapshots;
    let initial = context.initial_quota_snapshots;
    let two = all.take(2);
    reveal_with_fuel(quota_lines, 3);
    assert(two[0] == all[0] && two[1] == all[1]);
    assert(Seq::<char>::empty() + quota_line(all[0], initial) =~= quota_line(all[0], initial));
    assert(quota_lines(all, initial, 2) == quota_lines(two, initial, 2));
}

/// What a reminder says where nothing is known: the timezone is UTC, the quota unknown, and no result
/// recorded; and what stands in its place where something is.
pub proof fn lemma_reminder_defaults(context: ExecutionModel)
    ensures
        reminder_opening(context) == NUDGE@ + "Goal start="@ + timestamp_text(context.created_at)
            + " now="@ + timestamp_text(context.now_at) + " tz="@ + bounded_text(
            match context.timezone {
                Some(timezone) => timezone,
                None => "UTC"@,
            },
            24,
        ) + ".\n"@,
        context.current_stage is None && context.final_deadline_at is None ==> reminder_deadlines(
            context,
        ).len() == 0,
        context.current_stage matches Some(stage) ==> has_prefix(
            reminder_deadlines(context),
            "Next "@ + quoted_text(bounded_text(stage.label, 24)) + ": "@ + deadline_text(
                stage.deadline_at,
                stage.remaining_seconds,
                stage.remaining_percent,
            ) + "; "@,
        ),
        context.current_stage is None ==> (context.final_deadline_at matches Some(due)
            ==> reminder_deadlines(context) == "Final "@ + deadline_text(
            due,
            match context.final_deadline_remaining_seconds {
                Some(left) => left,
                None => 0,
            },
            context.final_deadline_remaining_percent,
        ) + "; "@),
        reminder_results(context) == "Result="@ + bounded_text(
            match context.latest_delivered_artifact {
                Some(artifact) => artifact,
                None => "none recorded"@,
            },
            64,
        ) + "; next output="@ + bounded_text(
            match context.current_stage {
                Some(stage) => stage.expected_result,
                None => "see get_goal"@,
            },
            48,
        ) + ".\n"@,
{
    if let Some(stage) = context.current_stage {
        let next = "Next "@ + quoted_text(bounded_text(stage.label, 24)) + ": "@ + deadline_text(
            stage.deadline_at,
            stage.remaining_seconds,
            stage.remaining_percent,
        ) + "; "@;
        assert(reminder_deadlines(context).take(next.len() as int) =~= next);
    } else if let Some(due) = context.final_deadline_at {
        let last = "Final "@ + deadline_text(
            due,
            match context.final_deadline_remaining_seconds {
                Some(left) => left,
                None => 0,
            },
            context.final_deadline_remaining_percent,
        ) + "; "@;
        assert(Seq::<char>::empty() + last =~= last);
    }
}

/// A deadline is shown as overdue exactly where no time is left before it, with the size of the
/// distance, and its percentage is `n/a` where there is none.
pub proof fn lemma_deadline_texts(due: i64, remaining: i64, percent: Option<i64>)
    ensures
        remaining >= 0 ==> deadline_text(due, remaining, percent) == timestamp_text(due) + " "@
            + "left"@ + " "@ + duration_text(remaining) + " ("@ + (match percent {
            Some(value) => integer_text(value as int),
            None => "n/a"@,
        }) + "%)"@,
        i64::MIN < remaining < 0 ==> deadline_text(due, remaining, percent) == timestamp_text(due)
            + " "@ + "overdue"@ + " "@ + duration_text((-remaining) as i64) + " ("@ + (match percent {
            Some(value) => integer_text(value as int),
            None => "n/a"@,
        }) + "%)"@,
{
}

/// A reminder within its bound is told whole; a longer one ends with the words that point to more, and
/// begins as the whole does.
pub proof fn lemma_reminder_is_whole_or_cut(context: ExecutionModel)
    ensures
        REMINDER_BYTES == 800,
        utf8_len(full_reminder(context)) <= 800 ==> reminder_text(context) == full_reminder(context),
        utf8_len(full_reminder(context)) > 800 ==> reminder_text(context) == bounded_text(
            full_reminder(context),
            (800 - utf8_len("\n[More facts: get_goal.]"@)) as nat,
        ) + "\n[More facts: get_goal.]"@,
{
}

/// Passing over an initial limit of another id, or an initial snapshot of another source or scope, does
/// not change what is shown.
pub proof fn lemma_initial_of_others_is_passed_over(
    snapshot: QuotaModel,
    first: QuotaModel,
    others: Seq<QuotaModel>,
    seen: QuotaModel,
    limit: LimitModel,
)
    ensures
        first.source != snapshot.source || first.scope_id != snapshot.scope_id ==> quota_line(
            snapshot,
            seq![first] + others,
        ) == quota_line(snapshot, others),
        snapshot.limits.len() > 0 && limit.limit_id != snapshot.limits[0].limit_id
            ==> quota_windows_text(
            snapshot,
            Some(QuotaModel { limits: seq![limit] + seen.limits, ..seen }),
        ) == quota_windows_text(snapshot, Some(seen)),
{
    let list = seq![first] + others;
    assert(list[0] == first);
    assert(list.drop_first() =~= others);
    let limits = seq![limit] + seen.limits;
    assert(limits[0] == limit);
    assert(limits.drop_first() =~= seen.limits);
}

/// Where there is a current stage and a final deadline, both are told, the stage first.
pub proof fn lemma_both_deadlines_are_told(context: ExecutionModel)
    requires
        context.current_stage is Some,
        context.final_deadline_at is Some,
    ensures
        ({
            let stage = context.current_stage->0;
            reminder_deadlines(context) == ("Next "@ + quoted_text(bounded_text(stage.label, 24))
                + ": "@ + deadline_text(
                stage.deadline_at,
                stage.remaining_seconds,
                stage.remaining_percent,
            ) + "; "@) + ("Final "@ + deadline_text(
                context.final_deadline_at->0,
                match context.final_deadline_remaining_seconds {
                    Some(left) => left,
                    None => 0,
                },
                context.final_deadline_remaining_percent,
            ) + "; "@)
        }),
{
}

/// The usage in a reminder tells the overdue stages, the tokens used, the budget at the start and now,
/// and the quota: unknown where there is no snapshot.
pub proof fn lemma_reminder_usage(context: ExecutionModel)
    requires
        context.current_quota_snapshots.len() <= 2,
    ensures
        ({
            let head = "overdue="@ + decimal(context.overdue_stage_count) + ".\nTokens="@
                + integer_text(context.tokens_used as int) + " budget start="@ + amount_text(
                context.initial_token_budget,
            ) + " now="@ + amount_text(context.current_token_budget) + ". "@
                + "Quota shared, not reserved; %left start>now; reset/seen=Unix UTC.\n"@;
            let all = context.current_quota_snapshots;
            &&& all.len() == 0 ==> reminder_usage(context) == head + "Quota now=unknown.\n"@
            &&& all.len() == 1 ==> reminder_usage(context) == head + quota_line(
                all[0],
                context.initial_quota_snapshots,
            )
            &&& all.len() == 2 ==> reminder_usage(context) == head + quota_line(
                all[0],
                context.initial_quota_snapshots,
            ) + quota_line(all[1], context.initial_quota_snapshots)
        }),
{
    let head = "overdue="@ + decimal(context.overdue_stage_count) + ".\nTokens="@ + integer_text(
        context.tokens_used as int,
    ) + " budget start="@ + amount_text(context.initial_token_budget) + " now="@ + amount_text(
        context.current_token_budget,
    ) + ". "@ + "Quota shared, not reserved; %left start>now; reset/seen=Unix UTC.\n"@;
    let all = context.current_quota_snapshots;
    let initial = context.initial_quota_snapshots;
    let unknown = head + "Quota now=unknown.\n"@;
    reveal_with_fuel(quota_lines, 3);
    assert(unknown + Seq::<char>::empty() =~= unknown);
    assert(head + Seq::<char>::empty() =~= head);
    if all.len() > 0 {
        let one = quota_line(all[0], initial);
        assert(Seq::<char>::empty() + one =~= one);
        if all.len() == 2 {
            let two = quota_line(all[1], initial);
            assert(head + (one + two) =~= head + one + two);
        }
    }
}

/// An instant outside of the calendar is shown by its seconds, and a missing number by its own word.
pub proof fn lemma_fallback_texts(value: i64)
    ensures
        utc_seconds_text(value) is None ==> timestamp_text(value) == integer_text(value as int)
            + "sUTC"@,
        utc_seconds_text(value) matches Some(text) ==> timestamp_text(value) == text,
        amount_text(None) == "none"@,
        amount_text(Some(value)) == integer_text(value as int),
{
}

/// A negative number of seconds shows its hours and minutes with their sign, and no minutes as two
/// zeros without one.
pub proof fn lemma_negative_duration(hours: int, minutes: int, seconds: int)
    requires
        0 <= hours,
        0 <= minutes < 60,
        0 <= seconds < 60,
        0 < hours * 3600 + minutes * 60 + seconds <= i64::MAX,
    ensures
        duration_text((-(hours * 3600 + minutes * 60 + seconds)) as i64) == (if hours > 0 {
            "-"@ + decimal(hours as nat)
        } else {
            decimal(0)
        }) + "h"@ + (if minutes > 0 {
            "-"@ + decimal(minutes as nat)
        } else {
            "00"@
        }) + "m"@,
{
    let total = hours * 3600 + minutes * 60 + seconds;
    assert(total / 3600 == hours);
    assert((total / 60) % 60 == minutes);
    reveal_strlit("-");
    reveal_strlit("00");
    assert("-"@ =~= seq!['-']);
    assert("00"@ =~= two_digits(0));
    assert(integer_text(-minutes) =~= if minutes > 0 {
        "-"@ + decimal(minutes as nat)
    } else {
        decimal(0)
    });
    assert(integer_text(-hours) =~= if hours > 0 {
        "-"@ + decimal(hours as nat)
    } else {
        decimal(0)
    });
}

/// Without anything seen at the start, each window is shown with nothing beside it.
pub proof fn lemma_windows_without_a_start(snapshot: QuotaModel)
    requires
        snapshot.limits.len() > 0,
    ensures
        ({
            let now = snapshot.limits[0];
            let text = quota_windows_text(snapshot, None);
            &&& now.primary is Some && now.secondary is Some ==> text == window_text(
                now.primary->0,
                None,
            ) + " "@ + window_text(now.secondary->0, None)
            &&& now.primary is Some && now.secondary is None ==> text == window_text(
                now.primary->0,
                None,
            )
            &&& now.primary is None && now.secondary is Some ==> text == window_text(
                now.secondary->0,
                None,
            )
            &&& now.primary is None && now.secondary is None ==> text == "unknown"@
        }),
{
}

} // verus!

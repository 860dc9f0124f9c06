//! Short texts about a goal.

use crate::protocol::{GoalModel, ThreadGoal, ThreadGoalStatus};
use crate::text::{decimal, decimal_text, push_decimal};
use vstd::prelude::*;

verus! {

/// How the goal command is used.
pub const GOAL_USAGE: &'static str = "Usage: /goal [<objective>|clear|edit|pause|resume]";

/// A span of time in its largest units, without what is below a minute once there is a minute.
/// Negative spans count as none.
pub open spec fn elapsed_text(seconds: int) -> Seq<char> {
    let minutes = (seconds / 60) as nat;
    let hours = minutes / 60;
    let minutes_left = minutes % 60;
    if seconds < 0 {
        decimal(0) + "s"@
    } else if seconds < 60 {
        decimal(seconds as nat) + "s"@
    } else if minutes < 60 {
        decimal(minutes) + "m"@
    } else if hours >= 24 {
        decimal(hours / 24) + "d "@ + decimal(hours % 24) + "h "@ + decimal(minutes_left) + "m"@
    } else if minutes_left == 0 {
        decimal(hours) + "h"@
    } else {
        decimal(hours) + "h "@ + decimal(minutes_left) + "m"@
    }
}

/// A span of time in its largest units.
pub fn format_goal_elapsed_seconds(seconds: i64) -> (text: String)
    ensures
        text@ == elapsed_text(seconds as int),
{
    let total: u64 = if seconds < 0 {
        0
    } else {
        seconds as u64
    };
    if total < 60 {
        let mut text = decimal_text(total);
        text.append("s");
        return text;
    }
    let minutes: u64 = total / 60;
    if minutes < 60 {
        let mut text = decimal_text(minutes);
        text.append("m");
        return text;
    }
    let hours: u64 = minutes / 60;
    let minutes_left: u64 = minutes % 60;
    if hours >= 24 {
        let mut text = decimal_text(hours / 24);
        text.append("d ");
        push_decimal(&mut text, hours % 24);
        text.append("h ");
        push_decimal(&mut text, minutes_left);
        text.append("m");
        return text;
    }
    let mut text = decimal_text(hours);
    if minutes_left == 0 {
        text.append("h");
    } else {
        text.append("h ");
        push_decimal(&mut text, minutes_left);
        text.append("m");
    }
    text
}

/// What a user calls a status.
pub open spec fn status_label(status: ThreadGoalStatus) -> Seq<char> {
    match status {
        ThreadGoalStatus::Active => "active"@,
        ThreadGoalStatus::Paused => "paused"@,
        ThreadGoalStatus::Blocked => "stalled"@,
        ThreadGoalStatus::UsageLimited => "usage limited"@,
        ThreadGoalStatus::BudgetLimited => "limited by budget"@,
        ThreadGoalStatus::Complete => "complete"@,
    }
}

/// What a user calls a status.
pub fn goal_status_label(status: ThreadGoalStatus) -> (label: &'static str)
    ensures
        label@ == status_label(status),
{
    match status {
        ThreadGoalStatus::Active => "active",
        ThreadGoalStatus::Paused => "paused",
        ThreadGoalStatus::Blocked => "stalled",
        ThreadGoalStatus::UsageLimited => "usage limited",
        ThreadGoalStatus::BudgetLimited => "limited by budget",
        ThreadGoalStatus::Complete => "complete",
    }
}

/// Two statuses never share a label.
pub proof fn lemma_labels_differ(a: ThreadGoalStatus, b: ThreadGoalStatus)
    requires
        status_label(a) == status_label(b),
    ensures
        a == b,
{
    reveal_strlit("active");
    reveal_strlit("paused");
    reveal_strlit("stalled");
    reveal_strlit("usage limited");
    reveal_strlit("limited by budget");
    reveal_strlit("complete");
    assert("active"@[0] == 'a');
    assert("paused"@[0] == 'p');
    assert("stalled"@[0] == 's');
    assert("usage limited"@[0] == 'u');
    assert("limited by budget"@[0] == 'l');
    assert("complete"@[0] == 'c');
}

/// The objective, the time and, for a goal with a budget, the tokens: used and budgeted, each as
/// it is shown.
pub open spec fn usage_text(goal: GoalModel, tokens: Option<(Seq<char>, Seq<char>)>) -> Seq<char> {
    "Objective: "@ + goal.objective + (if goal.time_used_seconds > 0 {
        " Time: "@ + elapsed_text(goal.time_used_seconds as int) + "."@
    } else {
        Seq::empty()
    }) + (match tokens {
        Some((used, budget)) => " Tokens: "@ + used + "/"@ + budget + "."@,
        None => Seq::empty(),
    })
}

/// The usage of a goal, with its token numbers as they are shown.
pub fn usage_summary(goal: &ThreadGoal, tokens: Option<(String, String)>) -> (text: String)
    ensures
        text@ == usage_text(goal.deep_view(), tokens.deep_view()),
{
    let mut text = "Objective: ".to_owned();
    text.append(goal.objective.as_str());
    let mut time = String::new();
    if goal.time_used_seconds > 0 {
        time = " Time: ".to_owned();
        time.append(format_goal_elapsed_seconds(goal.time_used_seconds).as_str());
        time.append(".");
    }
    text.append(time.as_str());
    let mut spent = String::new();
    if let Some((used, budget)) = tokens {
        spent = " Tokens: ".to_owned();
        spent.append(used.as_str());
        spent.append("/");
        spent.append(budget.as_str());
        spent.append(".");
    }
    text.append(spent.as_str());
    text
}

/// The usage of a goal. `format_tokens` shows a number of tokens; it is asked for the tokens used
/// and for the budget, where there is one.
pub fn goal_usage_summary(goal: &ThreadGoal, format_tokens: impl Fn(i64) -> String) -> (text:
    String)
    requires
        forall|count: i64| call_requires(format_tokens, (count,)),
    ensures
        match goal.token_budget {
            None => text@ == usage_text(goal.deep_view(), None),
            Some(budget) => exists|used: String, limit: String|
                {
                    &&& #[trigger] call_ensures(format_tokens, (goal.tokens_used,), used)
                    &&& #[trigger] call_ensures(format_tokens, (budget,), limit)
                    &&& text@ == usage_text(goal.deep_view(), Some((used@, limit@)))
                },
        },
{
    let tokens = match goal.token_budget {
        Some(budget) => Some((format_tokens(goal.tokens_used), format_tokens(budget))),
        None => None,
    };
    usage_summary(goal, tokens)
}

/// A span of days, hours, minutes and seconds shows its days, hours and minutes; below a day only the
/// hours and those minutes that are some; below an hour only the minutes; and below a minute only the
/// seconds.
pub proof fn lemma_elapsed_parts(days: nat, hours: nat, minutes: nat, seconds: nat)
    requires
        hours < 24,
        minutes < 60,
        seconds < 60,
    ensures
        ({
            let text = elapsed_text((days * 86400 + hours * 3600 + minutes * 60 + seconds) as int);
            &&& days > 0 ==> text == decimal(days) + "d "@ + decimal(hours) + "h "@ + decimal(
                minutes,
            ) + "m"@
            &&& days == 0 && hours > 0 && minutes > 0 ==> text == decimal(hours) + "h "@ + decimal(
                minutes,
            ) + "m"@
            &&& days == 0 && hours > 0 && minutes == 0 ==> text == decimal(hours) + "h"@
            &&& days == 0 && hours == 0 && minutes > 0 ==> text == decimal(minutes) + "m"@
            &&& days == 0 && hours == 0 && minutes == 0 ==> text == decimal(seconds) + "s"@
        }),
{
    let total = days * 86400 + hours * 3600 + minutes * 60 + seconds;
    assert(total / 60 == days * 1440 + hours * 60 + minutes);
    assert((total / 60) / 60 == days * 24 + hours);
}

/// A span below zero shows as none.
pub proof fn lemma_negative_span_is_none(seconds: int)
    requires
        seconds < 0,
    ensures
        elapsed_text(seconds) == elapsed_text(0),
{
}

/// Each status has its own label.
pub proof fn lemma_label_of_each_status()
    ensures
        status_label(ThreadGoalStatus::Active) == "active"@,
        status_label(ThreadGoalStatus::Paused) == "paused"@,
        status_label(ThreadGoalStatus::Blocked) == "stalled"@,
        status_label(ThreadGoalStatus::UsageLimited) == "usage limited"@,
        status_label(ThreadGoalStatus::BudgetLimited) == "limited by budget"@,
        status_label(ThreadGoalStatus::Complete) == "complete"@,
{
}

/// The usage of a goal is its objective; then the time, where some was used; then the tokens, where
/// there is a budget.
pub proof fn lemma_usage_parts(goal: GoalModel, used: Seq<char>, budget: Seq<char>)
    ensures
        goal.time_used_seconds <= 0 ==> usage_text(goal, None) == "Objective: "@ + goal.objective,
        goal.time_used_seconds > 0 ==> usage_text(goal, None) == "Objective: "@ + goal.objective
            + " Time: "@ + elapsed_text(goal.time_used_seconds as int) + "."@,
        usage_text(goal, Some((used, budget))) == usage_text(goal, None) + " Tokens: "@ + used
            + "/"@ + budget + "."@,
{
    let head = "Objective: "@ + goal.objective;
    let time = " Time: "@ + elapsed_text(goal.time_used_seconds as int) + "."@;
    assert(head + Seq::<char>::empty() + Seq::<char>::empty() =~= head);
    assert(head + time + Seq::<char>::empty() =~= head + " Time: "@ + elapsed_text(
        goal.time_used_seconds as int,
    ) + "."@);
    let plain = usage_text(goal, None);
    assert(usage_text(goal, Some((used, budget))) =~= plain + " Tokens: "@ + used + "/"@ + budget
        + "."@);
}

} // verus!

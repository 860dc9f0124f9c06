//! What the goal command shows: the summary of a goal, and the prompts to edit or resume it.

use crate::calendar::{
    is_local_timezone, local_goal_timezone, render_utc_minute, utc_minute_text,
};
use crate::goal_display::{
    elapsed_text, format_goal_elapsed_seconds, goal_status_label, status_label,
};
use crate::goal_editor::{editor_text, editor_text_in};
use crate::lists::{lemma_push_deep_view, models};
use crate::protocol::{clone_stages, GoalModel, StageModel, ThreadGoal, ThreadGoalStage};
use crate::protocol::ThreadGoalStatus;
use crate::schedule::{execution_facts, summarize_goal_execution};
use crate::text::{integer_text, same_text, signed_text};
use vstd::prelude::*;

verus! {

/// How a span of a line is set.
#[derive(Debug, Clone, Copy, PartialEq, Eq, Structural)]
pub enum SpanStyle {
    Plain,
    Bold,
    Dim,
}

/// A run of text in one style.
#[derive(Debug, PartialEq, Eq)]
pub struct Span {
    pub text: String,
    pub style: SpanStyle,
}

/// What a span stands for.
pub struct SpanModel {
    pub text: Seq<char>,
    pub style: SpanStyle,
}

impl DeepView for Span {
    type V = SpanModel;

    open spec fn deep_view(&self) -> SpanModel {
        SpanModel { text: self.text@, style: self.style }
    }
}

/// A line on the screen. A line stands for the sequence of its spans.
#[derive(Debug, PartialEq, Eq)]
pub struct Line {
    pub spans: Vec<Span>,
}

impl DeepView for Line {
    type V = Seq<SpanModel>;

    open spec fn deep_view(&self) -> Seq<SpanModel> {
        self.spans.deep_view()
    }
}

/// A line of one span.
pub open spec fn single(text: Seq<char>, style: SpanStyle) -> Seq<SpanModel> {
    seq![SpanModel { text, style }]
}

/// A line with a dim label and a plain value.
pub open spec fn labelled(label: Seq<char>, value: Seq<char>) -> Seq<SpanModel> {
    seq![
        SpanModel { text: label, style: SpanStyle::Dim },
        SpanModel { text: value, style: SpanStyle::Plain },
    ]
}

/// How much time a stage has left, or by how much it is late.
pub open spec fn stage_remaining_text(remaining_seconds: int, overdue_seconds: int) -> Seq<char> {
    if overdue_seconds > 0 {
        "overdue by "@ + elapsed_text(overdue_seconds)
    } else {
        elapsed_text(remaining_seconds) + " remaining"@
    }
}

/// The line of a stage in a summary.
pub open spec fn stage_entry(stage: StageModel) -> Seq<char> {
    "  "@ + stage.label + " ["@ + (match utc_minute_text(stage.deadline_at) {
        Some(text) => text,
        None => "invalid deadline"@,
    }) + "] — "@ + stage.expected_result + (match stage.delivered_artifact {
        Some(artifact) => "; result: "@ + artifact,
        None => Seq::empty(),
    })
}

/// The lines of the first `count` stages.
pub open spec fn stage_entries(stages: Seq<StageModel>, count: nat) -> Seq<Seq<SpanModel>>
    decreases count,
{
    if count == 0 {
        Seq::empty()
    } else {
        stage_entries(stages, (count - 1) as nat).push(
            single(stage_entry(stages[count - 1]), SpanStyle::Plain),
        )
    }
}

/// The first lines of a summary: status, objective, time and tokens.
pub open spec fn summary_head(goal: GoalModel, tokens_used: Seq<char>) -> Seq<Seq<SpanModel>> {
    seq![
        single("Goal"@, SpanStyle::Bold),
        labelled("Status: "@, status_label(goal.status)),
        labelled("Objective: "@, goal.objective),
        labelled("Time used: "@, elapsed_text(goal.time_used_seconds as int)),
        labelled("Tokens used: "@, tokens_used),
    ]
}

/// A line for a fact that may be missing.
pub open spec fn optional_line(label: Seq<char>, value: Option<Seq<char>>) -> Seq<Seq<SpanModel>> {
    match value {
        Some(text) => seq![labelled(label, text)],
        None => Seq::empty(),
    }
}

/// The line of the current stage.
pub open spec fn current_line(goal: GoalModel, now: i64) -> Seq<Seq<SpanModel>> {
    match execution_facts(goal, now).current_stage {
        Some(stage) => seq![
            single(
                "  Current: "@ + stage.label + " — "@ + stage_remaining_text(
                    stage.remaining_seconds as int,
                    stage.overdue_seconds as int,
                ),
                SpanStyle::Plain,
            ),
        ],
        None => Seq::empty(),
    }
}

/// The line of the final deadline.
pub open spec fn final_line(goal: GoalModel, now: i64) -> Seq<Seq<SpanModel>> {
    let facts = execution_facts(goal, now);
    match facts.final_deadline_at {
        Some(due) => seq![
            single(
                "  Final: "@ + integer_text(due as int) + " — "@ + stage_remaining_text(
                    facts.final_deadline_remaining_seconds->0 as int,
                    facts.final_deadline_overdue_seconds->0 as int,
                ),
                SpanStyle::Plain,
            ),
        ],
        None => Seq::empty(),
    }
}

/// The schedule in a summary; nothing where the goal has no stages.
pub open spec fn summary_schedule(goal: GoalModel, now: i64) -> Seq<Seq<SpanModel>> {
    if goal.stages.len() == 0 {
        Seq::empty()
    } else {
        seq![single("Stages"@, SpanStyle::Bold)] + stage_entries(goal.stages, goal.stages.len())
            + current_line(goal, now) + final_line(goal, now)
    }
}

/// The commands that a goal in a status takes.
pub open spec fn command_hint(status: ThreadGoalStatus) -> Seq<char> {
    match status {
        ThreadGoalStatus::Active => "Commands: /goal edit, /goal pause, /goal clear"@,
        ThreadGoalStatus::Paused | ThreadGoalStatus::Blocked | ThreadGoalStatus::UsageLimited =>
        "Commands: /goal edit, /goal resume, /goal clear"@,
        ThreadGoalStatus::BudgetLimited | ThreadGoalStatus::Complete =>
        "Commands: /goal edit, /goal clear"@,
    }
}

/// The last lines of a summary: an empty one and the commands.
pub open spec fn summary_tail(goal: GoalModel) -> Seq<Seq<SpanModel>> {
    seq![Seq::empty(), single(command_hint(goal.status), SpanStyle::Dim)]
}

/// The summary of a goal at the instant `now`, with its token numbers as they are shown.
pub open spec fn summary_text(
    goal: GoalModel,
    now: i64,
    tokens_used: Seq<char>,
    token_budget: Option<Seq<char>>,
) -> Seq<Seq<SpanModel>> {
    summary_head(goal, tokens_used) + optional_line("Token budget: "@, token_budget)
        + optional_line("Timezone: "@, goal.timezone) + summary_schedule(goal, now) + summary_tail(
        goal,
    )
}

fn single_line(text: String, style: SpanStyle) -> (line: Line)
    ensures
        line.deep_view() == single(text@, style),
{
    let mut spans: Vec<Span> = Vec::new();
    spans.push(Span { text, style });
    proof {
        assert(spans.deep_view() =~= single(text@, style));
    }
    Line { spans }
}

fn labelled_line(label: &str, value: String) -> (line: Line)
    ensures
        line.deep_view() == labelled(label@, value@),
{
    let mut spans: Vec<Span> = Vec::new();
    spans.push(Span { text: label.to_owned(), style: SpanStyle::Dim });
    spans.push(Span { text: value, style: SpanStyle::Plain });
    proof {
        assert(spans.deep_view() =~= labelled(label@, value@));
    }
    Line { spans }
}

fn push_line(lines: &mut Vec<Line>, line: Line)
    ensures
        final(lines).deep_view() == old(lines).deep_view().push(line.deep_view()),
{
    lines.push(line);
    proof {
        lemma_push_deep_view(old(lines)@, *lines, line);
        assert(models(old(lines)@) =~= old(lines).deep_view());
    }
}

/// How much time a stage has left, or by how much it is late.
pub fn format_stage_remaining(remaining_seconds: i64, overdue_seconds: i64) -> (text: String)
    ensures
        text@ == stage_remaining_text(remaining_seconds as int, overdue_seconds as int),
{
    if overdue_seconds > 0 {
        let mut text = "overdue by ".to_owned();
        text.append(format_goal_elapsed_seconds(overdue_seconds).as_str());
        text
    } else {
        let mut text = format_goal_elapsed_seconds(remaining_seconds);
        text.append(" remaining");
        text
    }
}

fn entry_of_stage(stage: &ThreadGoalStage) -> (text: String)
    ensures
        text@ == stage_entry(stage.deep_view()),
{
    let mut text = "  ".to_owned();
    text.append(stage.label.as_str());
    text.append(" [");
    match render_utc_minute(stage.deadline_at) {
        Some(due) => text.append(due.as_str()),
        None => text.append("invalid deadline"),
    }
    text.append("] — ");
    text.append(stage.expected_result.as_str());
    let mut delivered = String::new();
    if let Some(artifact) = &stage.delivered_artifact {
        delivered = "; result: ".to_owned();
        delivered.append(artifact.as_str());
    }
    text.append(delivered.as_str());
    text
}

fn add_head(lines: &mut Vec<Line>, goal: &ThreadGoal, tokens_used: String)
    requires
        old(lines)@.len() == 0,
    ensures
        final(lines).deep_view() == summary_head(goal.deep_view(), tokens_used@),
{
    push_line(lines, single_line("Goal".to_owned(), SpanStyle::Bold));
    push_line(lines, labelled_line("Status: ", goal_status_label(goal.status).to_owned()));
    push_line(lines, labelled_line("Objective: ", goal.objective.clone()));
    push_line(
        lines,
        labelled_line("Time used: ", format_goal_elapsed_seconds(goal.time_used_seconds)),
    );
    push_line(lines, labelled_line("Tokens used: ", tokens_used));
    proof {
        assert(lines.deep_view() =~= summary_head(goal.deep_view(), tokens_used@));
    }
}

fn add_optional(lines: &mut Vec<Line>, label: &str, value: Option<String>)
    ensures
        final(lines).deep_view() == old(lines).deep_view() + optional_line(
            label@,
            value.deep_view(),
        ),
{
    if let Some(text) = value {
        push_line(lines, labelled_line(label, text));
    }
    proof {
        assert(lines.deep_view() =~= old(lines).deep_view() + optional_line(
            label@,
            value.deep_view(),
        ));
    }
}

fn add_entries(lines: &mut Vec<Line>, stages: &Vec<ThreadGoalStage>)
    ensures
        final(lines).deep_view() == old(lines).deep_view() + stage_entries(
            stages.deep_view(),
            stages@.len(),
        ),
{
    let ghost before = lines.deep_view();
    let ghost all = stages.deep_view();
    let mut i: usize = 0;
    proof {
        assert(before + stage_entries(all, 0) =~= before);
    }
    while i < stages.len()
        invariant
            i <= stages@.len(),
            all == stages.deep_view(),
            lines.deep_view() == before + stage_entries(all, i as nat),
        decreases stages@.len() - i,
    {
        let line = single_line(entry_of_stage(&stages[i]), SpanStyle::Plain);
        push_line(lines, line);
        proof {
            let done = stage_entries(all, i as nat);
            assert((before + done).push(line.deep_view()) =~= before + done.push(line.deep_view()));
        }
        i = i + 1;
    }
}

fn add_schedule(lines: &mut Vec<Line>, goal: &ThreadGoal, now_at: i64)
    ensures
        final(lines).deep_view() == old(lines).deep_view() + summary_schedule(
            goal.deep_view(),
            now_at,
        ),
{
    if goal.stages.len() == 0 {
        proof {
            assert(lines.deep_view() + Seq::<Seq<SpanModel>>::empty() =~= lines.deep_view());
        }
        return;
    }
    push_line(lines, single_line("Stages".to_owned(), SpanStyle::Bold));
    add_entries(lines, &goal.stages);
    let context = summarize_goal_execution(goal, now_at);
    if let Some(stage) = &context.current_stage {
        let mut text = "  Current: ".to_owned();
        text.append(stage.label.as_str());
        text.append(" — ");
        text.append(
            format_stage_remaining(stage.remaining_seconds, stage.overdue_seconds).as_str(),
        );
        push_line(lines, single_line(text, SpanStyle::Plain));
    }
    if let Some(due) = context.final_deadline_at {
        let remaining = match context.final_deadline_remaining_seconds {
            Some(seconds) => seconds,
            None => 0,
        };
        let overdue = match context.final_deadline_overdue_seconds {
            Some(seconds) => seconds,
            None => 0,
        };
        let mut text = "  Final: ".to_owned();
        text.append(signed_text(due).as_str());
        text.append(" — ");
        text.append(format_stage_remaining(remaining, overdue).as_str());
        push_line(lines, single_line(text, SpanStyle::Plain));
    }
    proof {
        assert(lines.deep_view() =~= old(lines).deep_view() + summary_schedule(
            goal.deep_view(),
            now_at,
        ));
    }
}

fn hint_of(status: ThreadGoalStatus) -> (hint: &'static str)
    ensures
        hint@ == command_hint(status),
{
    match status {
        ThreadGoalStatus::Active => "Commands: /goal edit, /goal pause, /goal clear",
        ThreadGoalStatus::Paused
        | ThreadGoalStatus::Blocked
        | ThreadGoalStatus::UsageLimited => "Commands: /goal edit, /goal resume, /goal clear",
        ThreadGoalStatus::BudgetLimited | ThreadGoalStatus::Complete => {
            "Commands: /goal edit, /goal clear"
        },
    }
}

/// The summary of a goal at the instant `now_at`, with its token numbers as they are shown.
pub fn summary_lines(
    goal: &ThreadGoal,
    now_at: i64,
    tokens_used: String,
    token_budget: Option<String>,
) -> (lines: Vec<Line>)
    ensures
        lines.deep_view() == summary_text(
            goal.deep_view(),
            now_at,
            tokens_used@,
            token_budget.deep_view(),
        ),
{
    let mut lines: Vec<Line> = Vec::new();
    add_head(&mut lines, goal, tokens_used);
    add_optional(&mut lines, "Token budget: ", token_budget);
    add_optional(&mut lines, "Timezone: ", goal.timezone.clone());
    add_schedule(&mut lines, goal, now_at);
    let ghost before = lines.deep_view();
    let blank = Line { spans: Vec::new() };
    proof {
        assert(blank.deep_view() =~= Seq::empty());
    }
    push_line(&mut lines, blank);
    push_line(&mut lines, single_line(hint_of(goal.status).to_owned(), SpanStyle::Dim));
    proof {
        assert(lines.deep_view() =~= before + summary_tail(goal.deep_view()));
    }
    lines
}

/// The summary of a goal at the instant `now_at`. `format_tokens` shows a number of tokens; it is
/// asked for the tokens used and for the budget, where there is one.
pub fn goal_summary_lines_at(
    goal: &ThreadGoal,
    now_at: i64,
    format_tokens: impl Fn(i64) -> String,
) -> (lines: Vec<Line>)
    requires
        forall|count: i64| call_requires(format_tokens, (count,)),
    ensures
        match goal.token_budget {
            None => exists|used: String|
                {
                    &&& #[trigger] call_ensures(format_tokens, (goal.tokens_used,), used)
                    &&& lines.deep_view() == summary_text(goal.deep_view(), now_at, used@, None)
                },
            Some(budget) => exists|used: String, limit: String|
                {
                    &&& #[trigger] call_ensures(format_tokens, (goal.tokens_used,), used)
                    &&& #[trigger] call_ensures(format_tokens, (budget,), limit)
                    &&& lines.deep_view() == summary_text(
                        goal.deep_view(),
                        now_at,
                        used@,
                        Some(limit@),
                    )
                },
        },
{
    let tokens_used = format_tokens(goal.tokens_used);
    let token_budget = match goal.token_budget {
        Some(budget) => Some(format_tokens(budget)),
        None => None,
    };
    summary_lines(goal, now_at, tokens_used, token_budget)
}

/// The status that a goal has once it is edited: a goal that had ended becomes active.
pub open spec fn status_after_edit(status: ThreadGoalStatus) -> ThreadGoalStatus {
    match status {
        ThreadGoalStatus::BudgetLimited | ThreadGoalStatus::Complete => ThreadGoalStatus::Active,
        _ => status,
    }
}

/// The status that a goal has once it is edited.
pub fn edited_goal_status(status: ThreadGoalStatus) -> (edited: ThreadGoalStatus)
    ensures
        edited == status_after_edit(status),
{
    match status {
        ThreadGoalStatus::Active => ThreadGoalStatus::Active,
        ThreadGoalStatus::Paused
        | ThreadGoalStatus::Blocked
        | ThreadGoalStatus::UsageLimited => status,
        ThreadGoalStatus::BudgetLimited | ThreadGoalStatus::Complete => ThreadGoalStatus::Active,
    }
}

/// A goal as a user drafts it.
#[derive(Debug, PartialEq)]
pub struct GoalDraft {
    pub objective: String,
    /// The whole text of the editor, from which the schedule is read.
    pub schedule_editor_text: Option<String>,
    pub timezone: Option<String>,
    pub stages: Option<Vec<ThreadGoalStage>>,
}

/// What a draft stands for.
pub struct DraftModel {
    pub objective: Seq<char>,
    pub schedule_editor_text: Option<Seq<char>>,
    pub timezone: Option<Seq<char>>,
    pub stages: Option<Seq<StageModel>>,
}

impl DeepView for GoalDraft {
    type V = DraftModel;

    open spec fn deep_view(&self) -> DraftModel {
        DraftModel {
            objective: self.objective@,
            schedule_editor_text: self.schedule_editor_text.deep_view(),
            timezone: self.timezone.deep_view(),
            stages: self.stages.deep_view(),
        }
    }
}

/// The change of an existing goal that a user asks for.
#[derive(Debug, PartialEq)]
pub struct GoalEdit {
    pub thread_id: String,
    pub draft: GoalDraft,
    pub status: ThreadGoalStatus,
    pub token_budget: Option<i64>,
}

/// What a change stands for.
pub struct EditModel {
    pub thread_id: Seq<char>,
    pub draft: DraftModel,
    pub status: ThreadGoalStatus,
    pub token_budget: Option<i64>,
}

impl DeepView for GoalEdit {
    type V = EditModel;

    open spec fn deep_view(&self) -> EditModel {
        EditModel {
            thread_id: self.thread_id@,
            draft: self.draft.deep_view(),
            status: self.status,
            token_budget: self.token_budget,
        }
    }
}

/// The prompt in which a goal is edited.
#[derive(Debug, PartialEq)]
pub struct GoalEditPrompt {
    pub title: String,
    pub placeholder: String,
    pub initial_text: String,
    pub context_label: Option<String>,
    pub thread_id: String,
    pub status: ThreadGoalStatus,
    pub token_budget: Option<i64>,
    pub timezone: Option<String>,
    pub stages: Vec<ThreadGoalStage>,
}

/// What an edit prompt stands for.
pub struct PromptModel {
    pub title: Seq<char>,
    pub placeholder: Seq<char>,
    pub initial_text: Seq<char>,
    pub context_label: Option<Seq<char>>,
    pub thread_id: Seq<char>,
    pub status: ThreadGoalStatus,
    pub token_budget: Option<i64>,
    pub timezone: Option<Seq<char>>,
    pub stages: Seq<StageModel>,
}

impl DeepView for GoalEditPrompt {
    type V = PromptModel;

    open spec fn deep_view(&self) -> PromptModel {
        PromptModel {
            title: self.title@,
            placeholder: self.placeholder@,
            initial_text: self.initial_text@,
            context_label: self.context_label.deep_view(),
            thread_id: self.thread_id@,
            status: self.status,
            token_budget: self.token_budget,
            timezone: self.timezone.deep_view(),
            stages: self.stages.deep_view(),
        }
    }
}

/// The prompt for a goal of a thread, on a machine in the timezone `local`.
pub open spec fn edit_prompt(thread_id: Seq<char>, goal: GoalModel, local: Seq<char>) -> PromptModel {
    PromptModel {
        title: "Edit goal"@,
        placeholder: "Type a goal objective and press Enter"@,
        initial_text: editor_text(
            goal.objective,
            match goal.timezone {
                Some(named) => named,
                None => local,
            },
            goal.stages,
        ),
        context_label: None,
        thread_id,
        status: status_after_edit(goal.status),
        token_budget: goal.token_budget,
        timezone: goal.timezone,
        stages: goal.stages,
    }
}

/// The change that a prompt asks for once `text` is entered: the text is both the objective and
/// the source of the schedule, and the schedule on record is kept for reading it.
pub open spec fn submitted(prompt: PromptModel, text: Seq<char>) -> EditModel {
    EditModel {
        thread_id: prompt.thread_id,
        draft: DraftModel {
            objective: text,
            schedule_editor_text: Some(text),
            timezone: prompt.timezone,
            stages: Some(prompt.stages),
        },
        status: prompt.status,
        token_budget: prompt.token_budget,
    }
}

impl GoalEditPrompt {
    /// The change to ask for once `text` is entered.
    pub fn submit(&self, text: String) -> (edit: GoalEdit)
        ensures
            edit.deep_view() == submitted(self.deep_view(), text@),
    {
        GoalEdit {
            thread_id: self.thread_id.clone(),
            draft: GoalDraft {
                objective: text.clone(),
                schedule_editor_text: Some(text),
                timezone: self.timezone.clone(),
                stages: Some(clone_stages(&self.stages)),
            },
            status: self.status,
            token_budget: self.token_budget,
        }
    }
}

/// The prompt for a goal of a thread, on a machine in the timezone `local_timezone`.
pub fn goal_edit_prompt(thread_id: String, goal: &ThreadGoal, local_timezone: String) -> (prompt:
    GoalEditPrompt)
    ensures
        prompt.deep_view() == edit_prompt(thread_id@, goal.deep_view(), local_timezone@),
{
    let initial_text = match &goal.timezone {
        Some(named) => editor_text_in(goal.objective.as_str(), named.as_str(), &goal.stages),
        None => editor_text_in(goal.objective.as_str(), local_timezone.as_str(), &goal.stages),
    };
    GoalEditPrompt {
        title: "Edit goal".to_owned(),
        placeholder: "Type a goal objective and press Enter".to_owned(),
        initial_text,
        context_label: None,
        thread_id,
        status: edited_goal_status(goal.status),
        token_budget: goal.token_budget,
        timezone: goal.timezone.clone(),
        stages: clone_stages(&goal.stages),
    }
}

/// A request to give the goal of a thread a status.
#[derive(Debug, PartialEq, Eq)]
pub struct StatusChange {
    pub thread_id: String,
    pub status: ThreadGoalStatus,
}

/// One entry of a menu.
#[derive(Debug, PartialEq, Eq)]
pub struct SelectionItem {
    pub name: String,
    pub description: Option<String>,
    /// What choosing the entry asks for.
    pub action: Option<StatusChange>,
    pub dismiss_on_select: bool,
}

/// A menu, with the standard hint at its foot.
#[derive(Debug, PartialEq, Eq)]
pub struct SelectionView {
    pub title: Option<String>,
    pub subtitle: Option<String>,
    pub initial_selected_idx: Option<usize>,
    pub items: Vec<SelectionItem>,
}

/// What a menu entry stands for; its action is the thread and the status to give its goal.
pub struct ItemModel {
    pub name: Seq<char>,
    pub description: Option<Seq<char>>,
    pub action: Option<(Seq<char>, ThreadGoalStatus)>,
    pub dismiss_on_select: bool,
}

impl DeepView for SelectionItem {
    type V = ItemModel;

    open spec fn deep_view(&self) -> ItemModel {
        ItemModel {
            name: self.name@,
            description: self.description.deep_view(),
            action: match self.action {
                Some(change) => Some((change.thread_id@, change.status)),
                None => None,
            },
            dismiss_on_select: self.dismiss_on_select,
        }
    }
}

/// What a menu stands for.
pub struct MenuModel {
    pub title: Option<Seq<char>>,
    pub subtitle: Option<Seq<char>>,
    pub initial_selected_idx: Option<usize>,
    pub items: Seq<ItemModel>,
}

impl DeepView for SelectionView {
    type V = MenuModel;

    open spec fn deep_view(&self) -> MenuModel {
        MenuModel {
            title: self.title.deep_view(),
            subtitle: self.subtitle.deep_view(),
            initial_selected_idx: self.initial_selected_idx,
            items: self.items.deep_view(),
        }
    }
}

/// The menu that offers to resume a paused goal.
pub open spec fn resume_menu(thread_id: Seq<char>, objective: Seq<char>) -> MenuModel {
    MenuModel {
        title: Some("Resume paused goal?"@),
        subtitle: Some("Goal: "@ + objective),
        initial_selected_idx: Some(0),
        items: seq![
            ItemModel {
                name: "Resume goal"@,
                description: Some("Mark it active and continue when idle"@),
                action: Some((thread_id, ThreadGoalStatus::Active)),
                dismiss_on_select: true,
            },
            ItemModel {
                name: "Leave paused"@,
                description: Some("Keep it paused; use /goal resume later"@),
                action: None,
                dismiss_on_select: true,
            },
        ],
    }
}

/// What the chat knows of the goal of its thread.
#[derive(Debug, PartialEq, Eq)]
pub struct ChatWidget {
    pub thread_id: Option<String>,
    pub current_goal_status: Option<ThreadGoalStatus>,
}

impl ChatWidget {
    /// The prompt in which a goal is edited. A goal without a timezone shows the one of this
    /// machine.
    pub fn show_goal_edit_prompt(&self, thread_id: String, goal: &ThreadGoal) -> (prompt:
        GoalEditPrompt)
        ensures
            goal.timezone is None ==> exists|local: String| #[trigger]
                is_local_timezone(local) && edit_prompt(thread_id@, goal.deep_view(), local@)
                    == prompt.deep_view(),
            goal.timezone is Some ==> forall|local: Seq<char>| #[trigger]
                edit_prompt(thread_id@, goal.deep_view(), local) == prompt.deep_view(),
    {
        let local = match &goal.timezone {
            Some(_) => String::new(),
            None => local_goal_timezone(),
        };
        goal_edit_prompt(thread_id, goal, local)
    }

    /// The menu that offers to resume a paused goal.
    pub fn show_resume_paused_goal_prompt(&self, thread_id: String, objective: String) -> (view:
        SelectionView)
        ensures
            view.deep_view() == resume_menu(thread_id@, objective@),
    {
        let mut subtitle = "Goal: ".to_owned();
        subtitle.append(objective.as_str());
        let mut items: Vec<SelectionItem> = Vec::new();
        items.push(
            SelectionItem {
                name: "Resume goal".to_owned(),
                description: Some("Mark it active and continue when idle".to_owned()),
                action: Some(StatusChange { thread_id, status: ThreadGoalStatus::Active }),
                dismiss_on_select: true,
            },
        );
        items.push(
            SelectionItem {
                name: "Leave paused".to_owned(),
                description: Some("Keep it paused; use /goal resume later".to_owned()),
                action: None,
                dismiss_on_select: true,
            },
        );
        let view = SelectionView {
            title: Some("Resume paused goal?".to_owned()),
            subtitle: Some(subtitle),
            initial_selected_idx: Some(0),
            items,
        };
        proof {
            assert(view.items.deep_view() =~= resume_menu(thread_id@, objective@).items);
        }
        view
    }

    /// Forgets the goal of the thread on show once it is cleared. Says whether the indicator has
    /// to be drawn anew; the goal of another thread changes nothing.
    pub fn on_thread_goal_cleared(&mut self, thread_id: &str) -> (redraw: bool)
        ensures
            redraw == (old(self).thread_id.deep_view() == Some(thread_id@)),
            final(self).thread_id == old(self).thread_id,
            final(self).current_goal_status == if redraw {
                None
            } else {
                old(self).current_goal_status
            },
    {
        let redraw = match &self.thread_id {
            Some(active) => same_text(active.as_str(), thread_id),
            None => false,
        };
        if redraw {
            self.current_goal_status = None;
        }
        redraw
    }
}

/// The hint names what can be done in each status: pausing is offered to an active goal alone, resuming
/// to one that was stopped, and neither to one that has ended.
pub proof fn lemma_hint_of_each_status()
    ensures
        command_hint(ThreadGoalStatus::Active) == "Commands: /goal edit, /goal pause, /goal clear"@,
        command_hint(ThreadGoalStatus::Paused)
            == "Commands: /goal edit, /goal resume, /goal clear"@,
        command_hint(ThreadGoalStatus::Blocked)
            == "Commands: /goal edit, /goal resume, /goal clear"@,
        command_hint(ThreadGoalStatus::UsageLimited)
            == "Commands: /goal edit, /goal resume, /goal clear"@,
        command_hint(ThreadGoalStatus::BudgetLimited) == "Commands: /goal edit, /goal clear"@,
        command_hint(ThreadGoalStatus::Complete) == "Commands: /goal edit, /goal clear"@,
{
}

/// Editing makes a goal active that has ended, and leaves every other goal as it is. Editing twice
/// changes nothing more.
pub proof fn lemma_edit_wakes_ended_goals(status: ThreadGoalStatus)
    ensures
        status is BudgetLimited || status is Complete ==> status_after_edit(status)
            == ThreadGoalStatus::Active,
        !(status is BudgetLimited) && !(status is Complete) ==> status_after_edit(status) == status,
        status_after_edit(status_after_edit(status)) == status_after_edit(status),
{
}

/// A stage that is late shows by how much, whatever is said to remain; any other shows what remains.
pub proof fn lemma_late_or_remaining(remaining: int, overdue: int)
    ensures
        overdue > 0 ==> stage_remaining_text(remaining, overdue) == "overdue by "@ + elapsed_text(
            overdue,
        ),
        overdue <= 0 ==> stage_remaining_text(remaining, overdue) == elapsed_text(remaining)
            + " remaining"@,
{
}

/// A stage shows its label, its deadline and its result; a deadline outside of the calendar is called
/// invalid; what was delivered follows where there is something.
pub proof fn lemma_stage_entry_parts(stage: StageModel)
    ensures
        utc_minute_text(stage.deadline_at) matches Some(due) && stage.delivered_artifact is None
            ==> stage_entry(stage) == "  "@ + stage.label + " ["@ + utc_minute_text(
            stage.deadline_at,
        )->0 + "] — "@ + stage.expected_result,
        utc_minute_text(stage.deadline_at) is None && stage.delivered_artifact is None
            ==> stage_entry(stage) == "  "@ + stage.label + " [invalid deadline] — "@
            + stage.expected_result,
        stage.delivered_artifact matches Some(artifact) ==> stage_entry(stage) == stage_entry(
            StageModel { delivered_artifact: None, ..stage },
        ) + "; result: "@ + artifact,
{
    let plain = StageModel { delivered_artifact: None, ..stage };
    let due = match utc_minute_text(stage.deadline_at) {
        Some(text) => text,
        None => "invalid deadline"@,
    };
    let head = "  "@ + stage.label + " ["@ + due + "] — "@ + stage.expected_result;
    assert(head + Seq::<char>::empty() =~= head);
    assert(stage_entry(plain) =~= head);
    reveal_strlit(" [");
    reveal_strlit("invalid deadline");
    reveal_strlit("] — ");
    reveal_strlit(" [invalid deadline] — ");
    assert(" ["@ + "invalid deadline"@ + "] — "@ =~= " [invalid deadline] — "@);
    if utc_minute_text(stage.deadline_at) is None {
        assert(head =~= "  "@ + stage.label + (" ["@ + "invalid deadline"@ + "] — "@)
            + stage.expected_result);
    }
    if let Some(artifact) = stage.delivered_artifact {
        assert(stage_entry(stage) =~= head + "; result: "@ + artifact);
    }
}

/// A summary lists every stage, each in its own place.
pub proof fn lemma_every_stage_is_listed(stages: Seq<StageModel>, count: nat)
    requires
        count <= stages.len(),
    ensures
        stage_entries(stages, count).len() == count,
        forall|i: int|
            0 <= i < count ==> #[trigger] stage_entries(stages, count)[i] == seq![
                SpanModel { text: stage_entry(stages[i]), style: SpanStyle::Plain },
            ],
    decreases count,
{
    if count > 0 {
        lemma_every_stage_is_listed(stages, (count - 1) as nat);
        let before = stage_entries(stages, (count - 1) as nat);
        assert forall|i: int| 0 <= i < count implies #[trigger] stage_entries(stages, count)[i]
            == seq![SpanModel { text: stage_entry(stages[i]), style: SpanStyle::Plain }] by {
            if i < count - 1 {
                assert(stage_entries(stages, count)[i] == before[i]);
            }
        }
    }
}

/// A summary starts with the title, the status, the objective, the time and the tokens.
pub proof fn lemma_summary_starts(
    goal: GoalModel,
    now: i64,
    tokens_used: Seq<char>,
    token_budget: Option<Seq<char>>,
)
    ensures
        ({
            let lines = summary_text(goal, now, tokens_used, token_budget);
            &&& lines.len() >= 7
            &&& lines[0] == seq![SpanModel { text: "Goal"@, style: SpanStyle::Bold }]
            &&& lines[1] == seq![
                SpanModel { text: "Status: "@, style: SpanStyle::Dim },
                SpanModel { text: status_label(goal.status), style: SpanStyle::Plain },
            ]
            &&& lines[2] == seq![
                SpanModel { text: "Objective: "@, style: SpanStyle::Dim },
                SpanModel { text: goal.objective, style: SpanStyle::Plain },
            ]
            &&& lines[3] == seq![
                SpanModel { text: "Time used: "@, style: SpanStyle::Dim },
                SpanModel {
                    text: elapsed_text(goal.time_used_seconds as int),
                    style: SpanStyle::Plain,
                },
            ]
            &&& lines[4] == seq![
                SpanModel { text: "Tokens used: "@, style: SpanStyle::Dim },
                SpanModel { text: tokens_used, style: SpanStyle::Plain },
            ]
        }),
{
}

/// A summary ends with an empty line and the hint, behind what it shows of the schedule. The budget
/// and the timezone stand between the tokens and the schedule, each where there is one.
pub proof fn lemma_summary_order(
    goal: GoalModel,
    now: i64,
    tokens_used: Seq<char>,
    budget: Seq<char>,
    zone: Seq<char>,
)
    ensures
        ({
            let none = GoalModel { timezone: None, ..goal };
            let zoned = GoalModel { timezone: Some(zone), ..goal };
            let bare = summary_text(none, now, tokens_used, None);
            let budget_line = seq![
                SpanModel { text: "Token budget: "@, style: SpanStyle::Dim },
                SpanModel { text: budget, style: SpanStyle::Plain },
            ];
            let zone_line = seq![
                SpanModel { text: "Timezone: "@, style: SpanStyle::Dim },
                SpanModel { text: zone, style: SpanStyle::Plain },
            ];
            &&& bare.last() == seq![
                SpanModel { text: command_hint(goal.status), style: SpanStyle::Dim },
            ]
            &&& bare[bare.len() - 2] == Seq::<SpanModel>::empty()
            &&& summary_text(none, now, tokens_used, Some(budget)) == bare.insert(5, budget_line)
            &&& summary_text(zoned, now, tokens_used, None) == bare.insert(5, zone_line)
            &&& summary_text(zoned, now, tokens_used, Some(budget)) == bare.insert(
                5,
                zone_line,
            ).insert(5, budget_line)
            &&& goal.stages.len() == 0 ==> bare.len() == 7
        }),
{
    let none = GoalModel { timezone: None, ..goal };
    let zoned = GoalModel { timezone: Some(zone), ..goal };
    let bare = summary_text(none, now, tokens_used, None);
    let budget_line = seq![
        SpanModel { text: "Token budget: "@, style: SpanStyle::Dim },
        SpanModel { text: budget, style: SpanStyle::Plain },
    ];
    let zone_line = seq![
        SpanModel { text: "Timezone: "@, style: SpanStyle::Dim },
        SpanModel { text: zone, style: SpanStyle::Plain },
    ];
    assert(current_line(none, now) == current_line(zoned, now));
    assert(final_line(none, now) == final_line(zoned, now));
    assert(summary_schedule(none, now) == summary_schedule(zoned, now));
    assert(summary_text(none, now, tokens_used, Some(budget)) =~= bare.insert(5, budget_line));
    assert(summary_text(zoned, now, tokens_used, None) =~= bare.insert(5, zone_line));
    assert(summary_text(zoned, now, tokens_used, Some(budget)) =~= bare.insert(
        5,
        zone_line,
    ).insert(5, budget_line));
}

/// What a summary shows of the schedule: a title, a line for each stage, one for the current stage and
/// one for the final deadline, each of these two where there is one.
pub proof fn lemma_schedule_lines(goal: GoalModel, now: i64)
    ensures
        goal.stages.len() == 0 ==> summary_schedule(goal, now).len() == 0,
        goal.stages.len() > 0 ==> ({
            let lines = summary_schedule(goal, now);
            let facts = execution_facts(goal, now);
            let current: Seq<Seq<SpanModel>> = match facts.current_stage {
                Some(stage) => seq![
                    seq![
                        SpanModel {
                            text: "  Current: "@ + stage.label + " — "@ + stage_remaining_text(
                                stage.remaining_seconds as int,
                                stage.overdue_seconds as int,
                            ),
                            style: SpanStyle::Plain,
                        },
                    ],
                ],
                None => Seq::empty(),
            };
            let last: Seq<Seq<SpanModel>> = match facts.final_deadline_at {
                Some(due) => seq![
                    seq![
                        SpanModel {
                            text: "  Final: "@ + integer_text(due as int) + " — "@
                                + stage_remaining_text(
                                facts.final_deadline_remaining_seconds->0 as int,
                                facts.final_deadline_overdue_seconds->0 as int,
                            ),
                            style: SpanStyle::Plain,
                        },
                    ],
                ],
                None => Seq::empty(),
            };
            &&& lines[0] == seq![SpanModel { text: "Stages"@, style: SpanStyle::Bold }]
            &&& lines.skip((1 + goal.stages.len()) as int) == current + last
            &&& forall|i: int|
                0 <= i < goal.stages.len() ==> #[trigger] lines[1 + i] == seq![
                    SpanModel { text: stage_entry(goal.stages[i]), style: SpanStyle::Plain },
                ]
        }),
{
    if goal.stages.len() > 0 {
        lemma_every_stage_is_listed(goal.stages, goal.stages.len());
        let lines = summary_schedule(goal, now);
        let entries = stage_entries(goal.stages, goal.stages.len());
        assert forall|i: int| 0 <= i < goal.stages.len() implies #[trigger] lines[1 + i] == seq![
            SpanModel { text: stage_entry(goal.stages[i]), style: SpanStyle::Plain },
        ] by {
            assert(lines[1 + i] == entries[i]);
        }
        assert(lines.skip((1 + goal.stages.len()) as int) =~= current_line(goal, now) + final_line(
            goal,
            now,
        ));
    }
}

/// The prompt keeps the thread, the budget, the timezone and the stages of the goal, and shows the
/// timezone of the goal before that of the machine.
pub proof fn lemma_prompt_keeps_the_goal(thread_id: Seq<char>, goal: GoalModel, local: Seq<char>)
    ensures
        ({
            let prompt = edit_prompt(thread_id, goal, local);
            &&& prompt.title == "Edit goal"@
            &&& prompt.placeholder == "Type a goal objective and press Enter"@
            &&& prompt.context_label is None
            &&& prompt.thread_id == thread_id
            &&& prompt.token_budget == goal.token_budget
            &&& prompt.timezone == goal.timezone
            &&& prompt.stages == goal.stages
            &&& goal.status is BudgetLimited || goal.status is Complete ==> prompt.status
                == ThreadGoalStatus::Active
            &&& !(goal.status is BudgetLimited) && !(goal.status is Complete) ==> prompt.status
                == goal.status
            &&& goal.timezone matches Some(named) ==> prompt.initial_text == editor_text(
                goal.objective,
                named,
                goal.stages,
            )
            &&& goal.timezone is None ==> prompt.initial_text == editor_text(
                goal.objective,
                local,
                goal.stages,
            )
        }),
{
}

/// What is entered in the prompt of a goal asks for a change of that goal: the text entered, with the
/// budget, the timezone and the stages that the goal had.
pub proof fn lemma_submission_is_of_the_goal(
    thread_id: Seq<char>,
    goal: GoalModel,
    local: Seq<char>,
    text: Seq<char>,
)
    ensures
        ({
            let edit = submitted(edit_prompt(thread_id, goal, local), text);
            &&& edit.thread_id == thread_id
            &&& edit.draft.objective == text
            &&& edit.draft.schedule_editor_text == Some(text)
            &&& edit.draft.timezone == goal.timezone
            &&& edit.draft.stages == Some(goal.stages)
            &&& edit.token_budget == goal.token_budget
            &&& edit.status == if goal.status is BudgetLimited || goal.status is Complete {
                ThreadGoalStatus::Active
            } else {
                goal.status
            }
        }),
{
}

/// The menu offers first to make the goal of the thread active, and then to do nothing; either choice
/// closes it.
pub proof fn lemma_resume_menu_offers(thread_id: Seq<char>, objective: Seq<char>)
    ensures
        ({
            let menu = resume_menu(thread_id, objective);
            &&& menu.title == Some("Resume paused goal?"@)
            &&& menu.subtitle == Some("Goal: "@ + objective)
            &&& menu.initial_selected_idx == Some(0usize)
            &&& menu.items.len() == 2
            &&& menu.items[0].name == "Resume goal"@
            &&& menu.items[0].description == Some("Mark it active and continue when idle"@)
            &&& menu.items[0].action == Some((thread_id, ThreadGoalStatus::Active))
            &&& menu.items[0].dismiss_on_select
            &&& menu.items[1].name == "Leave paused"@
            &&& menu.items[1].description == Some("Keep it paused; use /goal resume later"@)
            &&& menu.items[1].action is None
            &&& menu.items[1].dismiss_on_select
        }),
{
}

} // verus!

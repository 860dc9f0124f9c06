//! The text form in which a user edits a goal: its objective and its schedule.

use crate::calendar::{
    in_four_digit_years, is_instant_char, is_local_timezone, local_goal_timezone, parse_rfc3339,
    reads_as, render_utc_offset, rfc3339_seconds, utc_offset_text,
};
use crate::lists::{
    first_where, lemma_first_where, lemma_first_where_skip, lemma_push_deep_view, models,
};
use crate::protocol::{StageModel, ThreadGoalStage};
use crate::text::{
    chars_of, copy_range, find_chars, find_from, has_prefix, integer_text, is_space, is_whitespace,
    lemma_found_first,
    occurs_at, pieces_view, signed_text, split_chars, split_on, starts_with, text_of, trim,
    trim_chars, trim_start, trimmed,
};
use vstd::prelude::*;

verus! {

/// The line between the objective and the schedule.
pub const SCHEDULE_MARKER: &'static str = "\n--- schedule ---\n";

/// Why a schedule cannot be read.
#[derive(Debug, PartialEq, Eq)]
pub enum GoalEditorError {
    /// A timezone line names no timezone.
    EmptyTimezone,
    /// A line is neither a timezone nor a stage.
    UnknownLine(String),
    /// A stage line does not have four fields, or has an empty one.
    StageShape,
    /// The id of a stage holds white space.
    StageIdWhitespace(String),
    /// The id of a stage was used before.
    DuplicateStageId(String),
    /// The deadline of a stage is no RFC 3339 instant; the message says why.
    Deadline(String),
}

/// What a reading error stands for.
pub enum EditorErrorModel {
    EmptyTimezone,
    UnknownLine(Seq<char>),
    StageShape,
    StageIdWhitespace(Seq<char>),
    DuplicateStageId(Seq<char>),
    Deadline(Seq<char>),
}

impl DeepView for GoalEditorError {
    type V = EditorErrorModel;

    open spec fn deep_view(&self) -> EditorErrorModel {
        match self {
            GoalEditorError::EmptyTimezone => EditorErrorModel::EmptyTimezone,
            GoalEditorError::UnknownLine(line) => EditorErrorModel::UnknownLine(line@),
            GoalEditorError::StageShape => EditorErrorModel::StageShape,
            GoalEditorError::StageIdWhitespace(id) => EditorErrorModel::StageIdWhitespace(id@),
            GoalEditorError::DuplicateStageId(id) => EditorErrorModel::DuplicateStageId(id@),
            GoalEditorError::Deadline(message) => EditorErrorModel::Deadline(message@),
        }
    }
}

impl EditorErrorModel {
    /// The sentence that tells a user of the error.
    pub open spec fn message(self) -> Seq<char> {
        match self {
            EditorErrorModel::EmptyTimezone => "Goal timezone must not be empty."@,
            EditorErrorModel::UnknownLine(line) => "Unknown schedule line: "@ + line,
            EditorErrorModel::StageShape =>
            "Each stage must use: stage: id | label | expected result | RFC3339 deadline"@,
            EditorErrorModel::StageIdWhitespace(id) => "Stage ids must not contain whitespace: "@
                + id,
            EditorErrorModel::DuplicateStageId(id) => "Stage ids must be unique: "@ + id,
            EditorErrorModel::Deadline(message) => message,
        }
    }
}

impl GoalEditorError {
    /// The sentence that tells a user of the error.
    pub fn message(&self) -> (text: String)
        ensures
            text@ == self.deep_view().message(),
    {
        match self {
            GoalEditorError::EmptyTimezone => "Goal timezone must not be empty.".to_owned(),
            GoalEditorError::UnknownLine(line) => {
                let mut text = "Unknown schedule line: ".to_owned();
                text.append(line.as_str());
                text
            },
            GoalEditorError::StageShape =>
            "Each stage must use: stage: id | label | expected result | RFC3339 deadline".to_owned(),
            GoalEditorError::StageIdWhitespace(id) => {
                let mut text = "Stage ids must not contain whitespace: ".to_owned();
                text.append(id.as_str());
                text
            },
            GoalEditorError::DuplicateStageId(id) => {
                let mut text = "Stage ids must be unique: ".to_owned();
                text.append(id.as_str());
                text
            },
            GoalEditorError::Deadline(message) => message.clone(),
        }
    }
}

/// A deadline as the editor shows it: the instant in RFC 3339, or the bare number of seconds.
pub open spec fn deadline_field(at: i64) -> Seq<char> {
    match utc_offset_text(at) {
        Some(text) => text,
        None => integer_text(at as int),
    }
}

/// The line of a stage, without its end.
pub open spec fn stage_line(stage: StageModel) -> Seq<char> {
    "stage: "@ + stage.id + " | "@ + stage.label + " | "@ + stage.expected_result + " | "@
        + deadline_field(stage.deadline_at)
}

/// The lines of the first `count` stages.
pub open spec fn stage_lines(stages: Seq<StageModel>, count: nat) -> Seq<char>
    decreases count,
{
    if count == 0 {
        Seq::empty()
    } else {
        stage_lines(stages, (count - 1) as nat) + (stage_line(stages[count - 1]) + "\n"@)
    }
}

/// The schedule of a goal as the editor shows it.
pub open spec fn schedule_text(timezone: Seq<char>, stages: Seq<StageModel>) -> Seq<char> {
    "timezone: "@ + timezone + "\n"@ + stage_lines(stages, stages.len())
}

/// A goal as the editor shows it.
pub open spec fn editor_text(
    objective: Seq<char>,
    timezone: Seq<char>,
    stages: Seq<StageModel>,
) -> Seq<char> {
    objective + SCHEDULE_MARKER@ + schedule_text(timezone, stages)
}

fn line_of_stage(stage: &ThreadGoalStage) -> (line: String)
    ensures
        line@ == stage_line(stage.deep_view()) + "\n"@,
        reads_back(stage.deadline_at),
{
    let mut line = "stage: ".to_owned();
    line.append(stage.id.as_str());
    line.append(" | ");
    line.append(stage.label.as_str());
    line.append(" | ");
    line.append(stage.expected_result.as_str());
    line.append(" | ");
    match render_utc_offset(stage.deadline_at) {
        Some(text) => line.append(text.as_str()),
        None => line.append(signed_text(stage.deadline_at).as_str()),
    }
    line.append("\n");
    line
}

/// The text in which a goal is edited, with its timezone given. A goal that can be told from its
/// text is read back from it whole.
pub fn editor_text_in(objective: &str, timezone: &str, stages: &Vec<ThreadGoalStage>) -> (text:
    String)
    ensures
        text@ == editor_text(objective@, timezone@, stages.deep_view()),
        is_editable_objective(objective@) && is_editable_schedule(timezone@, stages.deep_view())
            ==> forall|fallback: Option<Seq<char>>| #[trigger]
            reads_as_goal(text@, fallback, objective@, timezone@, stages.deep_view()),
{
    let mut schedule = "timezone: ".to_owned();
    schedule.append(timezone);
    schedule.append("\n");
    let ghost head = schedule@;
    let mut i: usize = 0;
    proof {
        assert(head + Seq::<char>::empty() =~= head);
    }
    while i < stages.len()
        invariant
            i <= stages@.len(),
            schedule@ == head + stage_lines(stages.deep_view(), i as nat),
            forall|j: int|
                0 <= j < i ==> reads_back((#[trigger] stages.deep_view()[j]).deadline_at),
        decreases stages@.len() - i,
    {
        let line = line_of_stage(&stages[i]);
        schedule.append(line.as_str());
        proof {
            let lines = stage_lines(stages.deep_view(), i as nat);
            assert(head + lines + line@ =~= head + (lines + line@));
        }
        i = i + 1;
    }
    let mut text = objective.to_owned();
    text.append(SCHEDULE_MARKER);
    text.append(schedule.as_str());
    proof {
        if is_editable_objective(objective@) && is_editable_schedule(
            timezone@,
            stages.deep_view(),
        ) {
            assert forall|fallback: Option<Seq<char>>| #[trigger]
                reads_as_goal(text@, fallback, objective@, timezone@, stages.deep_view()) by {
                lemma_editor_round_trip(objective@, timezone@, stages.deep_view(), fallback);
            }
        }
    }
    text
}

/// The text in which a goal is edited. A goal without a timezone shows the one of this machine.
pub fn format_goal_editor_text(
    objective: &str,
    timezone: Option<&String>,
    stages: &Vec<ThreadGoalStage>,
) -> (text: String)
    ensures
        match timezone {
            Some(named) => {
                &&& text@ == editor_text(objective@, named@, stages.deep_view())
                &&& is_editable_objective(objective@) && is_editable_schedule(
                    named@,
                    stages.deep_view(),
                ) ==> forall|fallback: Option<Seq<char>>| #[trigger]
                    reads_as_goal(text@, fallback, objective@, named@, stages.deep_view())
            },
            None => exists|local: String| #[trigger]
                is_local_timezone(local) && text@ == editor_text(
                    objective@,
                    local@,
                    stages.deep_view(),
                ),
        },
{
    let chosen = match timezone {
        Some(named) => named.clone(),
        None => local_goal_timezone(),
    };
    editor_text_in(objective, chosen.as_str(), stages)
}

/// What has been read of a schedule: its timezone and its stages.
pub struct ScheduleModel {
    pub timezone: Option<Seq<char>>,
    pub stages: Seq<StageModel>,
}

/// The fields of a stage line, without the white space around them.
pub open spec fn stage_fields(value: Seq<char>) -> Seq<Seq<char>> {
    split_on(value, '|').map_values(|field: Seq<char>| trimmed(field))
}

/// Whether a text holds white space.
pub open spec fn has_space(text: Seq<char>) -> bool {
    exists|i: int| 0 <= i < text.len() && is_space(#[trigger] text[i])
}

/// Whether a stage has the id `id`.
pub open spec fn with_id(id: Seq<char>) -> spec_fn(StageModel) -> bool {
    |stage: StageModel| stage.id == id
}

/// Whether some stage has the id `id`.
pub open spec fn has_id(stages: Seq<StageModel>, id: Seq<char>) -> bool {
    exists|i: int| 0 <= i < stages.len() && (#[trigger] stages[i]).id == id
}

/// A stage as it was edited, with what is on record for its id: a delivered stage stays as it was
/// delivered, and another keeps its artifact.
pub open spec fn with_delivery(stage: StageModel, previous: Seq<StageModel>) -> StageModel {
    match first_where(previous, with_id(stage.id)) {
        Some(before) => if before.delivered_at is Some {
            before
        } else {
            StageModel { delivered_artifact: before.delivered_artifact, ..stage }
        },
        None => stage,
    }
}

/// The stage that a stage line gives after `stages`.
pub open spec fn read_stage(
    value: Seq<char>,
    stages: Seq<StageModel>,
    previous: Seq<StageModel>,
) -> Result<StageModel, EditorErrorModel> {
    let fields = stage_fields(value);
    if fields.len() != 4 || exists|i: int|
        0 <= i < fields.len() && (#[trigger] fields[i]).len() == 0 {
        Err(EditorErrorModel::StageShape)
    } else if has_space(fields[0]) {
        Err(EditorErrorModel::StageIdWhitespace(fields[0]))
    } else if has_id(stages, fields[0]) {
        Err(EditorErrorModel::DuplicateStageId(fields[0]))
    } else {
        match rfc3339_seconds(fields[3]) {
            Ok(at) => Ok(
                with_delivery(
                    StageModel {
                        id: fields[0],
                        label: fields[1],
                        expected_result: fields[2],
                        deadline_at: at,
                        delivered_at: None,
                        delivered_artifact: None,
                    },
                    previous,
                ),
            ),
            Err(message) => Err(EditorErrorModel::Deadline(message)),
        }
    }
}

/// What a line that is not blank adds to what was read before.
pub open spec fn read_line(
    line: Seq<char>,
    read: ScheduleModel,
    previous: Seq<StageModel>,
) -> Result<ScheduleModel, EditorErrorModel> {
    if has_prefix(line, "timezone:"@) {
        let value = trimmed(line.skip("timezone:"@.len() as int));
        if value.len() == 0 {
            Err(EditorErrorModel::EmptyTimezone)
        } else {
            Ok(ScheduleModel { timezone: Some(value), ..read })
        }
    } else if has_prefix(line, "stage:"@) {
        match read_stage(line.skip("stage:"@.len() as int), read.stages, previous) {
            Ok(stage) => Ok(ScheduleModel { stages: read.stages.push(stage), ..read }),
            Err(error) => Err(error),
        }
    } else {
        Err(EditorErrorModel::UnknownLine(line))
    }
}

/// What lines add to what was read before. White space around a line does not count, and a blank
/// line adds nothing.
pub open spec fn read_lines(
    lines: Seq<Seq<char>>,
    read: ScheduleModel,
    previous: Seq<StageModel>,
) -> Result<ScheduleModel, EditorErrorModel>
    decreases lines.len(),
{
    if lines.len() == 0 {
        Ok(read)
    } else {
        let line = trimmed(lines[0]);
        if line.len() == 0 {
            read_lines(lines.drop_first(), read, previous)
        } else {
            match read_line(line, read, previous) {
                Ok(more) => read_lines(lines.drop_first(), more, previous),
                Err(error) => Err(error),
            }
        }
    }
}

/// A schedule of which nothing has been read.
pub open spec fn blank_schedule() -> ScheduleModel {
    ScheduleModel { timezone: None, stages: Seq::empty() }
}

/// What an edited text says: the objective before the first marker, and the schedule after it. A
/// text without a marker is an objective alone and leaves the schedule as it was.
pub open spec fn parsed_text(
    text: Seq<char>,
    timezone: Option<Seq<char>>,
    stages: Seq<StageModel>,
) -> Result<(Seq<char>, Option<Seq<char>>, Seq<StageModel>), EditorErrorModel> {
    match find_from(text, SCHEDULE_MARKER@, 0) {
        None => Ok((trimmed(text), timezone, stages)),
        Some(at) => {
            let schedule = text.skip(at + SCHEDULE_MARKER@.len());
            match read_lines(split_on(schedule, '\n'), blank_schedule(), stages) {
                Ok(read) => Ok((trimmed(text.take(at)), read.timezone, read.stages)),
                Err(error) => Err(error),
            }
        },
    }
}

fn holds_space(chars: &Vec<char>) -> (found: bool)
    ensures
        found == has_space(chars@),
{
    let mut i: usize = 0;
    while i < chars.len()
        invariant
            i <= chars@.len(),
            forall|j: int| 0 <= j < i ==> !is_space(#[trigger] chars@[j]),
        decreases chars@.len() - i,
    {
        if is_whitespace(chars[i]) {
            return true;
        }
        i = i + 1;
    }
    false
}

/// The fields of a stage line, without the white space around them.
fn fields_of(value: &Vec<char>) -> (fields: Vec<Vec<char>>)
    ensures
        pieces_view(fields@) == stage_fields(value@),
        fields@.len() == stage_fields(value@).len(),
{
    let pieces = split_chars(value, '|');
    let mut fields: Vec<Vec<char>> = Vec::new();
    let mut i: usize = 0;
    while i < pieces.len()
        invariant
            i <= pieces@.len(),
            fields@.len() == i,
            pieces_view(pieces@) == split_on(value@, '|'),
            forall|j: int|
                0 <= j < i ==> (#[trigger] fields@[j])@ == trimmed(pieces_view(pieces@)[j]),
        decreases pieces@.len() - i,
    {
        fields.push(trim_chars(&pieces[i]));
        i = i + 1;
    }
    proof {
        assert(pieces_view(fields@) =~= stage_fields(value@));
    }
    fields
}

/// The index of the first stage with an id.
fn find_stage(stages: &Vec<ThreadGoalStage>, id: &String) -> (found: Option<usize>)
    ensures
        match found {
            Some(i) => i < stages@.len() && first_where(stages.deep_view(), with_id(id@)) == Some(
                stages@[i as int].deep_view(),
            ) && has_id(stages.deep_view(), id@),
            None => first_where(stages.deep_view(), with_id(id@)) is None && !has_id(
                stages.deep_view(),
                id@,
            ),
        },
{
    let ghost all = stages.deep_view();
    let mut i: usize = 0;
    proof {
        assert(all.skip(0) =~= all);
    }
    while i < stages.len()
        invariant
            i <= stages@.len(),
            all == stages.deep_view(),
            first_where(all, with_id(id@)) == first_where(all.skip(i as int), with_id(id@)),
            forall|j: int| 0 <= j < i ==> (#[trigger] all[j]).id != id@,
        decreases stages@.len() - i,
    {
        proof {
            lemma_first_where_skip(all, with_id(id@), i as int);
        }
        if stages[i].id == *id {
            proof {
                assert(all[i as int].id == id@);
            }
            return Some(i);
        }
        i = i + 1;
    }
    None
}

fn any_empty(fields: &Vec<Vec<char>>) -> (found: bool)
    ensures
        found == exists|i: int|
            0 <= i < fields@.len() && (#[trigger] pieces_view(fields@)[i]).len() == 0,
{
    let mut i: usize = 0;
    while i < fields.len()
        invariant
            i <= fields@.len(),
            forall|j: int| 0 <= j < i ==> (#[trigger] pieces_view(fields@)[j]).len() != 0,
        decreases fields@.len() - i,
    {
        if fields[i].len() == 0 {
            proof {
                assert(pieces_view(fields@)[i as int].len() == 0);
            }
            return true;
        }
        i = i + 1;
    }
    false
}

/// The stage that a stage line gives after `stages`.
fn stage_of(
    value: &Vec<char>,
    stages: &Vec<ThreadGoalStage>,
    previous: &Vec<ThreadGoalStage>,
) -> (stage: Result<ThreadGoalStage, GoalEditorError>)
    ensures
        match stage {
            Ok(read) => read_stage(value@, stages.deep_view(), previous.deep_view()) == Ok::<
                StageModel,
                EditorErrorModel,
            >(read.deep_view()),
            Err(error) => read_stage(value@, stages.deep_view(), previous.deep_view()) == Err::<
                StageModel,
                EditorErrorModel,
            >(error.deep_view()),
        },
{
    let fields = fields_of(value);
    let ghost views = stage_fields(value@);
    if fields.len() != 4 || any_empty(&fields) {
        return Err(GoalEditorError::StageShape);
    }
    proof {
        assert(forall|i: int|
            0 <= i < 4 ==> #[trigger] views[i] == fields@[i]@);
    }
    let id = text_of(&fields[0]);
    if holds_space(&fields[0]) {
        return Err(GoalEditorError::StageIdWhitespace(id));
    }
    if find_stage(stages, &id).is_some() {
        return Err(GoalEditorError::DuplicateStageId(id));
    }
    let deadline_at = match parse_rfc3339(text_of(&fields[3]).as_str()) {
        Ok(at) => at,
        Err(message) => {
            return Err(GoalEditorError::Deadline(message));
        },
    };
    let mut delivered_artifact: Option<String> = None;
    match find_stage(previous, &id) {
        Some(i) => {
            let before = &previous[i];
            if before.delivered_at.is_some() {
                return Ok(before.clone());
            }
            delivered_artifact = before.delivered_artifact.clone();
        },
        None => {},
    }
    Ok(
        ThreadGoalStage {
            id,
            label: text_of(&fields[1]),
            expected_result: text_of(&fields[2]),
            deadline_at,
            delivered_at: None,
            delivered_artifact,
        },
    )
}

/// A schedule as it is read.
struct Schedule {
    timezone: Option<String>,
    stages: Vec<ThreadGoalStage>,
}

impl DeepView for Schedule {
    type V = ScheduleModel;

    closed spec fn deep_view(&self) -> ScheduleModel {
        ScheduleModel { timezone: self.timezone.deep_view(), stages: self.stages.deep_view() }
    }
}

/// Reads a line that is not blank.
fn add_line(line: &Vec<char>, read: &mut Schedule, previous: &Vec<ThreadGoalStage>) -> (outcome:
    Result<(), GoalEditorError>)
    ensures
        match outcome {
            Ok(_) => read_line(line@, old(read).deep_view(), previous.deep_view()) == Ok::<
                ScheduleModel,
                EditorErrorModel,
            >(final(read).deep_view()),
            Err(error) => read_line(line@, old(read).deep_view(), previous.deep_view()) == Err::<
                ScheduleModel,
                EditorErrorModel,
            >(error.deep_view()),
        },
{
    let timezone_prefix = chars_of("timezone:");
    let stage_prefix = chars_of("stage:");
    if starts_with(line, &timezone_prefix) {
        let value = trim_chars(&copy_range(line, timezone_prefix.len(), line.len()));
        proof {
            let from = "timezone:"@.len() as int;
            assert(line@.subrange(from, line@.len() as int) =~= line@.skip(from));
        }
        if value.len() == 0 {
            return Err(GoalEditorError::EmptyTimezone);
        }
        read.timezone = Some(text_of(&value));
        return Ok(());
    }
    if !starts_with(line, &stage_prefix) {
        return Err(GoalEditorError::UnknownLine(text_of(line)));
    }
    let value = copy_range(line, stage_prefix.len(), line.len());
    proof {
        let from = "stage:"@.len() as int;
        assert(line@.subrange(from, line@.len() as int) =~= line@.skip(from));
    }
    let ghost before = read.stages@;
    match stage_of(&value, &read.stages, previous) {
        Ok(stage) => {
            read.stages.push(stage);
            proof {
                lemma_push_deep_view(before, read.stages, stage);
                assert(models(before) =~= old(read).stages.deep_view());
            }
            Ok(())
        },
        Err(error) => Err(error),
    }
}

/// Reads an edited text. A text without a schedule keeps the one that is on record; one with a
/// schedule replaces it, but a delivered stage stays as it was delivered.
pub fn parse_goal_editor_text(
    text: &str,
    fallback_timezone: Option<String>,
    fallback_stages: Vec<ThreadGoalStage>,
) -> (parsed: Result<(String, Option<String>, Vec<ThreadGoalStage>), GoalEditorError>)
    ensures
        match parsed {
            Ok(goal) => parsed_text(
                text@,
                fallback_timezone.deep_view(),
                fallback_stages.deep_view(),
            ) == Ok::<(Seq<char>, Option<Seq<char>>, Seq<StageModel>), EditorErrorModel>(
                goal.deep_view(),
            ),
            Err(error) => parsed_text(
                text@,
                fallback_timezone.deep_view(),
                fallback_stages.deep_view(),
            ) == Err::<(Seq<char>, Option<Seq<char>>, Seq<StageModel>), EditorErrorModel>(
                error.deep_view(),
            ),
        },
{
    let chars = chars_of(text);
    let marker = chars_of(SCHEDULE_MARKER);
    let at = match find_chars(&chars, &marker) {
        Some(at) => at,
        None => {
            return Ok((trim(text), fallback_timezone, fallback_stages));
        },
    };
    let total: usize = chars.len();
    let from: usize = at + marker.len();
    let lines = split_chars(&copy_range(&chars, from, total), '\n');
    let ghost all = pieces_view(lines@);
    let ghost previous = fallback_stages.deep_view();
    let mut read = Schedule { timezone: None, stages: Vec::new() };
    let ghost whole = read_lines(all, blank_schedule(), previous);
    proof {
        assert(chars@.subrange(from as int, chars@.len() as int) =~= chars@.skip(from as int));
        assert(read.deep_view().stages =~= Seq::empty());
        assert(all.skip(0) =~= all);
    }
    let mut i: usize = 0;
    while i < lines.len()
        invariant
            i <= lines@.len(),
            all == pieces_view(lines@),
            previous == fallback_stages.deep_view(),
            whole == read_lines(all.skip(i as int), read.deep_view(), previous),
            from <= chars@.len(),
            chars@ == text@,
            find_from(text@, SCHEDULE_MARKER@, 0) == Some(at as int),
            from == at + SCHEDULE_MARKER@.len(),
            all == split_on(text@.skip(from as int), '\n'),
            whole == read_lines(all, blank_schedule(), previous),
        decreases lines@.len() - i,
    {
        proof {
            assert(all.skip(i as int).drop_first() =~= all.skip(i + 1));
            assert(all.skip(i as int)[0] == lines@[i as int]@);
        }
        let line = trim_chars(&lines[i]);
        if line.len() > 0 {
            match add_line(&line, &mut read, &fallback_stages) {
                Ok(_) => {},
                Err(error) => {
                    return Err(error);
                },
            }
        }
        i = i + 1;
    }
    let objective = text_of(&trim_chars(&copy_range(&chars, 0, at)));
    proof {
        assert(chars@.subrange(0, at as int) =~= text@.take(at as int));
    }
    Ok((objective, read.timezone, read.stages))
}

/// A part that stands first in a text stands there whatever follows the text.
proof fn lemma_find_in_longer(s: Seq<char>, rest: Seq<char>, part: Seq<char>, from: int)
    requires
        0 <= from,
        find_from(s, part, from) is Some,
    ensures
        find_from(s + rest, part, from) == find_from(s, part, from),
    decreases s.len() + 1 - from,
{
    assert((s + rest).subrange(from, from + part.len()) =~= s.subrange(from, from + part.len()));
    if !occurs_at(s, part, from) {
        lemma_find_in_longer(s, rest, part, from + 1);
    }
}

/// A piece without the separator ends the last, empty piece before it.
proof fn lemma_split_piece(s: Seq<char>, pieces: Seq<Seq<char>>, piece: Seq<char>, sep: char)
    requires
        split_on(s, sep) == pieces.push(Seq::empty()),
        !piece.contains(sep),
    ensures
        split_on(s + piece, sep) == pieces.push(piece),
    decreases piece.len(),
{
    if piece.len() == 0 {
        assert(s + piece =~= s);
        assert(piece =~= Seq::empty());
    } else {
        let head = piece.drop_last();
        assert forall|i: int| 0 <= i < head.len() implies #[trigger] head[i] != sep by {
            assert(head[i] == piece[i]);
        }
        lemma_split_piece(s, pieces, head, sep);
        assert((s + piece).drop_last() =~= s + head);
        assert(piece.contains(piece.last())) by {
            assert(piece[piece.len() - 1] == piece.last());
        }
        assert(pieces.push(head).drop_last() =~= pieces);
        assert(head.push(piece.last()) =~= piece);
    }
}

/// A separator begins an empty piece.
proof fn lemma_split_separator(s: Seq<char>, sep: char)
    ensures
        split_on(s.push(sep), sep) == split_on(s, sep).push(Seq::empty()),
{
    assert(s.push(sep).drop_last() =~= s);
}

/// One more line ends in an empty piece.
proof fn lemma_split_line(s: Seq<char>, pieces: Seq<Seq<char>>, piece: Seq<char>, sep: char)
    requires
        split_on(s, sep) == pieces.push(Seq::empty()),
        !piece.contains(sep),
    ensures
        split_on(s + piece.push(sep), sep) == pieces.push(piece).push(Seq::empty()),
{
    lemma_split_piece(s, pieces, piece, sep);
    lemma_split_separator(s + piece, sep);
    assert(s + piece.push(sep) =~= (s + piece).push(sep));
}

/// A space before a text does not count.
proof fn lemma_trim_leading_space(s: Seq<char>)
    ensures
        trimmed(seq![' '] + s) == trimmed(s),
{
    assert((seq![' '] + s).drop_first() =~= s);
}

/// A space behind a text does not count.
proof fn lemma_trim_trailing_space(s: Seq<char>)
    ensures
        trimmed(s.push(' ')) == trimmed(s),
    decreases s.len(),
{
    let longer = s.push(' ');
    if s.len() == 0 {
        assert(longer.drop_first() =~= s);
        assert(trim_start(longer) == trim_start(s));
    } else if is_space(s[0]) {
        assert(longer.drop_first() =~= s.drop_first().push(' '));
        lemma_trim_trailing_space(s.drop_first());
    } else {
        assert(longer.drop_last() =~= s);
    }
}

/// A text without white space at its ends stays as it is.
proof fn lemma_trim_nothing(s: Seq<char>)
    requires
        bare(s),
    ensures
        trimmed(s) == s,
{
}

/// Whether a text is not empty and has no white space at its ends.
pub open spec fn bare(text: Seq<char>) -> bool {
    text.len() > 0 && !is_space(text[0]) && !is_space(text.last())
}

/// Whether a text can be a field of a stage line.
pub open spec fn is_field(text: Seq<char>) -> bool {
    !text.contains('|') && !text.contains('\n') && trimmed(text).len() > 0
}

/// Whether a stage can be told from its line: its fields are not blank and hold no separator, its
/// id holds no white space, its deadline falls in a year of four digits, and, unless it is
/// delivered, its texts have no white space at their ends.
pub open spec fn is_editable(stage: StageModel) -> bool {
    &&& is_field(stage.id)
    &&& is_field(stage.label)
    &&& is_field(stage.expected_result)
    &&& !has_space(stage.id)
    &&& in_four_digit_years(stage.deadline_at)
    &&& (stage.delivered_at is None ==> trimmed(stage.label) == stage.label && trimmed(
        stage.expected_result,
    ) == stage.expected_result)
}

/// Whether a schedule can be told from its text.
pub open spec fn is_editable_schedule(timezone: Seq<char>, stages: Seq<StageModel>) -> bool {
    &&& bare(timezone)
    &&& !timezone.contains('\n')
    &&& forall|i: int| 0 <= i < stages.len() ==> is_editable(#[trigger] stages[i])
    &&& forall|i: int, j: int|
        0 <= i < j < stages.len() ==> (#[trigger] stages[i]).id != (#[trigger] stages[j]).id
}

/// Whether the marker behind an objective is the first one.
pub open spec fn is_editable_objective(objective: Seq<char>) -> bool {
    find_from(objective + SCHEDULE_MARKER@, SCHEDULE_MARKER@, 0) == Some(objective.len() as int)
}

/// Whether a text reads as a goal, for an editor that has these stages on record: as its
/// objective without the white space around it, its timezone and its stages.
pub open spec fn reads_as_goal(
    text: Seq<char>,
    fallback: Option<Seq<char>>,
    objective: Seq<char>,
    timezone: Seq<char>,
    stages: Seq<StageModel>,
) -> bool {
    parsed_text(text, fallback, stages) == Ok::<
        (Seq<char>, Option<Seq<char>>, Seq<StageModel>),
        EditorErrorModel,
    >((trimmed(objective), Some(timezone), stages))
}

/// Whether the field of a deadline reads back, where its year has four digits.
spec fn reads_back(at: i64) -> bool {
    in_four_digit_years(at) ==> {
        let field = deadline_field(at);
        &&& reads_as(field, at)
        &&& field.len() > 0
        &&& forall|i: int| 0 <= i < field.len() ==> is_instant_char(#[trigger] field[i])
    }
}

/// A text without white space is bare.
proof fn lemma_no_space_is_bare(text: Seq<char>)
    requires
        !has_space(text),
        trimmed(text).len() > 0,
    ensures
        bare(text),
        trimmed(text) == text,
{
    if text.len() == 0 {
        assert(trim_start(text) == text);
    } else {
        assert(!is_space(text[0]));
        assert(!is_space(text[text.len() - 1]));
    }
}

proof fn lemma_field_of_deadline(at: i64)
    requires
        reads_back(at),
        in_four_digit_years(at),
    ensures
        bare(deadline_field(at)),
        !deadline_field(at).contains('|'),
        !deadline_field(at).contains('\n'),
        trimmed(deadline_field(at)) == deadline_field(at),
{
    let field = deadline_field(at);
    assert(is_instant_char(field[0]));
    assert(is_instant_char(field[field.len() - 1]));
    assert forall|i: int| 0 <= i < field.len() implies field[i] != '|' && field[i] != '\n' by {
        assert(is_instant_char(field[i]));
    }
}

/// The fields of the line of a stage are its texts.
proof fn lemma_fields_of_line(stage: StageModel)
    requires
        is_editable(stage),
        reads_back(stage.deadline_at),
    ensures
        ({
            let fields = stage_fields(stage_line(stage).skip("stage:"@.len() as int));
            &&& fields.len() == 4
            &&& fields[0] == stage.id
            &&& fields[1] == trimmed(stage.label)
            &&& fields[2] == trimmed(stage.expected_result)
            &&& fields[3] == deadline_field(stage.deadline_at)
        }),
        has_prefix(stage_line(stage), "stage:"@),
        !has_prefix(stage_line(stage), "timezone:"@),
        bare(stage_line(stage)),
        !stage_line(stage).contains('\n'),
{
    let line = stage_line(stage);
    let due = deadline_field(stage.deadline_at);
    lemma_field_of_deadline(stage.deadline_at);
    lemma_no_space_is_bare(stage.id);
    reveal_strlit("stage:");
    reveal_strlit("stage: ");
    reveal_strlit("timezone:");
    reveal_strlit(" | ");
    let sp = seq![' '];
    let f0 = (sp + stage.id).push(' ');
    let f1 = (sp + stage.label).push(' ');
    let f2 = (sp + stage.expected_result).push(' ');
    let f3 = sp + due;
    let none = Seq::<Seq<char>>::empty();
    let s0 = Seq::<char>::empty() + f0.push('|');
    let s1 = s0 + f1.push('|');
    let s2 = s1 + f2.push('|');
    let s3 = s2 + f3;
    let head = "stage: "@ + stage.id + " | "@;
    let head1 = head + stage.label + " | "@;
    let head2 = head1 + stage.expected_result + " | "@;
    let tag = "stage:"@;
    assert(tag + s0.push(' ') =~= head);
    assert(tag + s1.push(' ') =~= head1) by {
        assert(tag + s1.push(' ') =~= tag + s0.push(' ') + stage.label + " | "@);
    }
    assert(tag + s2.push(' ') =~= head2) by {
        assert(tag + s2.push(' ') =~= tag + s1.push(' ') + stage.expected_result + " | "@);
    }
    assert(tag + s3 =~= line) by {
        assert(tag + s3 =~= tag + s2.push(' ') + due);
    }
    assert((tag + s3).skip(tag.len() as int) =~= s3);
    assert((tag + s3).take(tag.len() as int) =~= tag);
    assert(line[0] == 's');
    assert("timezone:"@[0] == 't');
    if has_prefix(line, "timezone:"@) {
        assert(line.take("timezone:"@.len() as int)[0] == 't');
    }
    assert(line.last() == due.last());
    assert forall|c: char| c == '|' || c == '\n' implies !f0.contains(c) && !f1.contains(c)
        && !f2.contains(c) && !f3.contains(c) by {
        lemma_spaced_contains(stage.id, c);
        lemma_spaced_contains(stage.label, c);
        lemma_spaced_contains(stage.expected_result, c);
        lemma_spaced_contains(due, c);
    }
    assert(split_on(Seq::<char>::empty(), '|') =~= none.push(Seq::empty()));
    lemma_split_line(Seq::empty(), none, f0, '|');
    lemma_split_line(s0, none.push(f0), f1, '|');
    lemma_split_line(s1, none.push(f0).push(f1), f2, '|');
    lemma_split_piece(s2, none.push(f0).push(f1).push(f2), f3, '|');
    lemma_trim_trailing_space(sp + stage.id);
    lemma_trim_leading_space(stage.id);
    lemma_trim_trailing_space(sp + stage.label);
    lemma_trim_leading_space(stage.label);
    lemma_trim_trailing_space(sp + stage.expected_result);
    lemma_trim_leading_space(stage.expected_result);
    lemma_trim_leading_space(due);
    let fields = stage_fields(s3);
    assert(fields.len() == 4);
    assert(fields[0] == trimmed(f0));
    assert(fields[1] == trimmed(f1));
    assert(fields[2] == trimmed(f2));
    assert(fields[3] == trimmed(f3));
    assert(!tag.contains('\n'));
    lemma_no_newline(s0, s1, s2, s3, f0, f1, f2, f3);
    assert(line == tag + s3);
    if line.contains('\n') {
        let i = choose|i: int| 0 <= i < line.len() && line[i] == '\n';
        if i < tag.len() {
            assert(tag[i] == '\n');
        } else {
            assert(s3[i - tag.len()] == '\n');
        }
    }
}

proof fn lemma_spaced_contains(text: Seq<char>, c: char)
    requires
        c != ' ',
        !text.contains(c),
    ensures
        !(seq![' '] + text).contains(c),
        !(seq![' '] + text).push(' ').contains(c),
{
    let spaced = seq![' '] + text;
    assert forall|i: int| 0 <= i < spaced.len() implies #[trigger] spaced[i] != c by {
        if i > 0 {
            assert(spaced[i] == text[i - 1]);
        }
    }
    assert forall|i: int| 0 <= i < spaced.len() + 1 implies #[trigger] spaced.push(' ')[i] != c by {
        if i < spaced.len() {
            assert(spaced[i] != c);
        }
    }
}

proof fn lemma_joined_contains(a: Seq<char>, b: Seq<char>, c: char)
    requires
        !a.contains(c),
        !b.contains(c),
    ensures
        !(a + b).contains(c),
{
    assert forall|i: int| 0 <= i < (a + b).len() implies #[trigger] (a + b)[i] != c by {
        if i < a.len() {
            assert(a[i] != c);
        } else {
            assert(b[i - a.len()] != c);
        }
    }
}

proof fn lemma_pushed_contains(a: Seq<char>, c: char, other: char)
    requires
        !a.contains(c),
        other != c,
    ensures
        !a.push(other).contains(c),
{
    assert forall|i: int| 0 <= i < a.push(other).len() implies #[trigger] a.push(other)[i] != c by {
        if i < a.len() {
            assert(a[i] != c);
        }
    }
}

proof fn lemma_no_newline(
    s0: Seq<char>,
    s1: Seq<char>,
    s2: Seq<char>,
    s3: Seq<char>,
    f0: Seq<char>,
    f1: Seq<char>,
    f2: Seq<char>,
    f3: Seq<char>,
)
    requires
        s0 == Seq::<char>::empty() + f0.push('|'),
        s1 == s0 + f1.push('|'),
        s2 == s1 + f2.push('|'),
        s3 == s2 + f3,
        !f0.contains('\n'),
        !f1.contains('\n'),
        !f2.contains('\n'),
        !f3.contains('\n'),
    ensures
        !s3.contains('\n'),
{
    lemma_pushed_contains(f0, '\n', '|');
    lemma_pushed_contains(f1, '\n', '|');
    lemma_pushed_contains(f2, '\n', '|');
    lemma_joined_contains(Seq::empty(), f0.push('|'), '\n');
    lemma_joined_contains(s0, f1.push('|'), '\n');
    lemma_joined_contains(s1, f2.push('|'), '\n');
    lemma_joined_contains(s2, f3, '\n');
}

/// The lines of a schedule: its timezone and its stages.
spec fn lines_of(timezone: Seq<char>, stages: Seq<StageModel>, count: nat) -> Seq<Seq<char>>
    decreases count,
{
    if count == 0 {
        seq!["timezone: "@ + timezone]
    } else {
        lines_of(timezone, stages, (count - 1) as nat).push(stage_line(stages[count - 1]))
    }
}

proof fn lemma_lines_of(timezone: Seq<char>, stages: Seq<StageModel>, count: nat)
    ensures
        lines_of(timezone, stages, count).len() == count + 1,
        lines_of(timezone, stages, count)[0] == "timezone: "@ + timezone,
        forall|i: int|
            0 <= i < count ==> #[trigger] lines_of(timezone, stages, count)[i + 1] == stage_line(
                stages[i],
            ),
    decreases count,
{
    if count > 0 {
        lemma_lines_of(timezone, stages, (count - 1) as nat);
    }
}

/// The text of a schedule is made of its lines.
proof fn lemma_split_schedule(timezone: Seq<char>, stages: Seq<StageModel>, count: nat)
    requires
        is_editable_schedule(timezone, stages),
        count <= stages.len(),
        forall|i: int| 0 <= i < stages.len() ==> reads_back((#[trigger] stages[i]).deadline_at),
    ensures
        split_on("timezone: "@ + timezone + "\n"@ + stage_lines(stages, count), '\n') == lines_of(
            timezone,
            stages,
            count,
        ).push(Seq::empty()),
    decreases count,
{
    reveal_strlit("\n");
    let head = "timezone: "@ + timezone;
    if count == 0 {
        reveal_strlit("timezone: ");
        assert(!"timezone: "@.contains('\n'));
        lemma_joined_contains("timezone: "@, timezone, '\n');
        assert(split_on(Seq::<char>::empty(), '\n') =~= Seq::<Seq<char>>::empty().push(
            Seq::empty(),
        ));
        lemma_split_line(Seq::empty(), Seq::empty(), head, '\n');
        assert(head + "\n"@ + stage_lines(stages, 0) =~= Seq::<char>::empty() + head.push('\n'));
        assert(Seq::<Seq<char>>::empty().push(head) =~= seq![head]);
    } else {
        let before = (count - 1) as nat;
        let text = head + "\n"@ + stage_lines(stages, before);
        let line = stage_line(stages[before as int]);
        lemma_split_schedule(timezone, stages, before);
        lemma_fields_of_line(stages[before as int]);
        lemma_split_line(text, lines_of(timezone, stages, before), line, '\n');
        assert(head + "\n"@ + stage_lines(stages, count) =~= text + line.push('\n'));
    }
}

/// The stage on record under an id that occurs once.
proof fn lemma_stage_on_record(stages: Seq<StageModel>, at: int)
    requires
        0 <= at < stages.len(),
        forall|i: int, j: int|
            0 <= i < j < stages.len() ==> (#[trigger] stages[i]).id != (#[trigger] stages[j]).id,
    ensures
        first_where(stages, with_id(stages[at].id)) == Some(stages[at]),
        !has_id(stages.take(at), stages[at].id),
{
    let meets = with_id(stages[at].id);
    lemma_first_where(stages, meets);
    assert(meets(stages[at]));
    let found = first_where(stages, meets)->0;
    let i = choose|i: int| 0 <= i < stages.len() && stages[i] == found;
    assert(stages[i].id == stages[at].id);
}

/// Reading the line of a stage gives the stage.
proof fn lemma_read_stage_line(stages: Seq<StageModel>, at: int, timezone: Seq<char>)
    requires
        is_editable_schedule(timezone, stages),
        0 <= at < stages.len(),
        reads_back(stages[at].deadline_at),
    ensures
        trimmed(stage_line(stages[at])) == stage_line(stages[at]),
        stage_line(stages[at]).len() > 0,
        read_line(
            stage_line(stages[at]),
            ScheduleModel { timezone: Some(timezone), stages: stages.take(at) },
            stages,
        ) == Ok::<ScheduleModel, EditorErrorModel>(
            ScheduleModel { timezone: Some(timezone), stages: stages.take(at + 1) },
        ),
{
    let stage = stages[at];
    let line = stage_line(stage);
    let value = line.skip("stage:"@.len() as int);
    let fields = stage_fields(value);
    assert(is_editable(stage));
    lemma_fields_of_line(stage);
    lemma_trim_nothing(line);
    lemma_stage_on_record(stages, at);
    lemma_no_space_is_bare(stage.id);
    lemma_field_of_deadline(stage.deadline_at);
    assert(forall|i: int| 0 <= i < 4 ==> (#[trigger] fields[i]).len() > 0);
    assert(read_stage(value, stages.take(at), stages) == Ok::<StageModel, EditorErrorModel>(stage));
    assert(stages.take(at).push(stage) =~= stages.take(at + 1));
}

/// Reading the lines of a schedule from some stage on gives the rest of the schedule.
proof fn lemma_read_stage_lines(stages: Seq<StageModel>, at: int, timezone: Seq<char>)
    requires
        is_editable_schedule(timezone, stages),
        0 <= at <= stages.len(),
        forall|i: int| 0 <= i < stages.len() ==> reads_back((#[trigger] stages[i]).deadline_at),
    ensures
        read_lines(
            lines_of(timezone, stages, stages.len()).push(Seq::empty()).skip(at + 1),
            ScheduleModel { timezone: Some(timezone), stages: stages.take(at) },
            stages,
        ) == Ok::<ScheduleModel, EditorErrorModel>(
            ScheduleModel { timezone: Some(timezone), stages },
        ),
    decreases stages.len() - at,
{
    let lines = lines_of(timezone, stages, stages.len()).push(Seq::empty());
    let rest = lines.skip(at + 1);
    lemma_lines_of(timezone, stages, stages.len());
    if at == stages.len() {
        reveal_with_fuel(read_lines, 2);
        assert(rest[0] =~= Seq::<char>::empty());
        assert(trimmed(rest[0]) =~= Seq::<char>::empty());
        assert(rest.drop_first() =~= Seq::empty());
        assert(stages.take(at) =~= stages);
    } else {
        assert(lines[at + 1] == stage_line(stages[at]));
        assert(rest[0] == stage_line(stages[at]));
        assert(rest.drop_first() =~= lines.skip(at + 2));
        lemma_read_stage_line(stages, at, timezone);
        lemma_read_stage_lines(stages, at + 1, timezone);
    }
}

/// Reading the text of a goal gives the goal.
proof fn lemma_editor_round_trip(
    objective: Seq<char>,
    timezone: Seq<char>,
    stages: Seq<StageModel>,
    fallback: Option<Seq<char>>,
)
    requires
        is_editable_objective(objective),
        is_editable_schedule(timezone, stages),
        forall|i: int| 0 <= i < stages.len() ==> reads_back((#[trigger] stages[i]).deadline_at),
    ensures
        reads_as_goal(
            editor_text(objective, timezone, stages),
            fallback,
            objective,
            timezone,
            stages,
        ),
{
    let text = editor_text(objective, timezone, stages);
    let schedule = schedule_text(timezone, stages);
    let from = objective.len() + SCHEDULE_MARKER@.len();
    let lines = lines_of(timezone, stages, stages.len()).push(Seq::empty());
    let line = "timezone: "@ + timezone;
    lemma_find_in_longer(objective + SCHEDULE_MARKER@, schedule, SCHEDULE_MARKER@, 0);
    assert(text.skip(from as int) =~= schedule);
    assert(text.take(objective.len() as int) =~= objective);
    lemma_split_schedule(timezone, stages, stages.len());
    lemma_lines_of(timezone, stages, stages.len());
    reveal_strlit("timezone: ");
    reveal_strlit("timezone:");
    assert(line.last() == timezone.last());
    assert(line[0] == 't');
    lemma_trim_nothing(line);
    assert(line.take("timezone:"@.len() as int) =~= "timezone:"@);
    assert(line.skip("timezone:"@.len() as int) =~= seq![' '] + timezone);
    lemma_trim_leading_space(timezone);
    lemma_trim_nothing(timezone);
    assert(lines[0] == line);
    assert(lines.drop_first() =~= lines.skip(1));
    assert(stages.take(0) =~= Seq::empty());
    lemma_read_stage_lines(stages, 0, timezone);
}

/// Whether stages keep to what is on record: each id occurs once, a delivered stage is as it was
/// delivered, and no other stage is delivered.
pub open spec fn keeps_record(stages: Seq<StageModel>, previous: Seq<StageModel>) -> bool {
    &&& forall|i: int, j: int|
        0 <= i < j < stages.len() ==> (#[trigger] stages[i]).id != (#[trigger] stages[j]).id
    &&& forall|i: int|
        0 <= i < stages.len() ==> match first_where(
            previous,
            with_id((#[trigger] stages[i]).id),
        ) {
            Some(before) => if before.delivered_at is Some {
                stages[i] == before
            } else {
                stages[i].delivered_at is None
            },
            None => stages[i].delivered_at is None,
        }
}

proof fn lemma_read_lines_keep_record(
    lines: Seq<Seq<char>>,
    read: ScheduleModel,
    previous: Seq<StageModel>,
)
    requires
        keeps_record(read.stages, previous),
    ensures
        read_lines(lines, read, previous) matches Ok(done) ==> keeps_record(done.stages, previous),
    decreases lines.len(),
{
    if lines.len() > 0 {
        let line = trimmed(lines[0]);
        if line.len() == 0 {
            lemma_read_lines_keep_record(lines.drop_first(), read, previous);
        } else if let Ok(more) = read_line(line, read, previous) {
            if !has_prefix(line, "timezone:"@) {
                let value = line.skip("stage:"@.len() as int);
                let stage = read_stage(value, read.stages, previous)->Ok_0;
                let id = stage_fields(value)[0];
                lemma_first_where(previous, with_id(id));
                assert(stage.id == id);
                assert(!has_id(read.stages, id));
                assert forall|i: int, j: int| 0 <= i < j < more.stages.len() implies (
                #[trigger] more.stages[i]).id != (#[trigger] more.stages[j]).id by {
                    assert(read.stages[i] == more.stages[i]);
                }
            }
            lemma_read_lines_keep_record(lines.drop_first(), more, previous);
        }
    }
}

/// An edit can neither change a delivered stage nor deliver one, nor can it give an id twice.
pub proof fn lemma_edit_keeps_record(
    text: Seq<char>,
    timezone: Option<Seq<char>>,
    previous: Seq<StageModel>,
)
    requires
        find_from(text, SCHEDULE_MARKER@, 0) is Some,
    ensures
        parsed_text(text, timezone, previous) matches Ok(goal) ==> keeps_record(goal.2, previous),
{
    let at = find_from(text, SCHEDULE_MARKER@, 0)->0;
    let schedule = text.skip(at + SCHEDULE_MARKER@.len());
    lemma_read_lines_keep_record(split_on(schedule, '\n'), blank_schedule(), previous);
}

/// A text without a schedule leaves timezone and stages as they are.
pub proof fn lemma_objective_alone_keeps_schedule(
    text: Seq<char>,
    timezone: Option<Seq<char>>,
    previous: Seq<StageModel>,
)
    requires
        forall|at: int| !occurs_at(text, SCHEDULE_MARKER@, at),
    ensures
        parsed_text(text, timezone, previous) == Ok::<
            (Seq<char>, Option<Seq<char>>, Seq<StageModel>),
            EditorErrorModel,
        >((trimmed(text), timezone, previous)),
{
    lemma_nowhere(text, SCHEDULE_MARKER@, 0);
}

proof fn lemma_nowhere(s: Seq<char>, part: Seq<char>, from: int)
    requires
        forall|at: int| !occurs_at(s, part, at),
    ensures
        find_from(s, part, from) is None,
    decreases s.len() + 1 - from,
{
    if from + part.len() <= s.len() {
        assert(!occurs_at(s, part, from));
        lemma_nowhere(s, part, from + 1);
    }
}

/// The sentence of each reading error.
pub proof fn lemma_sentences_of_errors(text: Seq<char>)
    ensures
        EditorErrorModel::EmptyTimezone.message() == "Goal timezone must not be empty."@,
        EditorErrorModel::UnknownLine(text).message() == "Unknown schedule line: "@ + text,
        EditorErrorModel::StageShape.message()
            == "Each stage must use: stage: id | label | expected result | RFC3339 deadline"@,
        EditorErrorModel::StageIdWhitespace(text).message()
            == "Stage ids must not contain whitespace: "@ + text,
        EditorErrorModel::DuplicateStageId(text).message() == "Stage ids must be unique: "@ + text,
        EditorErrorModel::Deadline(text).message() == text,
{
}

/// A blank line changes nothing of what is read, wherever it stands.
pub proof fn lemma_blank_line_adds_nothing(
    first: Seq<Seq<char>>,
    blank: Seq<char>,
    rest: Seq<Seq<char>>,
    read: ScheduleModel,
    previous: Seq<StageModel>,
)
    requires
        trimmed(blank).len() == 0,
    ensures
        read_lines(first + seq![blank] + rest, read, previous) == read_lines(
            first + rest,
            read,
            previous,
        ),
    decreases first.len(),
{
    let with = first + seq![blank] + rest;
    let without = first + rest;
    if first.len() == 0 {
        assert(with[0] == blank);
        assert(with.drop_first() =~= without);
    } else {
        let tail = first.drop_first();
        assert(with[0] == first[0] && without[0] == first[0]);
        assert(with.drop_first() =~= tail + seq![blank] + rest);
        assert(without.drop_first() =~= tail + rest);
        let line = trimmed(first[0]);
        if line.len() == 0 {
            lemma_blank_line_adds_nothing(tail, blank, rest, read, previous);
        } else if let Ok(more) = read_line(line, read, previous) {
            lemma_blank_line_adds_nothing(tail, blank, rest, more, previous);
        }
    }
}

/// Lines are read one after the other: what follows is read on top of what was read before, and the
/// first error ends the reading.
pub proof fn lemma_lines_are_read_in_turn(
    first: Seq<Seq<char>>,
    rest: Seq<Seq<char>>,
    read: ScheduleModel,
    previous: Seq<StageModel>,
)
    ensures
        read_lines(first, read, previous) matches Ok(done) ==> read_lines(
            first + rest,
            read,
            previous,
        ) == read_lines(rest, done, previous),
        read_lines(first, read, previous) is Err ==> read_lines(first + rest, read, previous)
            == read_lines(first, read, previous),
    decreases first.len(),
{
    if first.len() == 0 {
        assert(first + rest =~= rest);
    } else {
        let tail = first.drop_first();
        assert((first + rest)[0] == first[0]);
        assert((first + rest).drop_first() =~= tail + rest);
        let line = trimmed(first[0]);
        if line.len() == 0 {
            lemma_lines_are_read_in_turn(tail, rest, read, previous);
        } else if let Ok(more) = read_line(line, read, previous) {
            lemma_lines_are_read_in_turn(tail, rest, more, previous);
        }
    }
}

/// A timezone line replaces the timezone that was read before and keeps the stages; an empty one is an
/// error.
pub proof fn lemma_timezone_line(
    value: Seq<char>,
    read: ScheduleModel,
    previous: Seq<StageModel>,
)
    ensures
        trimmed(value).len() == 0 ==> read_line("timezone:"@ + value, read, previous) == Err::<
            ScheduleModel,
            EditorErrorModel,
        >(EditorErrorModel::EmptyTimezone),
        trimmed(value).len() > 0 ==> (read_line("timezone:"@ + value, read, previous) matches Ok(
            done,
        ) && done.timezone == Some(trimmed(value)) && done.stages == read.stages),
{
    let line = "timezone:"@ + value;
    assert(line.take("timezone:"@.len() as int) =~= "timezone:"@);
    assert(line.skip("timezone:"@.len() as int) =~= value);
    assert(line.subrange(0, "timezone:"@.len() as int) =~= "timezone:"@);
}

/// A stage line adds its stage behind those before it and keeps the timezone, or is refused with the
/// error of the stage.
pub proof fn lemma_stage_line_adds_behind(
    value: Seq<char>,
    read: ScheduleModel,
    previous: Seq<StageModel>,
)
    ensures
        read_stage(value, read.stages, previous) matches Ok(stage) ==> (read_line(
            "stage:"@ + value,
            read,
            previous,
        ) matches Ok(done) && done.timezone == read.timezone && done.stages == read.stages
            + seq![stage]),
        read_stage(value, read.stages, previous) matches Err(error) ==> read_line(
            "stage:"@ + value,
            read,
            previous,
        ) == Err::<ScheduleModel, EditorErrorModel>(error),
{
    let line = "stage:"@ + value;
    reveal_strlit("stage:");
    reveal_strlit("timezone:");
    assert(line[0] == 's');
    assert(line.skip("stage:"@.len() as int) =~= value);
    assert(line.subrange(0, "stage:"@.len() as int) =~= "stage:"@);
    assert("timezone:"@[0] == 't');
    if has_prefix(line, "timezone:"@) {
        assert(line.subrange(0, "timezone:"@.len() as int)[0] == line[0]);
    }
    if let Ok(stage) = read_stage(value, read.stages, previous) {
        assert(read.stages.push(stage) =~= read.stages + seq![stage]);
    }
}

/// A line that starts as neither a timezone nor a stage is refused whole.
pub proof fn lemma_other_lines_are_refused(
    line: Seq<char>,
    read: ScheduleModel,
    previous: Seq<StageModel>,
)
    requires
        forall|rest: Seq<char>| line != #[trigger] ("timezone:"@ + rest),
        forall|rest: Seq<char>| line != #[trigger] ("stage:"@ + rest),
    ensures
        read_line(line, read, previous) == Err::<ScheduleModel, EditorErrorModel>(
            EditorErrorModel::UnknownLine(line),
        ),
{
    if has_prefix(line, "timezone:"@) {
        let rest = line.skip("timezone:"@.len() as int);
        assert(line =~= "timezone:"@ + rest);
    }
    if has_prefix(line, "stage:"@) {
        let rest = line.skip("stage:"@.len() as int);
        assert(line =~= "stage:"@ + rest);
    }
}

/// What a stage line with the fields `id`, `label`, `result` and `due` says: none may be empty, then
/// the id may hold no white space, then it may not have been used, and then the deadline has to be an
/// instant.
pub proof fn lemma_checks_of_a_stage(
    value: Seq<char>,
    stages: Seq<StageModel>,
    previous: Seq<StageModel>,
    id: Seq<char>,
    label: Seq<char>,
    result: Seq<char>,
    due: Seq<char>,
)
    requires
        stage_fields(value) == seq![id, label, result, due],
    ensures
        id.len() == 0 || label.len() == 0 || result.len() == 0 || due.len() == 0 ==> read_stage(
            value,
            stages,
            previous,
        ) == Err::<StageModel, EditorErrorModel>(EditorErrorModel::StageShape),
        id.len() > 0 && label.len() > 0 && result.len() > 0 && due.len() > 0 ==> {
            let spaced = exists|i: int| 0 <= i < id.len() && is_space(#[trigger] id[i]);
            let used = exists|i: int| 0 <= i < stages.len() && (#[trigger] stages[i]).id == id;
            &&& spaced ==> read_stage(value, stages, previous) == Err::<
                StageModel,
                EditorErrorModel,
            >(EditorErrorModel::StageIdWhitespace(id))
            &&& !spaced && used ==> read_stage(value, stages, previous) == Err::<
                StageModel,
                EditorErrorModel,
            >(EditorErrorModel::DuplicateStageId(id))
            &&& !spaced && !used ==> (rfc3339_seconds(due) matches Err(message) ==> read_stage(
                value,
                stages,
                previous,
            ) == Err::<StageModel, EditorErrorModel>(EditorErrorModel::Deadline(message)))
            &&& !spaced && !used && rfc3339_seconds(due) is Ok ==> read_stage(
                value,
                stages,
                previous,
            ) is Ok
        },
{
    let fields = stage_fields(value);
    assert(fields.len() == 4);
    assert(fields[0] == id && fields[1] == label && fields[2] == result && fields[3] == due);
}

/// A stage line with fewer or more than four fields is refused.
pub proof fn lemma_a_stage_has_four_fields(
    value: Seq<char>,
    stages: Seq<StageModel>,
    previous: Seq<StageModel>,
)
    requires
        split_on(value, '|').len() != 4,
    ensures
        read_stage(value, stages, previous) == Err::<StageModel, EditorErrorModel>(
            EditorErrorModel::StageShape,
        ),
{
}

/// A stage that is not on record is new and open; one on record that is open keeps what was attached
/// to it and takes its texts and deadline from the line; one that was delivered stays as it was.
pub proof fn lemma_stage_of_a_line(
    value: Seq<char>,
    stages: Seq<StageModel>,
    before: Seq<StageModel>,
    old_stage: StageModel,
    after: Seq<StageModel>,
)
    requires
        forall|i: int| 0 <= i < before.len() ==> (#[trigger] before[i]).id != old_stage.id,
    ensures
        ({
            let fields = stage_fields(value);
            let unknown = read_stage(value, stages, Seq::empty());
            let known = read_stage(value, stages, before + seq![old_stage] + after);
            unknown matches Ok(stage) ==> {
                &&& stage.id == fields[0]
                &&& stage.label == fields[1]
                &&& stage.expected_result == fields[2]
                &&& rfc3339_seconds(fields[3]) == Ok::<i64, Seq<char>>(stage.deadline_at)
                &&& stage.delivered_at is None
                &&& stage.delivered_artifact is None
                &&& old_stage.id == stage.id && old_stage.delivered_at is Some ==> known == Ok::<
                    StageModel,
                    EditorErrorModel,
                >(old_stage)
                &&& old_stage.id == stage.id && old_stage.delivered_at is None ==> (known matches Ok(
                    kept,
                ) && kept.id == stage.id && kept.label == stage.label && kept.expected_result
                    == stage.expected_result && kept.deadline_at == stage.deadline_at
                    && kept.delivered_at is None && kept.delivered_artifact
                    == old_stage.delivered_artifact)
            }
        }),
    decreases before.len(),
{
    let fields = stage_fields(value);
    let record = before + seq![old_stage] + after;
    let unknown = read_stage(value, stages, Seq::empty());
    if let Ok(stage) = unknown {
        if old_stage.id == stage.id {
            lemma_first_on_record(before, old_stage, after);
        }
    }
}

proof fn lemma_first_on_record(
    before: Seq<StageModel>,
    stage: StageModel,
    after: Seq<StageModel>,
)
    requires
        forall|i: int| 0 <= i < before.len() ==> (#[trigger] before[i]).id != stage.id,
    ensures
        first_where(before + seq![stage] + after, with_id(stage.id)) == Some(stage),
    decreases before.len(),
{
    let record = before + seq![stage] + after;
    if before.len() > 0 {
        let tail = before.drop_first();
        assert(record[0] == before[0]);
        assert(record.drop_first() =~= tail + seq![stage] + after);
        assert forall|i: int| 0 <= i < tail.len() implies (#[trigger] tail[i]).id != stage.id by {
            assert(tail[i] == before[i + 1]);
        }
        lemma_first_on_record(tail, stage, after);
    } else {
        assert(record[0] == stage);
    }
}

/// The text before the first marker is the objective, without the white space around it; what follows
/// that marker, and nothing else, is the schedule. What was the timezone before does not matter then.
pub proof fn lemma_first_marker_divides(
    objective: Seq<char>,
    schedule: Seq<char>,
    timezone: Option<Seq<char>>,
    previous: Seq<StageModel>,
)
    requires
        forall|at: int|
            0 <= at < objective.len() ==> !occurs_at(
                objective + SCHEDULE_MARKER@ + schedule,
                SCHEDULE_MARKER@,
                at,
            ),
    ensures
        SCHEDULE_MARKER@ == "\n--- schedule ---\n"@,
        ({
            let text = objective + SCHEDULE_MARKER@ + schedule;
            let lines = read_lines(
                split_on(schedule, '\n'),
                ScheduleModel { timezone: None, stages: Seq::empty() },
                previous,
            );
            &&& lines matches Ok(read) ==> (parsed_text(text, timezone, previous) matches Ok(goal)
                && goal.0 == trimmed(objective) && goal.1 == read.timezone && goal.2 == read.stages)
            &&& lines matches Err(error) ==> parsed_text(text, timezone, previous) == Err::<
                (Seq<char>, Option<Seq<char>>, Seq<StageModel>),
                EditorErrorModel,
            >(error)
        }),
{
    let text = objective + SCHEDULE_MARKER@ + schedule;
    let mark = objective.len() as int;
    lemma_found_first(text, SCHEDULE_MARKER@, 0);
    assert(text.subrange(mark, mark + SCHEDULE_MARKER@.len()) =~= SCHEDULE_MARKER@);
    assert(occurs_at(text, SCHEDULE_MARKER@, mark));
    assert(find_from(text, SCHEDULE_MARKER@, 0) is Some);
    let at = find_from(text, SCHEDULE_MARKER@, 0)->0;
    assert(occurs_at(text, SCHEDULE_MARKER@, at));
    assert(at == mark);
    assert(text.take(mark) =~= objective);
    assert(text.skip(mark + SCHEDULE_MARKER@.len()) =~= schedule);
}

/// The text in which a goal is edited: the objective, the marker, the timezone and a line for each
/// stage.
pub proof fn lemma_editor_text_parts(
    objective: Seq<char>,
    timezone: Seq<char>,
    stages: Seq<StageModel>,
    stage: StageModel,
)
    ensures
        editor_text(objective, timezone, Seq::empty()) == objective + "\n--- schedule ---\n"@
            + "timezone: "@ + timezone + "\n"@,
        editor_text(objective, timezone, stages.push(stage)) == editor_text(
            objective,
            timezone,
            stages,
        ) + "stage: "@ + stage.id + " | "@ + stage.label + " | "@ + stage.expected_result + " | "@
            + deadline_field(stage.deadline_at) + "\n"@,
        utc_offset_text(stage.deadline_at) matches Some(text) ==> deadline_field(stage.deadline_at)
            == text,
        utc_offset_text(stage.deadline_at) is None ==> deadline_field(stage.deadline_at)
            == integer_text(stage.deadline_at as int),
{
    assert(editor_text(objective, timezone, Seq::empty()) =~= objective + "\n--- schedule ---\n"@
        + "timezone: "@ + timezone + "\n"@);
    let more = stages.push(stage);
    lemma_lines_of_first(stages, more, stages.len());
    assert(stage_lines(more, more.len()) == stage_lines(more, stages.len()) + (stage_line(
        more[stages.len() as int],
    ) + "\n"@));
    assert(editor_text(objective, timezone, more) =~= editor_text(objective, timezone, stages)
        + "stage: "@ + stage.id + " | "@ + stage.label + " | "@ + stage.expected_result + " | "@
        + deadline_field(stage.deadline_at) + "\n"@);
}

proof fn lemma_lines_of_first(stages: Seq<StageModel>, more: Seq<StageModel>, count: nat)
    requires
        count <= stages.len() <= more.len(),
        forall|i: int| 0 <= i < stages.len() ==> #[trigger] more[i] == stages[i],
    ensures
        stage_lines(more, count) == stage_lines(stages, count),
    decreases count,
{
    if count > 0 {
        lemma_lines_of_first(stages, more, (count - 1) as nat);
        assert(more[count - 1] == stages[count - 1]);
    }
}

/// Which goals can be told from their text: those whose timezone and stages hold no separator and no
/// white space at their ends, with ids that hold none at all and differ, with deadlines in the years 0
/// to 9999, and with an objective that does not itself hold the marker.
pub proof fn lemma_what_can_be_edited(
    objective: Seq<char>,
    timezone: Seq<char>,
    stages: Seq<StageModel>,
)
    requires
        forall|at: int|
            0 <= at < objective.len() ==> !occurs_at(
                objective + SCHEDULE_MARKER@,
                SCHEDULE_MARKER@,
                at,
            ),
        timezone.len() > 0,
        !is_space(timezone[0]),
        !is_space(timezone.last()),
        !timezone.contains('\n'),
        forall|i: int|
            0 <= i < stages.len() ==> {
                let stage = #[trigger] stages[i];
                &&& stage.id.len() > 0 && !stage.id.contains('|')
                &&& forall|j: int| 0 <= j < stage.id.len() ==> !is_space(#[trigger] stage.id[j])
                &&& !stage.label.contains('|') && !stage.label.contains('\n')
                &&& trimmed(stage.label) == stage.label && stage.label.len() > 0
                &&& !stage.expected_result.contains('|') && !stage.expected_result.contains('\n')
                &&& trimmed(stage.expected_result) == stage.expected_result
                    && stage.expected_result.len() > 0
                &&& -62_167_219_200 <= stage.deadline_at <= 253_402_300_799
            },
        forall|i: int, j: int|
            0 <= i < j < stages.len() ==> (#[trigger] stages[i]).id != (#[trigger] stages[j]).id,
    ensures
        is_editable_objective(objective),
        is_editable_schedule(timezone, stages),
{
    let marked = objective + SCHEDULE_MARKER@;
    let mark = objective.len() as int;
    lemma_found_first(marked, SCHEDULE_MARKER@, 0);
    assert(marked.subrange(mark, mark + SCHEDULE_MARKER@.len()) =~= SCHEDULE_MARKER@);
    assert(occurs_at(marked, SCHEDULE_MARKER@, mark));
    assert(find_from(marked, SCHEDULE_MARKER@, 0) is Some);
    let at = find_from(marked, SCHEDULE_MARKER@, 0)->0;
    assert(occurs_at(marked, SCHEDULE_MARKER@, at));
    assert forall|i: int| 0 <= i < stages.len() implies is_editable(#[trigger] stages[i]) by {
        let id = stages[i].id;
        assert(!has_space(id));
        assert(!is_space(id[0]));
        assert(!is_space(id[id.len() - 1]));
        lemma_trim_nothing(id);
        if id.contains('\n') {
            let j = choose|j: int| 0 <= j < id.len() && id[j] == '\n';
            assert(is_space(id[j]));
        }
    }
}

/// A text that reads as a goal gives the objective without the white space around it, and the timezone
/// and the stages as they are.
pub proof fn lemma_what_reads_as_a_goal(
    text: Seq<char>,
    fallback: Option<Seq<char>>,
    objective: Seq<char>,
    timezone: Seq<char>,
    stages: Seq<StageModel>,
)
    requires
        reads_as_goal(text, fallback, objective, timezone, stages),
    ensures
        parsed_text(text, fallback, stages) matches Ok(goal) && goal.0 == trimmed(objective)
            && goal.1 == Some(timezone) && goal.2 == stages,
{
}

/// Where stages keep to the record, a stage of the record that was delivered, and is the first of its
/// id there, is never another; a stage that the record does not know as delivered is open; and no id
/// occurs twice.
pub proof fn lemma_what_keeps_the_record(
    stages: Seq<StageModel>,
    before: Seq<StageModel>,
    noted: StageModel,
    after: Seq<StageModel>,
    at: int,
)
    requires
        keeps_record(stages, before + seq![noted] + after),
        forall|i: int| 0 <= i < before.len() ==> (#[trigger] before[i]).id != noted.id,
        0 <= at < stages.len(),
    ensures
        stages[at].id == noted.id && noted.delivered_at is Some ==> stages[at] == noted,
        stages[at].id == noted.id && noted.delivered_at is None ==> stages[at].delivered_at is None,
        forall|i: int|
            0 <= i < stages.len() && i != at ==> (#[trigger] stages[i]).id != stages[at].id,
        (forall|i: int|
            0 <= i < (before + seq![noted] + after).len() ==> (#[trigger] (before + seq![noted]
                + after)[i]).id != stages[at].id) ==> stages[at].delivered_at is None,
{
    let record = before + seq![noted] + after;
    lemma_first_on_record(before, noted, after);
    lemma_first_where(record, with_id(stages[at].id));
    if let Some(found) = first_where(record, with_id(stages[at].id)) {
        let k = choose|k: int| 0 <= k < record.len() && record[k] == found;
        assert(record[k].id == stages[at].id);
    }
}

} // verus!

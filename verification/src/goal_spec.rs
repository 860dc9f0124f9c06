//! The tools through which a model works on the goal of its thread.

use vstd::prelude::*;

verus! {

/// The name of the tool that reads a goal.
pub const GET_GOAL_TOOL_NAME: &'static str = "get_goal";

/// The name of the tool that creates a goal.
pub const CREATE_GOAL_TOOL_NAME: &'static str = "create_goal";

/// The name of the tool that updates a goal.
pub const UPDATE_GOAL_TOOL_NAME: &'static str = "update_goal";

/// What the tool that reads a goal does.
pub const GET_DESCRIPTION: &'static str = "Get the current goal for this thread, including status, budgets, token and elapsed-time usage, and remaining token budget.";

/// When a model may create a goal.
pub const CREATE_DESCRIPTION: &'static str = "Create a goal only when explicitly requested by the user or system/developer instructions; do not infer goals from ordinary tasks.\nSet token_budget only when an explicit token budget is requested. Fails if an unfinished goal exists; use update_goal for status or user-requested schedule changes.\nUse user-requested deadlines only. Clarify ambiguous times such as 'by morning'; do not invent a deadline.";

/// When a model may update a goal, and how.
pub const UPDATE_DESCRIPTION: &'static str = "Update the existing goal: supply either status, stages (with optional timezone), or stage_id plus delivered_artifact.\nRevise deadlines only when the user requests a schedule change. Never silently postpone an overdue stage. A delivered stage does not complete later stages.\nSet status to `paused` only at the user's explicit request to pause this goal, never on your own initiative. Ask if unclear; a later resume revokes that request. Report the returned status and stop goal work. Budget limits take precedence over pausing.\nSet status to `complete` only when the objective has actually been achieved and no required work remains.\nSet status to `blocked` only when the same blocking condition has repeated for at least three consecutive goal turns, counting the original/user-triggered turn and any automatic continuations, and the agent cannot make meaningful progress without user input or an external-state change.\nIf the user resumes a goal that was previously marked `blocked`, treat the resumed run as a fresh blocked audit. If the same blocking condition then repeats for at least three consecutive resumed goal turns, set status to `blocked` again.\nOnce the blocked threshold is satisfied, do not keep reporting that you are still blocked while leaving the goal active; set status to `blocked`.\nDo not use `blocked` merely because the work is hard, slow, uncertain, incomplete, or would benefit from clarification.\nDo not mark a goal complete merely because its budget is nearly exhausted or because you are stopping work.\nYou cannot use this tool to resume, budget-limit, or usage-limit a goal; those status changes are controlled by the user or system.\nWhen marking a budgeted goal achieved with status `complete`, report the final token usage from the tool result to the user.";

/// What the objective of a new goal is for.
pub const OBJECTIVE_FIELD: &'static str = "Required. The concrete objective to start pursuing. This starts a new active goal when no goal exists or replaces the current goal when it is complete.";

/// What the token budget of a new goal is for.
pub const TOKEN_BUDGET_FIELD: &'static str = "Positive token budget for the new goal. Omit unless explicitly requested.";

/// What the timezone of a new goal is for.
pub const TIMEZONE_FIELD: &'static str = "Optional IANA timezone for deadline display.";

/// Which status a model may give a goal.
pub const STATUS_FIELD: &'static str = "Optional when revising a schedule or recording stage delivery. `paused` requires an explicit user request. Set to `complete` only when the objective is achieved and no required work remains. Set to `blocked` only after the same blocking condition has recurred for at least three consecutive goal turns and the agent is at an impasse. After a previously blocked goal is resumed, the resumed run starts a fresh blocked audit.";

/// What the timezone of a revised schedule is for.
pub const NEW_TIMEZONE_FIELD: &'static str = "Optional IANA timezone when revising the user-requested schedule.";

/// Which stage a delivery is for.
pub const STAGE_ID_FIELD: &'static str = "Stage being delivered; requires delivered_artifact. Does not complete the whole goal.";

/// What a delivered artifact is.
pub const DELIVERED_ARTIFACT_FIELD: &'static str = "Reference to an actually delivered, usable result. Runtime stamps delivery time. Do not mark a missing artifact delivered.";

/// What the stages of a goal are for.
pub const STAGES_FIELD: &'static str = "Optional ordered milestones. Only revise them when the user requests a schedule change; delivery evidence is server-owned.";

/// What a simple field holds.
#[derive(Debug, PartialEq, Eq)]
pub enum FieldKind {
    Text,
    Integer,
    /// One of these texts.
    Choice(Vec<&'static str>),
}

/// A simple field of an object.
#[derive(Debug, PartialEq, Eq)]
pub struct Field {
    pub name: &'static str,
    pub kind: FieldKind,
    pub description: &'static str,
}

/// A field that holds a list of objects. No object has fields beyond these.
#[derive(Debug, PartialEq, Eq)]
pub struct ListField {
    pub name: &'static str,
    pub fields: Vec<Field>,
    pub required: Vec<&'static str>,
    pub description: &'static str,
}

/// A parameter of a tool.
#[derive(Debug, PartialEq, Eq)]
pub enum Parameter {
    Simple(Field),
    List(ListField),
}

/// A tool as it is offered to a model. Its parameters stand in the order of their names, and a call
/// has no others. It is neither strict nor deferred, and says nothing of its output.
#[derive(Debug, PartialEq, Eq)]
pub struct ToolSpec {
    pub name: &'static str,
    pub description: &'static str,
    pub strict: bool,
    pub parameters: Vec<Parameter>,
    pub required: Vec<&'static str>,
}

/// What the kind of a field stands for.
pub enum FieldKindModel {
    Text,
    Integer,
    Choice(Seq<Seq<char>>),
}

/// What a simple field stands for.
pub struct FieldModel {
    pub name: Seq<char>,
    pub kind: FieldKindModel,
    pub description: Seq<char>,
}

/// What a parameter stands for.
pub enum ParameterModel {
    Simple(FieldModel),
    List {
        name: Seq<char>,
        fields: Seq<FieldModel>,
        required: Seq<Seq<char>>,
        description: Seq<char>,
    },
}

/// What a tool stands for.
pub struct ToolModel {
    pub name: Seq<char>,
    pub description: Seq<char>,
    pub strict: bool,
    pub parameters: Seq<ParameterModel>,
    pub required: Seq<Seq<char>>,
}

/// The texts of a list.
pub open spec fn texts(list: Seq<&'static str>) -> Seq<Seq<char>> {
    list.map_values(|text: &'static str| text@)
}

impl DeepView for Field {
    type V = FieldModel;

    open spec fn deep_view(&self) -> FieldModel {
        FieldModel {
            name: self.name@,
            kind: match self.kind {
                FieldKind::Text => FieldKindModel::Text,
                FieldKind::Integer => FieldKindModel::Integer,
                FieldKind::Choice(values) => FieldKindModel::Choice(texts(values@)),
            },
            description: self.description@,
        }
    }
}

impl DeepView for Parameter {
    type V = ParameterModel;

    open spec fn deep_view(&self) -> ParameterModel {
        match self {
            Parameter::Simple(field) => ParameterModel::Simple(field.deep_view()),
            Parameter::List(list) => ParameterModel::List {
                name: list.name@,
                fields: list.fields.deep_view(),
                required: texts(list.required@),
                description: list.description@,
            },
        }
    }
}

impl DeepView for ToolSpec {
    type V = ToolModel;

    open spec fn deep_view(&self) -> ToolModel {
        ToolModel {
            name: self.name@,
            description: self.description@,
            strict: self.strict,
            parameters: self.parameters.deep_view(),
            required: texts(self.required@),
        }
    }
}

/// A field that holds a text.
pub open spec fn text_field(name: Seq<char>, description: Seq<char>) -> FieldModel {
    FieldModel { name, kind: FieldKindModel::Text, description }
}

/// A field that holds an integer.
pub open spec fn integer_field(name: Seq<char>, description: Seq<char>) -> FieldModel {
    FieldModel { name, kind: FieldKindModel::Integer, description }
}

/// The stages of a goal as a parameter: each with an id, a label, what is expected of it and a
/// deadline, all of them required.
pub open spec fn stages_parameter() -> ParameterModel {
    ParameterModel::List {
        name: "stages"@,
        fields: seq![
            integer_field("deadline_at"@, "Unix seconds deadline."@),
            text_field("expected_result"@, "Expected deliverable or evidence."@),
            text_field("id"@, "Stable stage id; retain it when revising this stage."@),
            text_field("label"@, "Short milestone label."@),
        ],
        required: seq!["id"@, "label"@, "expected_result"@, "deadline_at"@],
        description: STAGES_FIELD@,
    }
}

/// The tool that reads a goal.
pub open spec fn get_goal_tool() -> ToolModel {
    ToolModel {
        name: GET_GOAL_TOOL_NAME@,
        description: GET_DESCRIPTION@,
        strict: false,
        parameters: Seq::empty(),
        required: Seq::empty(),
    }
}

/// The tool that creates a goal.
pub open spec fn create_goal_tool() -> ToolModel {
    ToolModel {
        name: CREATE_GOAL_TOOL_NAME@,
        description: CREATE_DESCRIPTION@,
        strict: false,
        parameters: seq![
            ParameterModel::Simple(text_field("objective"@, OBJECTIVE_FIELD@)),
            stages_parameter(),
            ParameterModel::Simple(text_field("timezone"@, TIMEZONE_FIELD@)),
            ParameterModel::Simple(integer_field("token_budget"@, TOKEN_BUDGET_FIELD@)),
        ],
        required: seq!["objective"@],
    }
}

/// The statuses that a model may give a goal, in the words of the tool.
pub open spec fn offered_statuses() -> Seq<Seq<char>> {
    seq!["complete"@, "blocked"@, "paused"@]
}

/// The tool that updates a goal.
pub open spec fn update_goal_tool() -> ToolModel {
    ToolModel {
        name: UPDATE_GOAL_TOOL_NAME@,
        description: UPDATE_DESCRIPTION@,
        strict: false,
        parameters: seq![
            ParameterModel::Simple(text_field("delivered_artifact"@, DELIVERED_ARTIFACT_FIELD@)),
            ParameterModel::Simple(text_field("stage_id"@, STAGE_ID_FIELD@)),
            stages_parameter(),
            ParameterModel::Simple(
                FieldModel {
                    name: "status"@,
                    kind: FieldKindModel::Choice(offered_statuses()),
                    description: STATUS_FIELD@,
                },
            ),
            ParameterModel::Simple(text_field("timezone"@, NEW_TIMEZONE_FIELD@)),
        ],
        required: Seq::empty(),
    }
}

fn text_of_field(name: &'static str, description: &'static str) -> (field: Field)
    ensures
        field.deep_view() == text_field(name@, description@),
{
    Field { name, kind: FieldKind::Text, description }
}

fn integer_of_field(name: &'static str, description: &'static str) -> (field: Field)
    ensures
        field.deep_view() == integer_field(name@, description@),
{
    Field { name, kind: FieldKind::Integer, description }
}

/// The stages of a goal as a parameter.
pub fn stage_schema() -> (parameter: Parameter)
    ensures
        parameter.deep_view() == stages_parameter(),
{
    let fields = vec![
        integer_of_field("deadline_at", "Unix seconds deadline."),
        text_of_field("expected_result", "Expected deliverable or evidence."),
        text_of_field("id", "Stable stage id; retain it when revising this stage."),
        text_of_field("label", "Short milestone label."),
    ];
    let required = vec!["id", "label", "expected_result", "deadline_at"];
    let parameter = Parameter::List(
        ListField { name: "stages", fields, required, description: STAGES_FIELD },
    );
    proof {
        assert(fields.deep_view() =~= stages_parameter()->fields);
        assert(texts(required@) =~= stages_parameter()->required);
    }
    parameter
}

/// The tool that reads a goal.
pub fn create_get_goal_tool() -> (tool: ToolSpec)
    ensures
        tool.deep_view() == get_goal_tool(),
{
    let tool = ToolSpec {
        name: GET_GOAL_TOOL_NAME,
        description: GET_DESCRIPTION,
        strict: false,
        parameters: Vec::new(),
        required: Vec::new(),
    };
    proof {
        assert(tool.deep_view().parameters =~= get_goal_tool().parameters);
        assert(tool.deep_view().required =~= get_goal_tool().required);
    }
    tool
}

/// The tool that creates a goal.
pub fn create_create_goal_tool() -> (tool: ToolSpec)
    ensures
        tool.deep_view() == create_goal_tool(),
{
    let tool = ToolSpec {
        name: CREATE_GOAL_TOOL_NAME,
        description: CREATE_DESCRIPTION,
        strict: false,
        parameters: vec![
            Parameter::Simple(text_of_field("objective", OBJECTIVE_FIELD)),
            stage_schema(),
            Parameter::Simple(text_of_field("timezone", TIMEZONE_FIELD)),
            Parameter::Simple(integer_of_field("token_budget", TOKEN_BUDGET_FIELD)),
        ],
        required: vec!["objective"],
    };
    proof {
        assert(tool.deep_view().parameters =~= create_goal_tool().parameters);
        assert(tool.deep_view().required =~= create_goal_tool().required);
    }
    tool
}

/// The tool that updates a goal.
pub fn create_update_goal_tool() -> (tool: ToolSpec)
    ensures
        tool.deep_view() == update_goal_tool(),
{
    let values = vec!["complete", "blocked", "paused"];
    let status = Field {
        name: "status",
        kind: FieldKind::Choice(values),
        description: STATUS_FIELD,
    };
    let tool = ToolSpec {
        name: UPDATE_GOAL_TOOL_NAME,
        description: UPDATE_DESCRIPTION,
        strict: false,
        parameters: vec![
            Parameter::Simple(text_of_field("delivered_artifact", DELIVERED_ARTIFACT_FIELD)),
            Parameter::Simple(text_of_field("stage_id", STAGE_ID_FIELD)),
            stage_schema(),
            Parameter::Simple(status),
            Parameter::Simple(text_of_field("timezone", NEW_TIMEZONE_FIELD)),
        ],
        required: Vec::new(),
    };
    proof {
        assert(texts(values@) =~= offered_statuses());
        assert(tool.deep_view().parameters =~= update_goal_tool().parameters);
        assert(tool.deep_view().required =~= update_goal_tool().required);
    }
    tool
}

/// The stages of a goal are a list of objects with four fields, all of them required; the deadline
/// alone is a number.
pub proof fn lemma_fields_of_a_stage()
    ensures
        stages_parameter() matches ParameterModel::List { name, fields, required, description } && {
            &&& name == "stages"@
            &&& description == STAGES_FIELD@
            &&& fields.len() == 4
            &&& fields[0].name == "deadline_at"@ && fields[0].kind is Integer
                && fields[0].description == "Unix seconds deadline."@
            &&& fields[1].name == "expected_result"@ && fields[1].kind is Text
                && fields[1].description == "Expected deliverable or evidence."@
            &&& fields[2].name == "id"@ && fields[2].kind is Text && fields[2].description
                == "Stable stage id; retain it when revising this stage."@
            &&& fields[3].name == "label"@ && fields[3].kind is Text && fields[3].description
                == "Short milestone label."@
            &&& forall|i: int|
                0 <= i < 4 ==> required.contains(#[trigger] fields[i].name)
            &&& required.len() == 4
        },
{
    let required = stages_parameter()->required;
    assert(required[0] == "id"@);
    assert(required[1] == "label"@);
    assert(required[2] == "expected_result"@);
    assert(required[3] == "deadline_at"@);
}

/// Creating a goal takes an objective, which is required, and may take stages, a timezone and a number
/// of tokens; reading one takes nothing.
pub proof fn lemma_parameters_of_creation()
    ensures
        ({
            let all = create_goal_tool().parameters;
            &&& create_goal_tool().name == "create_goal"@
            &&& !create_goal_tool().strict
            &&& create_goal_tool().required == seq!["objective"@]
            &&& all.len() == 4
            &&& all[0] matches ParameterModel::Simple(field) && field.name == "objective"@
                && field.kind is Text && field.description == OBJECTIVE_FIELD@
            &&& all[1] == stages_parameter()
            &&& all[2] matches ParameterModel::Simple(zone) && zone.name == "timezone"@
                && zone.kind is Text && zone.description == TIMEZONE_FIELD@
            &&& all[3] matches ParameterModel::Simple(budget) && budget.name == "token_budget"@
                && budget.kind is Integer && budget.description == TOKEN_BUDGET_FIELD@
        }),
        get_goal_tool().name == "get_goal"@,
        !get_goal_tool().strict,
        get_goal_tool().parameters.len() == 0,
        get_goal_tool().required.len() == 0,
{
}

/// Updating a goal requires nothing, and may take an artifact with its stage, stages with a timezone,
/// or one of three statuses: no other status can be given.
pub proof fn lemma_parameters_of_an_update(status: Seq<char>)
    ensures
        ({
            let all = update_goal_tool().parameters;
            &&& update_goal_tool().name == "update_goal"@
            &&& !update_goal_tool().strict
            &&& update_goal_tool().required.len() == 0
            &&& all.len() == 5
            &&& all[0] matches ParameterModel::Simple(artifact) && artifact.name
                == "delivered_artifact"@ && artifact.kind is Text && artifact.description
                == DELIVERED_ARTIFACT_FIELD@
            &&& all[1] matches ParameterModel::Simple(stage) && stage.name == "stage_id"@
                && stage.kind is Text && stage.description == STAGE_ID_FIELD@
            &&& all[2] == stages_parameter()
            &&& all[3] matches ParameterModel::Simple(field) && field.name == "status"@
                && field.description == STATUS_FIELD@ && (field.kind matches FieldKindModel::Choice(
                values,
            ) && (values.contains(status) <==> status == "complete"@ || status == "blocked"@
                || status == "paused"@))
            &&& all[4] matches ParameterModel::Simple(zone) && zone.name == "timezone"@
                && zone.kind is Text && zone.description == NEW_TIMEZONE_FIELD@
        }),
{
    let values = offered_statuses();
    assert(values[0] == "complete"@);
    assert(values[1] == "blocked"@);
    assert(values[2] == "paused"@);
}

} // verus!

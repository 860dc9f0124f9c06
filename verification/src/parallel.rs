//! Calls of tools that run at the same time: which calls are the same, and how each of them gets
//! its answer.

use crate::errors::CodexErr;
use crate::goal_tool::FunctionCallError;
use crate::history::{
    BodyModel, FunctionCallOutputBody, FunctionCallOutputPayload, PayloadModel,
};
use crate::lists::{
    first_where, lemma_first_where, lemma_first_where_skip, lemma_models_of, lemma_push_deep_view,
};
use crate::text::same_text;
use vstd::prelude::*;

verus! {

/// The name of a tool.
#[derive(Debug, PartialEq, Eq)]
pub struct ToolName {
    pub name: String,
    pub namespace: Option<String>,
    /// The name as it is shown, with its namespace.
    pub shown: String,
}

/// What a tool is called with.
#[derive(Debug, PartialEq, Eq)]
pub enum ToolPayload {
    Function { arguments: String },
    ToolSearch { query: String, limit: Option<u64> },
    Custom { input: String },
    /// The parameters as they are shown for debugging.
    LocalShell { params: String },
    Mcp { server: String, tool: String, raw_arguments: String },
}

/// A call of a tool.
#[derive(Debug, PartialEq, Eq)]
pub struct ToolCall {
    pub tool_name: ToolName,
    pub call_id: String,
    pub payload: ToolPayload,
}

/// What a payload stands for.
pub enum ToolPayloadModel {
    Function { arguments: Seq<char> },
    ToolSearch { query: Seq<char>, limit: Option<u64> },
    Custom { input: Seq<char> },
    LocalShell { params: Seq<char> },
    Mcp { server: Seq<char>, tool: Seq<char>, raw_arguments: Seq<char> },
}

impl DeepView for ToolPayload {
    type V = ToolPayloadModel;

    open spec fn deep_view(&self) -> ToolPayloadModel {
        match self {
            ToolPayload::Function { arguments } => ToolPayloadModel::Function {
                arguments: arguments@,
            },
            ToolPayload::ToolSearch { query, limit } => ToolPayloadModel::ToolSearch {
                query: query@,
                limit: *limit,
            },
            ToolPayload::Custom { input } => ToolPayloadModel::Custom { input: input@ },
            ToolPayload::LocalShell { params } => ToolPayloadModel::LocalShell { params: params@ },
            ToolPayload::Mcp { server, tool, raw_arguments } => ToolPayloadModel::Mcp {
                server: server@,
                tool: tool@,
                raw_arguments: raw_arguments@,
            },
        }
    }
}

impl Clone for ToolPayload {
    fn clone(&self) -> (copy: Self)
        ensures
            copy.deep_view() == self.deep_view(),
    {
        match self {
            ToolPayload::Function { arguments } => ToolPayload::Function {
                arguments: arguments.clone(),
            },
            ToolPayload::ToolSearch { query, limit } => ToolPayload::ToolSearch {
                query: query.clone(),
                limit: *limit,
            },
            ToolPayload::Custom { input } => ToolPayload::Custom { input: input.clone() },
            ToolPayload::LocalShell { params } => ToolPayload::LocalShell {
                params: params.clone(),
            },
            ToolPayload::Mcp { server, tool, raw_arguments } => ToolPayload::Mcp {
                server: server.clone(),
                tool: tool.clone(),
                raw_arguments: raw_arguments.clone(),
            },
        }
    }
}

/// The text of a JSON object with these texts and these numbers, a missing number as null.
pub uninterp spec fn json_object_text(
    texts: Seq<(Seq<char>, Seq<char>)>,
    numbers: Seq<(Seq<char>, Option<u64>)>,
) -> Seq<char>;

/// Calls `to_string` of `serde_json::Value` on an object with these fields. The text is named, not
/// described.
#[verifier::external_body]
fn json_object(texts: &Vec<(String, String)>, numbers: &Vec<(String, Option<u64>)>) -> (text: String)
    ensures
        text@ == json_object_text(texts.deep_view(), numbers.deep_view()),
{
    let text_fields = texts.iter().map(|(k, v)| (k.clone(), serde_json::Value::from(v.as_str())));
    let number_fields = numbers.iter().map(|(k, n)| (k.clone(), serde_json::Value::from(*n)));
    serde_json::Value::Object(text_fields.chain(number_fields).collect()).to_string()
}

/// What tells one payload from another.
pub open spec fn payload_key(payload: ToolPayloadModel) -> Seq<char> {
    match payload {
        ToolPayloadModel::Function { arguments } => "function:"@ + arguments,
        ToolPayloadModel::ToolSearch { query, limit } => json_object_text(
            seq![("kind"@, "tool_search"@), ("query"@, query)],
            seq![("limit"@, limit)],
        ),
        ToolPayloadModel::Custom { input } => "custom:"@ + input,
        ToolPayloadModel::LocalShell { params } => "local_shell:"@ + params,
        ToolPayloadModel::Mcp { server, tool, raw_arguments } => json_object_text(
            seq![
                ("kind"@, "mcp"@),
                ("server"@, server),
                ("tool"@, tool),
                ("raw_arguments"@, raw_arguments),
            ],
            Seq::empty(),
        ),
    }
}

/// What tells one call from another: the tool and what it is called with, but not the id.
pub open spec fn dedupe_key(shown: Seq<char>, payload: ToolPayloadModel) -> Seq<char> {
    shown + ":"@ + payload_key(payload)
}

fn tagged(tag: &str, text: &String) -> (key: String)
    ensures
        key@ == tag@ + text@,
{
    let mut key = tag.to_owned();
    key.append(text.as_str());
    key
}

fn key_of_payload(payload: &ToolPayload) -> (key: String)
    ensures
        key@ == payload_key(payload.deep_view()),
{
    match payload {
        ToolPayload::Function { arguments } => tagged("function:", arguments),
        ToolPayload::ToolSearch { query, limit } => {
            let texts = vec![
                ("kind".to_owned(), "tool_search".to_owned()),
                ("query".to_owned(), query.clone()),
            ];
            let numbers = vec![("limit".to_owned(), *limit)];
            proof {
                assert(texts.deep_view() =~= seq![("kind"@, "tool_search"@), ("query"@, query@)]);
                assert(numbers.deep_view() =~= seq![("limit"@, *limit)]);
            }
            json_object(&texts, &numbers)
        },
        ToolPayload::Custom { input } => tagged("custom:", input),
        ToolPayload::LocalShell { params } => tagged("local_shell:", params),
        ToolPayload::Mcp { server, tool, raw_arguments } => {
            let texts = vec![
                ("kind".to_owned(), "mcp".to_owned()),
                ("server".to_owned(), server.clone()),
                ("tool".to_owned(), tool.clone()),
                ("raw_arguments".to_owned(), raw_arguments.clone()),
            ];
            let numbers: Vec<(String, Option<u64>)> = Vec::new();
            proof {
                assert(texts.deep_view() =~= seq![
                    ("kind"@, "mcp"@),
                    ("server"@, server@),
                    ("tool"@, tool@),
                    ("raw_arguments"@, raw_arguments@),
                ]);
                assert(numbers.deep_view() =~= Seq::empty());
            }
            json_object(&texts, &numbers)
        },
    }
}

/// What tells one call from another.
pub fn tool_call_dedupe_key(call: &ToolCall) -> (key: String)
    ensures
        key@ == dedupe_key(call.tool_name.shown@, call.payload.deep_view()),
{
    let mut key = call.tool_name.shown.clone();
    key.append(":");
    key.append(key_of_payload(&call.payload).as_str());
    key
}

/// The answer to a call. What the library does not read of it is kept as a text.
#[derive(Debug, PartialEq, Eq)]
pub enum ResponseInputItem {
    FunctionCallOutput { call_id: String, output: FunctionCallOutputPayload },
    McpToolCallOutput { call_id: String, mcp_output: String },
    CustomToolCallOutput {
        call_id: String,
        name: Option<String>,
        output: FunctionCallOutputPayload,
    },
    ToolSearchOutput { call_id: String, status: String, execution: String, tools: Vec<String> },
    /// A message, which is the answer to no call in particular.
    Message { details: String },
}

/// What an answer stands for.
pub enum AnswerModel {
    FunctionCallOutput { call_id: Seq<char>, output: PayloadModel },
    McpToolCallOutput { call_id: Seq<char>, mcp_output: Seq<char> },
    CustomToolCallOutput {
        call_id: Seq<char>,
        name: Option<Seq<char>>,
        output: PayloadModel,
    },
    ToolSearchOutput {
        call_id: Seq<char>,
        status: Seq<char>,
        execution: Seq<char>,
        tools: Seq<Seq<char>>,
    },
    Message { details: Seq<char> },
}

impl DeepView for ResponseInputItem {
    type V = AnswerModel;

    open spec fn deep_view(&self) -> AnswerModel {
        match self {
            ResponseInputItem::FunctionCallOutput { call_id, output } =>
            AnswerModel::FunctionCallOutput { call_id: call_id@, output: output.deep_view() },
            ResponseInputItem::McpToolCallOutput { call_id, mcp_output } =>
            AnswerModel::McpToolCallOutput { call_id: call_id@, mcp_output: mcp_output@ },
            ResponseInputItem::CustomToolCallOutput { call_id, name, output } =>
            AnswerModel::CustomToolCallOutput {
                call_id: call_id@,
                name: name.deep_view(),
                output: output.deep_view(),
            },
            ResponseInputItem::ToolSearchOutput { call_id, status, execution, tools } =>
            AnswerModel::ToolSearchOutput {
                call_id: call_id@,
                status: status@,
                execution: execution@,
                tools: tools.deep_view(),
            },
            ResponseInputItem::Message { details } => AnswerModel::Message { details: details@ },
        }
    }
}

/// An answer, given to the call of an id.
pub open spec fn answer_to(response: AnswerModel, call_id: Seq<char>) -> AnswerModel {
    match response {
        AnswerModel::FunctionCallOutput { output, .. } => AnswerModel::FunctionCallOutput {
            call_id,
            output,
        },
        AnswerModel::McpToolCallOutput { mcp_output, .. } => AnswerModel::McpToolCallOutput {
            call_id,
            mcp_output,
        },
        AnswerModel::CustomToolCallOutput { name, output, .. } =>
        AnswerModel::CustomToolCallOutput { call_id, name, output },
        AnswerModel::ToolSearchOutput { status, execution, tools, .. } =>
        AnswerModel::ToolSearchOutput { call_id, status, execution, tools },
        AnswerModel::Message { .. } => response,
    }
}

fn copy_texts(texts: &Vec<String>) -> (copy: Vec<String>)
    ensures
        copy.deep_view() == texts.deep_view(),
{
    let copy = texts.clone();
    proof {
        assert(copy.deep_view() =~= texts.deep_view());
    }
    copy
}

/// An answer, given to the call of an id.
pub fn response_with_call_id(response: &ResponseInputItem, call_id: String) -> (answer:
    ResponseInputItem)
    ensures
        answer.deep_view() == answer_to(response.deep_view(), call_id@),
{
    match response {
        ResponseInputItem::FunctionCallOutput { output, .. } => {
            ResponseInputItem::FunctionCallOutput { call_id, output: output.clone() }
        },
        ResponseInputItem::McpToolCallOutput { mcp_output, .. } => {
            ResponseInputItem::McpToolCallOutput { call_id, mcp_output: mcp_output.clone() }
        },
        ResponseInputItem::CustomToolCallOutput { name, output, .. } => {
            ResponseInputItem::CustomToolCallOutput {
                call_id,
                name: name.clone(),
                output: output.clone(),
            }
        },
        ResponseInputItem::ToolSearchOutput { status, execution, tools, .. } => {
            ResponseInputItem::ToolSearchOutput {
                call_id,
                status: status.clone(),
                execution: execution.clone(),
                tools: copy_texts(tools),
            }
        },
        ResponseInputItem::Message { details } => ResponseInputItem::Message {
            details: details.clone(),
        },
    }
}

/// The answer to a call that failed.
pub open spec fn failure_answer(
    call_id: Seq<char>,
    payload: ToolPayloadModel,
    message: Seq<char>,
) -> AnswerModel {
    let output = PayloadModel { body: BodyModel::Text(message), success: Some(false) };
    match payload {
        ToolPayloadModel::ToolSearch { .. } => AnswerModel::ToolSearchOutput {
            call_id,
            status: "completed"@,
            execution: "client"@,
            tools: Seq::empty(),
        },
        ToolPayloadModel::Custom { .. } => AnswerModel::CustomToolCallOutput {
            call_id,
            name: None,
            output,
        },
        _ => AnswerModel::FunctionCallOutput { call_id, output },
    }
}

/// The calls of one tool with one payload: their ids, and the answer once it is there.
#[derive(Debug, PartialEq, Eq)]
pub struct DuplicateToolCallGroup {
    pub call_ids: Vec<String>,
    pub response: Option<ResponseInputItem>,
}

/// What a group of calls stands for.
pub struct GroupModel {
    pub call_ids: Seq<Seq<char>>,
    pub response: Option<AnswerModel>,
}

impl DeepView for DuplicateToolCallGroup {
    type V = GroupModel;

    open spec fn deep_view(&self) -> GroupModel {
        GroupModel {
            call_ids: self.call_ids.deep_view(),
            response: self.response.deep_view(),
        }
    }
}

/// The answers of a group: one for each id, in their order.
pub open spec fn answers_for(call_ids: Seq<Seq<char>>, response: AnswerModel) -> Seq<AnswerModel> {
    call_ids.map_values(|call_id: Seq<char>| answer_to(response, call_id))
}

/// The answers to give now that a further call came: its own, once the answer is there.
pub open spec fn late_answers(group: GroupModel, call_id: Seq<char>) -> Seq<AnswerModel> {
    match group.response {
        Some(response) => seq![answer_to(response, call_id)],
        None => Seq::empty(),
    }
}

/// A group that a further call joined: it waits, unless the answer is there.
pub open spec fn joined(group: GroupModel, call_id: Seq<char>) -> GroupModel {
    match group.response {
        Some(_) => group,
        None => GroupModel { call_ids: group.call_ids.push(call_id), ..group },
    }
}

/// Keeps the answer of a group, and gives it to each call that waits.
pub fn expand_duplicate_tool_outputs(
    response: ResponseInputItem,
    group: &mut DuplicateToolCallGroup,
) -> (answers: Vec<ResponseInputItem>)
    ensures
        answers.deep_view() == answers_for(old(group).deep_view().call_ids, response.deep_view()),
        final(group).deep_view() == (GroupModel {
            response: Some(response.deep_view()),
            ..old(group).deep_view()
        }),
{
    let ghost ids = group.call_ids.deep_view();
    let ghost given = response.deep_view();
    let mut answers: Vec<ResponseInputItem> = Vec::new();
    let mut i: usize = 0;
    proof {
        assert(answers.deep_view() =~= answers_for(ids.take(0), given));
    }
    while i < group.call_ids.len()
        invariant
            i <= group.call_ids@.len(),
            ids == group.call_ids.deep_view(),
            given == response.deep_view(),
            *group == *old(group),
            answers.deep_view() == answers_for(ids.take(i as int), given),
        decreases group.call_ids@.len() - i,
    {
        let answer = response_with_call_id(&response, group.call_ids[i].clone());
        let ghost before = answers@;
        answers.push(answer);
        proof {
            lemma_push_deep_view(before, answers, answer);
            lemma_models_of(before);
            assert(answers_for(ids.take(i + 1), given) =~= answers_for(
                ids.take(i as int),
                given,
            ).push(answer_to(given, ids[i as int])));
        }
        i = i + 1;
    }
    proof {
        assert(ids.take(ids.len() as int) =~= ids);
    }
    group.response = Some(response);
    answers
}

/// Answers a further call of a group, or lets it wait for the answer.
pub fn clone_duplicate_tool_output(group: &mut DuplicateToolCallGroup, call_id: String) -> (answers:
    Vec<ResponseInputItem>)
    ensures
        answers.deep_view() == late_answers(old(group).deep_view(), call_id@),
        final(group).deep_view() == joined(old(group).deep_view(), call_id@),
{
    let mut answers: Vec<ResponseInputItem> = Vec::new();
    match &group.response {
        Some(response) => {
            let answer = response_with_call_id(response, call_id);
            answers.push(answer);
            proof {
                assert(answers.deep_view() =~= seq![answer.deep_view()]);
            }
        },
        None => {
            group.call_ids.push(call_id);
            proof {
                assert(group.call_ids.deep_view() =~= old(group).deep_view().call_ids.push(
                    call_id@,
                ));
                assert(answers.deep_view() =~= Seq::empty());
            }
        },
    }
    answers
}

/// A group that further calls joined, one after the other.
pub open spec fn joined_all(group: GroupModel, call_ids: Seq<Seq<char>>) -> GroupModel
    decreases call_ids.len(),
{
    if call_ids.len() == 0 {
        group
    } else {
        joined(joined_all(group, call_ids.drop_last()), call_ids.last())
    }
}

/// The answers that were given to further calls, one after the other.
pub open spec fn late_answers_all(group: GroupModel, call_ids: Seq<Seq<char>>) -> Seq<AnswerModel>
    decreases call_ids.len(),
{
    if call_ids.len() == 0 {
        Seq::empty()
    } else {
        late_answers_all(group, call_ids.drop_last()) + late_answers(
            joined_all(group, call_ids.drop_last()),
            call_ids.last(),
        )
    }
}

proof fn lemma_join_waiting(group: GroupModel, call_ids: Seq<Seq<char>>)
    requires
        group.response is None,
    ensures
        joined_all(group, call_ids) == (GroupModel { call_ids: group.call_ids + call_ids, ..group }),
        late_answers_all(group, call_ids).len() == 0,
    decreases call_ids.len(),
{
    if call_ids.len() > 0 {
        lemma_join_waiting(group, call_ids.drop_last());
        assert((group.call_ids + call_ids.drop_last()).push(call_ids.last()) =~= group.call_ids
            + call_ids);
    } else {
        assert(group.call_ids + call_ids =~= group.call_ids);
    }
}

proof fn lemma_join_answered(group: GroupModel, call_ids: Seq<Seq<char>>)
    requires
        group.response is Some,
    ensures
        joined_all(group, call_ids) == group,
        late_answers_all(group, call_ids) == answers_for(call_ids, group.response->0),
    decreases call_ids.len(),
{
    if call_ids.len() > 0 {
        lemma_join_answered(group, call_ids.drop_last());
        assert(late_answers_all(group, call_ids) =~= answers_for(call_ids, group.response->0));
    } else {
        assert(answers_for(call_ids, group.response->0) =~= Seq::empty());
    }
}

/// Each call of a group gets exactly one answer, whenever it comes: the first call, those that come
/// before the answer is there, and those that come after.
pub proof fn lemma_each_call_is_answered_once(
    first: Seq<char>,
    early: Seq<Seq<char>>,
    response: AnswerModel,
    late: Seq<Seq<char>>,
)
    ensures
        ({
            let opened = GroupModel { call_ids: seq![first], response: None };
            let waiting = joined_all(opened, early);
            let answered = GroupModel { response: Some(response), ..waiting };
            late_answers_all(opened, early) + answers_for(waiting.call_ids, response)
                + late_answers_all(answered, late) == answers_for(
                seq![first] + early + late,
                response,
            )
        }),
{
    let opened = GroupModel { call_ids: seq![first], response: None };
    let waiting = joined_all(opened, early);
    let answered = GroupModel { response: Some(response), ..waiting };
    lemma_join_waiting(opened, early);
    lemma_join_answered(answered, late);
    assert(late_answers_all(opened, early) + answers_for(waiting.call_ids, response)
        + late_answers_all(answered, late) =~= answers_for(seq![first] + early + late, response));
}

/// The calls of a session: the groups of equal calls, and where each group is found by its key.
#[derive(Debug, PartialEq, Eq)]
pub struct ToolCallRuntime {
    pub groups: Vec<DuplicateToolCallGroup>,
    /// The keys of the groups that further calls can join, with their positions.
    pub keys: Vec<(String, usize)>,
}

/// What the calls of a session stand for.
pub struct RuntimeModel {
    pub groups: Seq<GroupModel>,
    pub keys: Seq<(Seq<char>, usize)>,
}

impl DeepView for ToolCallRuntime {
    type V = RuntimeModel;

    open spec fn deep_view(&self) -> RuntimeModel {
        RuntimeModel { groups: self.groups.deep_view(), keys: self.keys.deep_view() }
    }
}

/// Whether an entry has a key.
pub open spec fn with_key(key: Seq<char>) -> spec_fn((Seq<char>, usize)) -> bool {
    |entry: (Seq<char>, usize)| entry.0 == key
}

/// What is kept of a group that no further call can join: nothing, once it has its answer.
pub open spec fn released(group: GroupModel) -> GroupModel {
    match group.response {
        Some(_) => GroupModel { call_ids: Seq::empty(), response: None },
        None => group,
    }
}

impl RuntimeModel {
    /// The calls once no further one can join the groups there are.
    pub open spec fn cleared(self) -> RuntimeModel {
        RuntimeModel {
            groups: self.groups.map_values(|group: GroupModel| released(group)),
            keys: Seq::empty(),
        }
    }

    /// Whether each key is that of one group.
    pub open spec fn is_well_formed(self) -> bool {
        &&& forall|i: int| 0 <= i < self.keys.len() ==> (#[trigger] self.keys[i]).1 < self.groups.len()
        &&& forall|i: int, j: int|
            0 <= i < j < self.keys.len() ==> (#[trigger] self.keys[i]).0 != (
            #[trigger] self.keys[j]).0
    }

    /// The group that a call with a key joins.
    pub open spec fn group_of(self, key: Seq<char>) -> Option<usize> {
        match first_where(self.keys, with_key(key)) {
            Some(entry) => Some(entry.1),
            None => None,
        }
    }

    /// The calls once a further one joined a group.
    pub open spec fn join(self, group: usize, call_id: Seq<char>) -> RuntimeModel {
        RuntimeModel {
            groups: self.groups.update(group as int, joined(self.groups[group as int], call_id)),
            ..self
        }
    }

    /// The calls once the first of a new group came.
    pub open spec fn open_group(self, key: Seq<char>, call_id: Seq<char>) -> RuntimeModel {
        RuntimeModel {
            groups: self.groups.push(GroupModel { call_ids: seq![call_id], response: None }),
            keys: self.keys.push((key, self.groups.len() as usize)),
        }
    }

    /// The calls once the answer of a group is there.
    pub open spec fn answered(self, group: usize, response: AnswerModel) -> RuntimeModel {
        RuntimeModel {
            groups: self.groups.update(
                group as int,
                GroupModel { response: Some(response), ..self.groups[group as int] },
            ),
            ..self
        }
    }
}

/// What to do with a call.
#[derive(Debug, PartialEq, Eq)]
pub enum CallStart {
    /// Give these answers: an equal call came before.
    Answered(Vec<ResponseInputItem>),
    /// Run the tool, for this group.
    Run { group: usize },
}

/// What came of running a tool.
#[derive(Debug, PartialEq, Eq)]
pub enum ToolOutcome {
    Response(ResponseInputItem),
    /// The session cannot go on.
    Fatal(String),
    /// The tool failed, with the error as it is shown.
    Failed(String),
}

/// How a tool takes part in running at the same time as others.
#[derive(Debug, Clone, Copy, PartialEq, Eq, Structural)]
pub enum LockMode {
    /// Beside others that do so too.
    Shared,
    /// Alone.
    Exclusive,
}

/// An aborted call.
#[derive(Debug, PartialEq, Eq)]
pub struct AbortedCall {
    pub call_id: String,
    pub payload: ToolPayload,
    pub message: String,
}

/// Whether a tool is one of the shells.
pub open spec fn is_shell(name: Seq<char>) -> bool {
    name == "shell"@ || name == "container.exec"@ || name == "local_shell"@ || name
        == "shell_command"@ || name == "unified_exec"@
}

/// What is said of a call that was aborted after some seconds.
pub open spec fn abort_text(tool: ToolName, seconds: Seq<char>) -> Seq<char> {
    if tool.namespace is None && is_shell(tool.name@) {
        "Wall time: "@ + seconds + " seconds\naborted by user"@
    } else {
        "aborted by user after "@ + seconds + "s"@
    }
}

impl ToolCallRuntime {
    /// The calls of a session that has made none.
    pub fn new() -> (runtime: Self)
        ensures
            runtime.deep_view() == (RuntimeModel { groups: Seq::empty(), keys: Seq::empty() }),
            runtime.deep_view().is_well_formed(),
    {
        let runtime = ToolCallRuntime { groups: Vec::new(), keys: Vec::new() };
        proof {
            assert(runtime.deep_view().groups =~= Seq::empty());
            assert(runtime.deep_view().keys =~= Seq::empty());
        }
        runtime
    }

    /// Lets no further call join the groups there are. Calls that wait still get their answers;
    /// what is kept of groups that have theirs is given up.
    pub fn clear_duplicate_tool_calls(&mut self)
        ensures
            final(self).deep_view() == old(self).deep_view().cleared(),
            final(self).deep_view().is_well_formed(),
    {
        let ghost before = self.deep_view();
        self.keys = Vec::new();
        let mut i: usize = 0;
        while i < self.groups.len()
            invariant
                i <= self.groups@.len() == before.groups.len(),
                self.keys@.len() == 0,
                forall|j: int|
                    0 <= j < i ==> (#[trigger] self.groups@[j]).deep_view() == released(
                        before.groups[j],
                    ),
                forall|j: int|
                    i <= j < before.groups.len() ==> (#[trigger] self.groups@[j]).deep_view()
                        == before.groups[j],
            decreases self.groups@.len() - i,
        {
            if self.groups[i].response.is_some() {
                let empty = DuplicateToolCallGroup { call_ids: Vec::new(), response: None };
                proof {
                    assert(empty.deep_view().call_ids =~= Seq::empty());
                }
                self.groups.set(i, empty);
            }
            i = i + 1;
        }
        proof {
            assert(self.deep_view().keys =~= Seq::empty());
            assert(self.deep_view().groups =~= before.cleared().groups);
        }
    }

    fn find_group(&self, key: &String) -> (group: Option<usize>)
        ensures
            group == self.deep_view().group_of(key@),
    {
        let ghost all = self.keys.deep_view();
        let ghost meets = with_key(key@);
        let mut i: usize = 0;
        proof {
            assert(all.skip(0) =~= all);
        }
        while i < self.keys.len()
            invariant
                i <= self.keys@.len(),
                all == self.keys.deep_view(),
                meets == with_key(key@),
                first_where(all, meets) == first_where(all.skip(i as int), meets),
            decreases self.keys@.len() - i,
        {
            proof {
                lemma_first_where_skip(all, meets, i as int);
            }
            if self.keys[i].0 == *key {
                return Some(self.keys[i].1);
            }
            i = i + 1;
        }
        None
    }

    /// Takes a call: an equal call that came before is joined, and else the tool is run.
    pub fn handle_tool_call(&mut self, call: &ToolCall) -> (start: CallStart)
        requires
            old(self).deep_view().is_well_formed(),
        ensures
            final(self).deep_view().is_well_formed(),
            ({
                let before = old(self).deep_view();
                let key = dedupe_key(call.tool_name.shown@, call.payload.deep_view());
                match before.group_of(key) {
                    Some(group) => {
                        &&& group < before.groups.len()
                        &&& start matches CallStart::Answered(answers) && answers.deep_view()
                            == late_answers(before.groups[group as int], call.call_id@)
                        &&& final(self).deep_view() == before.join(group, call.call_id@)
                    },
                    None => {
                        &&& start == (CallStart::Run { group: before.groups.len() as usize })
                        &&& before.groups.len() <= usize::MAX
                        &&& final(self).deep_view() == before.open_group(key, call.call_id@)
                    },
                }
            }),
    {
        let ghost before = self.deep_view();
        let key = tool_call_dedupe_key(call);
        proof {
            lemma_first_where(before.keys, with_key(key@));
        }
        match self.find_group(&key) {
            Some(group) => {
                let answers = clone_duplicate_tool_output(
                    &mut self.groups[group],
                    call.call_id.clone(),
                );
                proof {
                    assert(self.deep_view().groups =~= before.join(group, call.call_id@).groups);
                }
                CallStart::Answered(answers)
            },
            None => {
                let group: usize = self.groups.len();
                let mut call_ids: Vec<String> = Vec::new();
                call_ids.push(call.call_id.clone());
                proof {
                    assert(call_ids.deep_view() =~= seq![call.call_id@]);
                }
                self.groups.push(DuplicateToolCallGroup { call_ids, response: None });
                self.keys.push((key, group));
                proof {
                    let after = before.open_group(key@, call.call_id@);
                    assert(self.deep_view().groups =~= after.groups);
                    assert(self.deep_view().keys =~= after.keys);
                }
                CallStart::Run { group }
            },
        }
    }

    /// Takes what came of running the tool of a group, and answers each call that waits. Only where
    /// the session cannot go on is there no answer.
    pub fn finish_tool_call(&mut self, group: usize, call: &ToolCall, outcome: ToolOutcome) -> (
        result: Result<Vec<ResponseInputItem>, CodexErr>)
        requires
            old(self).deep_view().is_well_formed(),
            group < old(self).deep_view().groups.len(),
        ensures
            final(self).deep_view().is_well_formed(),
            match outcome {
                ToolOutcome::Fatal(message) => {
                    &&& result == Err::<Vec<ResponseInputItem>, CodexErr>(CodexErr::Fatal(message))
                    &&& final(self).deep_view() == old(self).deep_view()
                },
                ToolOutcome::Response(response) => {
                    &&& result matches Ok(answers) && answers.deep_view() == answers_for(
                        old(self).deep_view().groups[group as int].call_ids,
                        response.deep_view(),
                    )
                    &&& final(self).deep_view() == old(self).deep_view().answered(
                        group,
                        response.deep_view(),
                    )
                },
                ToolOutcome::Failed(message) => {
                    let response = failure_answer(
                        call.call_id@,
                        call.payload.deep_view(),
                        message@,
                    );
                    &&& result matches Ok(answers) && answers.deep_view() == answers_for(
                        old(self).deep_view().groups[group as int].call_ids,
                        response,
                    )
                    &&& final(self).deep_view() == old(self).deep_view().answered(group, response)
                },
            },
    {
        let ghost before = self.deep_view();
        let response = match outcome {
            ToolOutcome::Response(response) => response,
            ToolOutcome::Fatal(message) => {
                return Err(CodexErr::Fatal(message));
            },
            ToolOutcome::Failed(message) => Self::failure_response(call, message),
        };
        let ghost given = response.deep_view();
        let answers = expand_duplicate_tool_outputs(response, &mut self.groups[group]);
        proof {
            assert(self.deep_view().groups =~= before.answered(group, given).groups);
        }
        Ok(answers)
    }

    /// The answer to a call that failed with an error, as it is shown.
    pub fn failure_response(call: &ToolCall, message: String) -> (response: ResponseInputItem)
        ensures
            response.deep_view() == failure_answer(
                call.call_id@,
                call.payload.deep_view(),
                message@,
            ),
    {
        let output = FunctionCallOutputPayload {
            body: FunctionCallOutputBody::Text(message),
            success: Some(false),
        };
        match &call.payload {
            ToolPayload::ToolSearch { .. } => {
                let tools: Vec<String> = Vec::new();
                proof {
                    assert(tools.deep_view() =~= Seq::empty());
                }
                ResponseInputItem::ToolSearchOutput {
                    call_id: call.call_id.clone(),
                    status: "completed".to_owned(),
                    execution: "client".to_owned(),
                    tools,
                }
            },
            ToolPayload::Custom { .. } => ResponseInputItem::CustomToolCallOutput {
                call_id: call.call_id.clone(),
                name: None,
                output,
            },
            _ => ResponseInputItem::FunctionCallOutput { call_id: call.call_id.clone(), output },
        }
    }

    /// How a tool is run: beside others where it supports that, and else alone.
    pub fn lock_mode(supports_parallel: bool) -> (mode: LockMode)
        ensures
            mode == if supports_parallel {
                LockMode::Shared
            } else {
                LockMode::Exclusive
            },
    {
        if supports_parallel {
            LockMode::Shared
        } else {
            LockMode::Exclusive
        }
    }

    /// The error of a call whose task did not end, with the reason as it is shown for debugging.
    pub fn task_failed(reason: &str) -> (error: FunctionCallError)
        ensures
            error matches FunctionCallError::Fatal(message) && message@
                == "tool task failed to receive: "@ + reason@,
    {
        let mut message = "tool task failed to receive: ".to_owned();
        message.append(reason);
        FunctionCallError::Fatal(message)
    }

    /// The result of a call that was aborted. `seconds` is the time that it ran, as it is shown.
    pub fn aborted_response(call: &ToolCall, seconds: &str) -> (aborted: AbortedCall)
        ensures
            aborted.call_id@ == call.call_id@,
            aborted.payload.deep_view() == call.payload.deep_view(),
            aborted.message@ == abort_text(call.tool_name, seconds@),
    {
        AbortedCall {
            call_id: call.call_id.clone(),
            payload: call.payload.clone(),
            message: Self::abort_message(call, seconds),
        }
    }

    /// What is said of a call that was aborted.
    pub fn abort_message(call: &ToolCall, seconds: &str) -> (message: String)
        ensures
            message@ == abort_text(call.tool_name, seconds@),
    {
        let name = call.tool_name.name.as_str();
        if call.tool_name.namespace.is_none() && (same_text(name, "shell") || same_text(
            name,
            "container.exec",
        ) || same_text(name, "local_shell") || same_text(name, "shell_command") || same_text(
            name,
            "unified_exec",
        )) {
            let mut message = "Wall time: ".to_owned();
            message.append(seconds);
            message.append(" seconds\naborted by user");
            message
        } else {
            let mut message = "aborted by user after ".to_owned();
            message.append(seconds);
            message.append("s");
            message
        }
    }
}

/// Equal calls are the same call to a session: the key speaks of the tool and its payload alone.
pub proof fn lemma_equal_calls_join(
    before: RuntimeModel,
    shown: Seq<char>,
    payload: ToolPayloadModel,
    call_id: Seq<char>,
)
    requires
        before.is_well_formed(),
        before.groups.len() <= usize::MAX,
        before.group_of(dedupe_key(shown, payload)) is None,
    ensures
        before.open_group(dedupe_key(shown, payload), call_id).group_of(dedupe_key(shown, payload))
            == Some(before.groups.len() as usize),
{
    let key = dedupe_key(shown, payload);
    let meets = with_key(key);
    let after = before.open_group(key, call_id);
    lemma_first_where(before.keys, meets);
    lemma_first_where(after.keys, meets);
    let last = after.keys[before.keys.len() as int];
    assert(meets(last));
    let found = first_where(after.keys, meets)->0;
    let i = choose|i: int| 0 <= i < after.keys.len() && after.keys[i] == found;
    if i < before.keys.len() {
        assert(before.keys[i] == found);
        assert(!meets(before.keys[i]));
    }
}

/// An answer given to a call names that call, and is otherwise the answer that was there: of the
/// same kind and with the same content. A message answers no call in particular and stays as it is.
pub proof fn lemma_answer_names_its_call(
    first: Seq<char>,
    id: Seq<char>,
    output: PayloadModel,
    text: Seq<char>,
    name: Option<Seq<char>>,
    status: Seq<char>,
    execution: Seq<char>,
    tools: Seq<Seq<char>>,
)
    ensures
        answer_to(AnswerModel::FunctionCallOutput { call_id: first, output }, id) == (
        AnswerModel::FunctionCallOutput { call_id: id, output }),
        answer_to(AnswerModel::McpToolCallOutput { call_id: first, mcp_output: text }, id) == (
        AnswerModel::McpToolCallOutput { call_id: id, mcp_output: text }),
        answer_to(AnswerModel::CustomToolCallOutput { call_id: first, name, output }, id) == (
        AnswerModel::CustomToolCallOutput { call_id: id, name, output }),
        answer_to(
            AnswerModel::ToolSearchOutput { call_id: first, status, execution, tools },
            id,
        ) == (AnswerModel::ToolSearchOutput { call_id: id, status, execution, tools }),
        answer_to(AnswerModel::Message { details: text }, id) == (AnswerModel::Message {
            details: text,
        }),
{
}

/// Whether an answer is one to the call of an id.
pub open spec fn is_answer_to(answer: AnswerModel, id: Seq<char>) -> bool {
    match answer {
        AnswerModel::FunctionCallOutput { call_id, .. } => call_id == id,
        AnswerModel::McpToolCallOutput { call_id, .. } => call_id == id,
        AnswerModel::CustomToolCallOutput { call_id, .. } => call_id == id,
        AnswerModel::ToolSearchOutput { call_id, .. } => call_id == id,
        AnswerModel::Message { .. } => false,
    }
}

/// The calls of a group get their answers in their order, one each, and each under its own id; a
/// call that comes later gets one under its own id too.
pub proof fn lemma_group_is_answered_by_id(
    call_ids: Seq<Seq<char>>,
    late: Seq<char>,
    response: AnswerModel,
)
    requires
        !(response is Message),
    ensures
        answers_for(call_ids, response).len() == call_ids.len(),
        forall|i: int|
            0 <= i < call_ids.len() ==> is_answer_to(
                #[trigger] answers_for(call_ids, response)[i],
                call_ids[i],
            ),
        ({
            let answers = late_answers(GroupModel { call_ids, response: Some(response) }, late);
            answers.len() == 1 && is_answer_to(answers[0], late)
        }),
        late_answers(GroupModel { call_ids, response: None }, late).len() == 0,
{
}

/// A call that comes before the answer waits behind those that wait; one that comes after changes
/// nothing.
pub proof fn lemma_joining_a_group(
    call_ids: Seq<Seq<char>>,
    late: Seq<char>,
    response: AnswerModel,
)
    ensures
        joined(GroupModel { call_ids, response: None }, late) == (GroupModel {
            call_ids: call_ids.push(late),
            response: None,
        }),
        joined(GroupModel { call_ids, response: Some(response) }, late) == (GroupModel {
            call_ids,
            response: Some(response),
        }),
{
}

/// A failed call is answered in its own kind: a search with no tools, a custom tool with its own
/// kind of output, and every other call with the output of a function. The text is the error, and
/// the output says that the call did not succeed.
pub proof fn lemma_failure_is_answered_in_kind(
    id: Seq<char>,
    message: Seq<char>,
    a: Seq<char>,
    b: Seq<char>,
    c: Seq<char>,
    limit: Option<u64>,
)
    ensures
        ({
            let failed = PayloadModel { body: BodyModel::Text(message), success: Some(false) };
            let as_function = AnswerModel::FunctionCallOutput { call_id: id, output: failed };
            &&& failure_answer(id, ToolPayloadModel::Function { arguments: a }, message)
                == as_function
            &&& failure_answer(id, ToolPayloadModel::LocalShell { params: a }, message)
                == as_function
            &&& failure_answer(
                id,
                ToolPayloadModel::Mcp { server: a, tool: b, raw_arguments: c },
                message,
            ) == as_function
            &&& failure_answer(id, ToolPayloadModel::Custom { input: a }, message) == (
            AnswerModel::CustomToolCallOutput { call_id: id, name: None, output: failed })
            &&& failure_answer(id, ToolPayloadModel::ToolSearch { query: a, limit }, message) == (
            AnswerModel::ToolSearchOutput {
                call_id: id,
                status: "completed"@,
                execution: "client"@,
                tools: Seq::empty(),
            })
        }),
{
}

/// Two calls of one tool with payloads of the same textual kind are the same call only where the
/// payloads are.
pub proof fn lemma_keys_tell_payloads_apart(shown: Seq<char>, a: Seq<char>, b: Seq<char>)
    ensures
        dedupe_key(shown, ToolPayloadModel::Function { arguments: a }) == dedupe_key(
            shown,
            ToolPayloadModel::Function { arguments: b },
        ) ==> a == b,
        dedupe_key(shown, ToolPayloadModel::Custom { input: a }) == dedupe_key(
            shown,
            ToolPayloadModel::Custom { input: b },
        ) ==> a == b,
        dedupe_key(shown, ToolPayloadModel::LocalShell { params: a }) == dedupe_key(
            shown,
            ToolPayloadModel::LocalShell { params: b },
        ) ==> a == b,
        dedupe_key(shown, ToolPayloadModel::Function { arguments: a }) != dedupe_key(
            shown,
            ToolPayloadModel::Custom { input: b },
        ),
        dedupe_key(shown, ToolPayloadModel::Function { arguments: a }) != dedupe_key(
            shown,
            ToolPayloadModel::LocalShell { params: b },
        ),
        dedupe_key(shown, ToolPayloadModel::Custom { input: a }) != dedupe_key(
            shown,
            ToolPayloadModel::LocalShell { params: b },
        ),
{
    reveal_strlit("function:");
    reveal_strlit("custom:");
    reveal_strlit("local_shell:");
    reveal_strlit(":");
    lemma_key_parts(shown, "function:"@, a);
    lemma_key_parts(shown, "custom:"@, a);
    lemma_key_parts(shown, "local_shell:"@, a);
    lemma_key_parts(shown, "function:"@, b);
    lemma_key_parts(shown, "custom:"@, b);
    lemma_key_parts(shown, "local_shell:"@, b);
    assert("function:"@[0] == 'f');
    assert("custom:"@[0] == 'c');
    assert("local_shell:"@[0] == 'l');
}

proof fn lemma_key_parts(shown: Seq<char>, tag: Seq<char>, text: Seq<char>)
    requires
        ":"@.len() == 1,
        tag.len() > 0,
    ensures
        (shown + ":"@ + (tag + text)).skip(shown.len() as int + 1 + tag.len()) == text,
        (shown + ":"@ + (tag + text))[shown.len() as int + 1] == tag[0],
{
    assert((shown + ":"@ + (tag + text)).skip(shown.len() as int + 1 + tag.len()) =~= text);
}

/// The key of a search is that of its query and limit, and the key of an MCP call that of its server,
/// tool and arguments, each behind the name of the tool.
pub proof fn lemma_keys_of_structured_payloads(
    shown: Seq<char>,
    query: Seq<char>,
    limit: Option<u64>,
    server: Seq<char>,
    tool: Seq<char>,
    raw_arguments: Seq<char>,
)
    ensures
        dedupe_key(shown, ToolPayloadModel::ToolSearch { query, limit }) == shown + ":"@
            + json_object_text(
            seq![("kind"@, "tool_search"@), ("query"@, query)],
            seq![("limit"@, limit)],
        ),
        dedupe_key(shown, ToolPayloadModel::Mcp { server, tool, raw_arguments }) == shown + ":"@
            + json_object_text(
            seq![
                ("kind"@, "mcp"@),
                ("server"@, server),
                ("tool"@, tool),
                ("raw_arguments"@, raw_arguments),
            ],
            Seq::empty(),
        ),
{
}

/// A call joins a group only under the key of the group: where a group is found there is an entry
/// for it, and where none is found no entry has the key.
pub proof fn lemma_group_is_found_by_key(runtime: RuntimeModel, key: Seq<char>)
    ensures
        match runtime.group_of(key) {
            Some(group) => exists|i: int|
                0 <= i < runtime.keys.len() && #[trigger] runtime.keys[i] == (key, group),
            None => forall|i: int|
                0 <= i < runtime.keys.len() ==> (#[trigger] runtime.keys[i]).0 != key,
        },
{
    lemma_first_where(runtime.keys, with_key(key));
    match first_where(runtime.keys, with_key(key)) {
        Some(entry) => {
            let i = choose|i: int| 0 <= i < runtime.keys.len() && runtime.keys[i] == entry;
            assert(runtime.keys[i] == (key, entry.1));
        },
        None => {
            assert forall|i: int| 0 <= i < runtime.keys.len() implies (
            #[trigger] runtime.keys[i]).0 != key by {
                assert(!with_key(key)(runtime.keys[i]));
            }
        },
    }
}

/// Joining, answering and opening a group leave all other groups as they are, and no call that waits
/// is lost when the keys are given up.
pub proof fn lemma_groups_do_not_mix(
    runtime: RuntimeModel,
    group: usize,
    other: int,
    key: Seq<char>,
    id: Seq<char>,
    response: AnswerModel,
)
    requires
        group < runtime.groups.len(),
        0 <= other < runtime.groups.len(),
    ensures
        other != group ==> runtime.join(group, id).groups[other] == runtime.groups[other],
        other != group ==> runtime.answered(group, response).groups[other]
            == runtime.groups[other],
        runtime.answered(group, response).groups[group as int] == (GroupModel {
            call_ids: runtime.groups[group as int].call_ids,
            response: Some(response),
        }),
        runtime.open_group(key, id).groups[other] == runtime.groups[other],
        runtime.open_group(key, id).groups.last() == (GroupModel {
            call_ids: seq![id],
            response: None,
        }),
        runtime.groups[other].response is None ==> runtime.cleared().groups[other]
            == runtime.groups[other],
        runtime.cleared().keys.len() == 0,
        runtime.cleared().groups.len() == runtime.groups.len(),
{
}

/// An aborted shell without a namespace tells its wall time; every other tool says after how long it
/// was aborted.
pub proof fn lemma_abort_texts(tool: ToolName, seconds: Seq<char>)
    ensures
        tool.namespace is None && (tool.name@ == "shell"@ || tool.name@ == "container.exec"@
            || tool.name@ == "local_shell"@ || tool.name@ == "shell_command"@ || tool.name@
            == "unified_exec"@) ==> abort_text(tool, seconds) == "Wall time: "@ + seconds
            + " seconds\naborted by user"@,
        tool.namespace is Some || !(tool.name@ == "shell"@ || tool.name@ == "container.exec"@
            || tool.name@ == "local_shell"@ || tool.name@ == "shell_command"@ || tool.name@
            == "unified_exec"@) ==> abort_text(tool, seconds) == "aborted by user after "@ + seconds
            + "s"@,
{
}

} // verus!

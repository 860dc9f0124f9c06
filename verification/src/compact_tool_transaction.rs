//! The complete tool transaction at the end of a conversation: how it is found, bounded, and put
//! back into the compacted conversation.

use crate::errors::CodexErr;
use crate::history::{
    clone_envelopes, same_item, BodyModel, EnvelopeModel, FunctionCallOutputBody,
    FunctionCallOutputContentItem, FunctionCallOutputPayload, ItemModel, OutputPartModel,
    PayloadModel, ResponseItem, ResponseItemEnvelope,
};
use crate::lists::{
    lemma_models, lemma_models_of, lemma_position, lemma_position_skip, lemma_push_deep_view,
    models, position, shifted,
};
use crate::text::{integer_text, same_text, signed_text};
use vstd::prelude::*;

verus! {

/// Why a compaction whose transaction does not fit is not installed.
pub const CONTEXT_WINDOW_ERROR: &'static str = "remote compaction did not install because the latest complete tool transaction does not fit the model context window";

/// Why a compaction that does not fit is not installed.
pub const BASELINE_CONTEXT_WINDOW_ERROR: &'static str = "remote compaction did not install because the compacted replacement history does not fit the model context window";

/// Why a compaction whose transaction has too large an item is not installed.
pub const ITEM_LIMIT_ERROR: &'static str = "remote compaction did not install because the latest complete tool transaction contains an item above the 10000-token hard limit";

/// How many tokens an item of a transaction may have.
pub const MAX_REATTACHED_ITEM_TOKENS: i64 = 10_000;

/// How many tokens the text of an output is left at most.
pub const MAX_REATTACHED_OUTPUT_TOKENS: usize = 9_500;

/// Whether an item is the output of a tool.
pub open spec fn is_output(item: ItemModel) -> bool {
    match item {
        ItemModel::FunctionCallOutput { .. } => true,
        ItemModel::CustomToolCallOutput { .. } => true,
        ItemModel::ToolSearchOutput { call_id, .. } => call_id is Some,
        _ => false,
    }
}

/// Whether an item is the call of a tool.
pub open spec fn is_call(item: ItemModel) -> bool {
    match item {
        ItemModel::FunctionCall { .. } => true,
        ItemModel::LocalShellCall { call_id, .. } => call_id is Some,
        ItemModel::CustomToolCall { .. } => true,
        ItemModel::ToolSearchCall { call_id, .. } => call_id is Some,
        _ => false,
    }
}

/// Whether an output answers a call: they are of the same kind, and of the same id.
pub open spec fn answers_call(call: ItemModel, output: ItemModel) -> bool {
    match (call, output) {
        (
            ItemModel::FunctionCall { id, .. },
            ItemModel::FunctionCallOutput { call_id, .. },
        ) => call_id == Some(id),
        (
            ItemModel::LocalShellCall { call_id: Some(id), .. },
            ItemModel::FunctionCallOutput { call_id, .. },
        ) => call_id == Some(id),
        (
            ItemModel::CustomToolCall { id: a, .. },
            ItemModel::CustomToolCallOutput { id: b, .. },
        ) => a == b,
        (
            ItemModel::ToolSearchCall { call_id: Some(id), .. },
            ItemModel::ToolSearchOutput { call_id, .. },
        ) => call_id == Some(id),
        _ => false,
    }
}

/// Whether an item is the output of a tool.
pub fn is_tool_output(item: &ResponseItem) -> (output: bool)
    ensures
        output == is_output(item.deep_view()),
{
    match item {
        ResponseItem::FunctionCallOutput { .. } => true,
        ResponseItem::CustomToolCallOutput { .. } => true,
        ResponseItem::ToolSearchOutput { call_id, .. } => call_id.is_some(),
        _ => false,
    }
}

/// Whether an item is the call of a tool.
pub fn is_tool_call(item: &ResponseItem) -> (call: bool)
    ensures
        call == is_call(item.deep_view()),
{
    match item {
        ResponseItem::FunctionCall { .. } => true,
        ResponseItem::LocalShellCall { call_id, .. } => call_id.is_some(),
        ResponseItem::CustomToolCall { .. } => true,
        ResponseItem::ToolSearchCall { call_id, .. } => call_id.is_some(),
        _ => false,
    }
}

/// Whether an output answers a call.
pub fn tool_call_matches_output(call: &ResponseItem, output: &ResponseItem) -> (matched: bool)
    ensures
        matched == answers_call(call.deep_view(), output.deep_view()),
{
    match (call, output) {
        (
            ResponseItem::FunctionCall { call_id: a, .. },
            ResponseItem::FunctionCallOutput { call_id: Some(b), .. },
        ) => same_text(a.as_str(), b.as_str()),
        (
            ResponseItem::LocalShellCall { call_id: Some(a), .. },
            ResponseItem::FunctionCallOutput { call_id: Some(b), .. },
        ) => same_text(a.as_str(), b.as_str()),
        (
            ResponseItem::CustomToolCall { call_id: a, .. },
            ResponseItem::CustomToolCallOutput { call_id: b, .. },
        ) => same_text(a.as_str(), b.as_str()),
        (
            ResponseItem::ToolSearchCall { call_id: Some(a), .. },
            ResponseItem::ToolSearchOutput { call_id: Some(b), .. },
        ) => same_text(a.as_str(), b.as_str()),
        _ => false,
    }
}

/// Where the run of outputs that ends before `end` begins.
pub open spec fn outputs_start(history: Seq<EnvelopeModel>, end: int) -> int
    decreases end,
{
    if 0 < end && is_output(history[end - 1].item) {
        outputs_start(history, end - 1)
    } else {
        end
    }
}

/// Where the run of calls that ends before `end` begins.
pub open spec fn calls_start(history: Seq<EnvelopeModel>, end: int) -> int
    decreases end,
{
    if 0 < end && is_call(history[end - 1].item) {
        calls_start(history, end - 1)
    } else {
        end
    }
}

/// How many of the outputs answer a call.
pub open spec fn answers_of(call: ItemModel, outputs: Seq<EnvelopeModel>) -> nat
    decreases outputs.len(),
{
    if outputs.len() == 0 {
        0
    } else {
        answers_of(call, outputs.drop_last()) + if answers_call(call, outputs.last().item) {
            1nat
        } else {
            0nat
        }
    }
}

/// How many of the calls an output answers.
pub open spec fn calls_of(output: ItemModel, calls: Seq<EnvelopeModel>) -> nat
    decreases calls.len(),
{
    if calls.len() == 0 {
        0
    } else {
        calls_of(output, calls.drop_last()) + if answers_call(calls.last().item, output) {
            1nat
        } else {
            0nat
        }
    }
}

/// Whether calls and outputs belong together: there are as many, each call has one answer, and
/// each output answers one call.
pub open spec fn belong_together(calls: Seq<EnvelopeModel>, outputs: Seq<EnvelopeModel>) -> bool {
    &&& calls.len() > 0
    &&& calls.len() == outputs.len()
    &&& forall|i: int| 0 <= i < calls.len() ==> answers_of(#[trigger] calls[i].item, outputs) == 1
    &&& forall|i: int| 0 <= i < outputs.len() ==> calls_of(#[trigger] outputs[i].item, calls) == 1
}

/// The complete transaction at the end of a conversation: the run of outputs that ends it and the
/// run of calls before them, where they belong together.
pub open spec fn latest_transaction(history: Seq<EnvelopeModel>) -> Option<Seq<EnvelopeModel>> {
    let outputs = outputs_start(history, history.len() as int);
    let calls = calls_start(history, outputs);
    if belong_together(history.subrange(calls, outputs), history.skip(outputs)) {
        Some(history.skip(calls))
    } else {
        None
    }
}

proof fn lemma_starts(history: Seq<EnvelopeModel>, end: int)
    requires
        0 <= end <= history.len(),
    ensures
        0 <= outputs_start(history, end) <= end,
        0 <= calls_start(history, end) <= end,
        forall|i: int|
            outputs_start(history, end) <= i < end ==> is_output((#[trigger] history[i]).item),
        forall|i: int|
            calls_start(history, end) <= i < end ==> is_call((#[trigger] history[i]).item),
    decreases end,
{
    if end > 0 {
        lemma_starts(history, end - 1);
    }
}

fn count_answers(
    call: &ResponseItem,
    history: &Vec<ResponseItemEnvelope>,
    from: usize,
    to: usize,
) -> (count: usize)
    requires
        from <= to <= history@.len(),
    ensures
        count == answers_of(
            call.deep_view(),
            history.deep_view().subrange(from as int, to as int),
        ),
{
    let ghost all = history.deep_view();
    let mut count: usize = 0;
    let mut i: usize = from;
    while i < to
        invariant
            from <= i <= to <= history@.len(),
            all == history.deep_view(),
            count <= i - from,
            count == answers_of(call.deep_view(), all.subrange(from as int, i as int)),
        decreases to - i,
    {
        proof {
            assert(all.subrange(from as int, i + 1).drop_last() =~= all.subrange(
                from as int,
                i as int,
            ));
        }
        if tool_call_matches_output(call, &history[i].item) {
            count = count + 1;
        }
        i = i + 1;
    }
    count
}

fn count_calls(
    output: &ResponseItem,
    history: &Vec<ResponseItemEnvelope>,
    from: usize,
    to: usize,
) -> (count: usize)
    requires
        from <= to <= history@.len(),
    ensures
        count == calls_of(
            output.deep_view(),
            history.deep_view().subrange(from as int, to as int),
        ),
{
    let ghost all = history.deep_view();
    let mut count: usize = 0;
    let mut i: usize = from;
    while i < to
        invariant
            from <= i <= to <= history@.len(),
            all == history.deep_view(),
            count <= i - from,
            count == calls_of(output.deep_view(), all.subrange(from as int, i as int)),
        decreases to - i,
    {
        proof {
            assert(all.subrange(from as int, i + 1).drop_last() =~= all.subrange(
                from as int,
                i as int,
            ));
        }
        if tool_call_matches_output(&history[i].item, output) {
            count = count + 1;
        }
        i = i + 1;
    }
    count
}

/// Whether the calls from `start` and the outputs from `middle` to the end belong together.
fn is_complete_from(history: &Vec<ResponseItemEnvelope>, start: usize, middle: usize) -> (complete:
    bool)
    requires
        start <= middle <= history@.len(),
    ensures
        complete == belong_together(
            history.deep_view().subrange(start as int, middle as int),
            history.deep_view().skip(middle as int),
        ),
{
    let ghost all = history.deep_view();
    let ghost calls = all.subrange(start as int, middle as int);
    let ghost outputs = all.skip(middle as int);
    let end: usize = history.len();
    proof {
        assert(outputs =~= all.subrange(middle as int, end as int));
    }
    if start == middle || middle - start != end - middle {
        return false;
    }
    let mut i: usize = start;
    while i < middle
        invariant
            start <= i <= middle <= end == history@.len(),
            all == history.deep_view(),
            calls == all.subrange(start as int, middle as int),
            outputs == all.subrange(middle as int, end as int),
            outputs == all.skip(middle as int),
            forall|j: int| 0 <= j < i - start ==> answers_of(#[trigger] calls[j].item, outputs) == 1,
        decreases middle - i,
    {
        if count_answers(&history[i].item, history, middle, end) != 1 {
            proof {
                assert(answers_of(calls[i - start].item, outputs) != 1);
            }
            return false;
        }
        i = i + 1;
    }
    let mut k: usize = middle;
    while k < end
        invariant
            start <= middle <= k <= end == history@.len(),
            all == history.deep_view(),
            calls == all.subrange(start as int, middle as int),
            outputs == all.skip(middle as int),
            forall|j: int| 0 <= j < k - middle ==> calls_of(#[trigger] outputs[j].item, calls) == 1,
        decreases end - k,
    {
        if count_calls(&history[k].item, history, start, middle) != 1 {
            proof {
                assert(calls_of(outputs[k - middle].item, calls) != 1);
            }
            return false;
        }
        k = k + 1;
    }
    true
}

/// The items from a position on.
fn copy_from(history: &Vec<ResponseItemEnvelope>, from: usize, to: usize) -> (copy: Vec<
    ResponseItemEnvelope,
>)
    requires
        from <= to <= history@.len(),
    ensures
        copy.deep_view() == history.deep_view().subrange(from as int, to as int),
{
    let ghost all = history.deep_view();
    let mut copy: Vec<ResponseItemEnvelope> = Vec::new();
    let mut i: usize = from;
    proof {
        assert(copy.deep_view() =~= all.subrange(from as int, from as int));
    }
    while i < to
        invariant
            from <= i <= to <= history@.len(),
            all == history.deep_view(),
            copy.deep_view() == all.subrange(from as int, i as int),
        decreases to - i,
    {
        let envelope = history[i].clone();
        let ghost before = copy@;
        copy.push(envelope);
        proof {
            lemma_push_deep_view(before, copy, envelope);
            lemma_models_of(before);
            assert(all.subrange(from as int, i + 1) =~= all.subrange(from as int, i as int).push(
                all[i as int],
            ));
        }
        i = i + 1;
    }
    copy
}

/// The complete transaction at the end of a conversation, which may be of parallel calls and their
/// outputs. It is taken with what is noted of its items.
pub fn latest_complete_tool_transaction(history: &Vec<ResponseItemEnvelope>) -> (transaction: Option<
    Vec<ResponseItemEnvelope>,
>)
    ensures
        transaction.deep_view() == latest_transaction(history.deep_view()),
        transaction matches Some(items) ==> has_head(items.deep_view()),
{
    let ghost all = history.deep_view();
    let end: usize = history.len();
    let mut middle: usize = end;
    while middle > 0 && is_tool_output(&history[middle - 1].item)
        invariant
            middle <= end == history@.len(),
            all == history.deep_view(),
            outputs_start(all, end as int) == outputs_start(all, middle as int),
        decreases middle,
    {
        middle = middle - 1;
    }
    let mut start: usize = middle;
    while start > 0 && is_tool_call(&history[start - 1].item)
        invariant
            start <= middle <= end == history@.len(),
            all == history.deep_view(),
            calls_start(all, middle as int) == calls_start(all, start as int),
        decreases start,
    {
        start = start - 1;
    }
    if is_complete_from(history, start, middle) {
        proof {
            assert(all.subrange(start as int, end as int) =~= all.skip(start as int));
            lemma_transaction_is_complete(all);
        }
        Some(copy_from(history, start, end))
    } else {
        None
    }
}

/// The instructions that stand before every conversation.
#[derive(Debug, PartialEq, Eq)]
pub struct BaseInstructions {
    pub text: String,
    pub provenance: Option<String>,
}

/// What instructions stand for.
pub struct InstructionsModel {
    pub text: Seq<char>,
    pub provenance: Option<Seq<char>>,
}

impl DeepView for BaseInstructions {
    type V = InstructionsModel;

    open spec fn deep_view(&self) -> InstructionsModel {
        InstructionsModel { text: self.text@, provenance: self.provenance.deep_view() }
    }
}

/// How tokens are counted and outputs truncated.
pub struct Measures {
    /// The tokens of a conversation with its instructions; none where they cannot be told.
    pub history: spec_fn(Seq<EnvelopeModel>, InstructionsModel) -> Option<i64>,
    /// An output with its text truncated to a number of tokens.
    pub truncated: spec_fn(PayloadModel, usize) -> PayloadModel,
    /// The tokens of a text.
    pub text: spec_fn(Seq<char>) -> usize,
}

/// Whether `estimate` counts the tokens of a conversation as `measures` say.
pub open spec fn estimates<E: Fn(&Vec<ResponseItemEnvelope>, &BaseInstructions) -> Option<i64>>(
    estimate: E,
    measures: Measures,
) -> bool {
    forall|items: &Vec<ResponseItemEnvelope>, base: &BaseInstructions, tokens: Option<i64>|
        #[trigger] call_ensures(estimate, (items, base), tokens) ==> tokens == (measures.history)(
            items.deep_view(),
            base.deep_view(),
        )
}

/// Whether `truncate` truncates outputs as `measures` say.
pub open spec fn truncates<
    T: Fn(&FunctionCallOutputPayload, usize) -> FunctionCallOutputPayload,
>(truncate: T, measures: Measures) -> bool {
    forall|output: &FunctionCallOutputPayload, tokens: usize, cut: FunctionCallOutputPayload|
        #[trigger] call_ensures(truncate, (output, tokens), cut) ==> cut.deep_view() == (
        measures.truncated)(output.deep_view(), tokens)
}

/// Whether `count` counts the tokens of a text as `measures` say.
pub open spec fn counts<C: Fn(&String) -> usize>(count: C, measures: Measures) -> bool {
    forall|text: &String, tokens: usize| #[trigger]
        call_ensures(count, (text,), tokens) ==> tokens == (measures.text)(text@)
}

/// Whether the three measure as `measures` say.
pub open spec fn measure<
    E: Fn(&Vec<ResponseItemEnvelope>, &BaseInstructions) -> Option<i64>,
    T: Fn(&FunctionCallOutputPayload, usize) -> FunctionCallOutputPayload,
    C: Fn(&String) -> usize,
>(estimate: E, truncate: T, count: C, measures: Measures) -> bool {
    estimates(estimate, measures) && truncates(truncate, measures) && counts(count, measures)
}

/// Whether the three can be called on anything.
pub open spec fn can_measure<
    E: Fn(&Vec<ResponseItemEnvelope>, &BaseInstructions) -> Option<i64>,
    T: Fn(&FunctionCallOutputPayload, usize) -> FunctionCallOutputPayload,
    C: Fn(&String) -> usize,
>(estimate: E, truncate: T, count: C) -> bool {
    &&& forall|items: &Vec<ResponseItemEnvelope>, base: &BaseInstructions|
        call_requires(estimate, (items, base))
    &&& forall|output: &FunctionCallOutputPayload, tokens: usize|
        call_requires(truncate, (output, tokens))
    &&& forall|text: &String| call_requires(count, (text,))
}

/// No instructions.
pub open spec fn no_instructions() -> InstructionsModel {
    InstructionsModel { text: ""@, provenance: None }
}

/// The tokens of an item by itself; the most where they cannot be told.
pub open spec fn item_tokens(measures: Measures, item: ItemModel) -> i64 {
    match (measures.history)(seq![EnvelopeModel { item, metadata: None }], no_instructions()) {
        Some(tokens) => tokens,
        None => i64::MAX,
    }
}

/// A sum, held within `usize`.
pub open spec fn saturating_sum(a: usize, b: usize) -> usize {
    if a + b > usize::MAX {
        usize::MAX
    } else {
        (a + b) as usize
    }
}

/// The tokens of the texts among the first `count` parts of an output.
pub open spec fn part_tokens(
    measures: Measures,
    parts: Seq<OutputPartModel>,
    count: nat,
) -> usize
    decreases count,
{
    if count == 0 {
        0
    } else {
        let before = part_tokens(measures, parts, (count - 1) as nat);
        match parts[count - 1] {
            OutputPartModel::InputText { text } => saturating_sum(before, (measures.text)(text)),
            _ => before,
        }
    }
}

/// The tokens of the texts of an output.
pub open spec fn output_tokens(measures: Measures, output: PayloadModel) -> usize {
    match output.body {
        BodyModel::Text(text) => (measures.text)(text),
        BodyModel::ContentItems(parts) => part_tokens(measures, parts, parts.len()),
    }
}

/// The output of an item that can be truncated.
pub open spec fn output_of(item: ItemModel) -> Option<PayloadModel> {
    match item {
        ItemModel::FunctionCallOutput { output, .. } => Some(output),
        ItemModel::CustomToolCallOutput { output, .. } => Some(output),
        _ => None,
    }
}

/// An item with another output.
pub open spec fn with_output(item: ItemModel, output: PayloadModel) -> ItemModel {
    match item {
        ItemModel::FunctionCallOutput { call_id, details, .. } => ItemModel::FunctionCallOutput {
            call_id,
            output,
            details,
        },
        ItemModel::CustomToolCallOutput { id, details, .. } => ItemModel::CustomToolCallOutput {
            id,
            output,
            details,
        },
        _ => item,
    }
}

/// The message about an item that is too large.
pub open spec fn item_limit_message(tokens: i64) -> Seq<char> {
    ITEM_LIMIT_ERROR@ + " (estimated "@ + integer_text(tokens as int) + " tokens)"@
}

/// An item with its output truncated to `tokens`, or as much further as the item has to shrink: each
/// time by what the item is above its limit.
pub open spec fn shrunk(
    measures: Measures,
    item: ItemModel,
    output: PayloadModel,
    tokens: nat,
) -> Result<ItemModel, Seq<char>>
    decreases tokens,
{
    let cut = with_output(item, (measures.truncated)(output, tokens as usize));
    let size = item_tokens(measures, cut);
    if size <= MAX_REATTACHED_ITEM_TOKENS {
        Ok(cut)
    } else if tokens == 0 {
        Err(item_limit_message(size))
    } else {
        let excess = size - MAX_REATTACHED_ITEM_TOKENS;
        shrunk(
            measures,
            item,
            output,
            if excess >= tokens {
                0
            } else {
                (tokens - excess) as nat
            },
        )
    }
}

/// The tokens that the text of an output is left at first.
pub open spec fn first_cut(measures: Measures, output: PayloadModel) -> nat {
    let tokens = output_tokens(measures, output);
    if tokens < MAX_REATTACHED_OUTPUT_TOKENS {
        tokens as nat
    } else {
        MAX_REATTACHED_OUTPUT_TOKENS as nat
    }
}

/// An item with its output truncated, where it has one that can be; or why that does not do.
pub open spec fn bounded_output(measures: Measures, item: ItemModel) -> Result<
    ItemModel,
    Seq<char>,
> {
    match output_of(item) {
        Some(output) => shrunk(measures, item, output, first_cut(measures, output)),
        None => Ok(item),
    }
}

/// An item within its limit, with its output truncated where it has one that can be; or why there
/// is none.
pub open spec fn bounded_item(measures: Measures, item: ItemModel) -> Result<ItemModel, Seq<char>> {
    match bounded_output(measures, item) {
        Err(message) => Err(message),
        Ok(cut) => if item_tokens(measures, cut) > MAX_REATTACHED_ITEM_TOKENS {
            Err(item_limit_message(item_tokens(measures, cut)))
        } else {
            Ok(cut)
        },
    }
}

/// The first `count` items of a transaction, each within its limit; or why one of them is not.
pub open spec fn bounded_items(
    measures: Measures,
    transaction: Seq<EnvelopeModel>,
    count: nat,
) -> Result<Seq<EnvelopeModel>, Seq<char>>
    decreases count,
{
    if count == 0 {
        Ok(Seq::empty())
    } else {
        match bounded_items(measures, transaction, (count - 1) as nat) {
            Err(message) => Err(message),
            Ok(done) => match bounded_item(measures, transaction[count - 1].item) {
                Err(message) => Err(message),
                Ok(item) => Ok(done.push(EnvelopeModel { item, ..transaction[count - 1] })),
            },
        }
    }
}

/// The tokens of an item by itself; the most where they cannot be told.
pub fn estimate_item_tokens<
    E: Fn(&Vec<ResponseItemEnvelope>, &BaseInstructions) -> Option<i64>,
>(item: &ResponseItem, estimate: &E) -> (tokens: i64)
    requires
        forall|items: &Vec<ResponseItemEnvelope>, base: &BaseInstructions|
            call_requires(*estimate, (items, base)),
    ensures
        forall|measures: Measures| #[trigger]
            estimates(*estimate, measures) ==> tokens == item_tokens(measures, item.deep_view()),
{
    let mut items: Vec<ResponseItemEnvelope> = Vec::new();
    let envelope = ResponseItemEnvelope::new(item.clone());
    items.push(envelope);
    let base = BaseInstructions { text: "".to_owned(), provenance: None };
    let estimated = estimate(&items, &base);
    proof {
        assert(items.deep_view() =~= seq![
            EnvelopeModel { item: item.deep_view(), metadata: None },
        ]);
        assert(base.deep_view() == no_instructions());
        assert(call_ensures(*estimate, (&items, &base), estimated));
    }
    match estimated {
        Some(tokens) => tokens,
        None => i64::MAX,
    }
}

/// The tokens of the texts of an output.
pub fn function_output_text_token_count<C: Fn(&String) -> usize>(
    output: &FunctionCallOutputPayload,
    count: &C,
) -> (tokens: usize)
    requires
        forall|text: &String| call_requires(*count, (text,)),
    ensures
        forall|measures: Measures| #[trigger]
            counts(*count, measures) ==> tokens == output_tokens(measures, output.deep_view()),
{
    match &output.body {
        FunctionCallOutputBody::Text(text) => {
            let tokens = count(text);
            proof {
                assert(call_ensures(*count, (text,), tokens));
            }
            tokens
        },
        FunctionCallOutputBody::ContentItems(parts) => {
            let ghost all = parts.deep_view();
            let mut total: usize = 0;
            let mut i: usize = 0;
            while i < parts.len()
                invariant
                    i <= parts@.len(),
                    all == parts.deep_view(),
                    forall|text: &String| call_requires(*count, (text,)),
                    forall|measures: Measures| #[trigger]
                        counts(*count, measures) ==> total == part_tokens(measures, all, i as nat),
                decreases parts@.len() - i,
            {
                if let FunctionCallOutputContentItem::InputText { text } = &parts[i] {
                    let tokens = count(text);
                    proof {
                        assert(call_ensures(*count, (text,), tokens));
                    }
                    total =
                    if tokens > usize::MAX - total {
                        usize::MAX
                    } else {
                        total + tokens
                    };
                }
                proof {
                    assert(all[i as int] == parts@[i as int].deep_view());
                }
                i = i + 1;
            }
            total
        },
    }
}

fn item_limit_error(tokens: i64) -> (error: CodexErr)
    ensures
        error matches CodexErr::InvalidRequest(message) && message@ == item_limit_message(tokens),
{
    let mut message = ITEM_LIMIT_ERROR.to_owned();
    message.append(" (estimated ");
    message.append(signed_text(tokens).as_str());
    message.append(" tokens)");
    CodexErr::InvalidRequest(message)
}

/// The item with another output.
fn replace_output(item: &ResponseItem, output: FunctionCallOutputPayload) -> (replaced: ResponseItem)
    ensures
        replaced.deep_view() == with_output(item.deep_view(), output.deep_view()),
{
    match item {
        ResponseItem::FunctionCallOutput { call_id, details, .. } => {
            ResponseItem::FunctionCallOutput {
                call_id: call_id.clone(),
                output,
                details: details.clone(),
            }
        },
        ResponseItem::CustomToolCallOutput { call_id, details, .. } => {
            ResponseItem::CustomToolCallOutput {
                call_id: call_id.clone(),
                output,
                details: details.clone(),
            }
        },
        _ => item.clone(),
    }
}

/// Whether a result is what a specification says, with its failure told as an invalid request.
pub open spec fn is_outcome<T: DeepView>(
    result: Result<T, CodexErr>,
    expected: Result<T::V, Seq<char>>,
) -> bool {
    match (result, expected) {
        (Ok(value), Ok(model)) => value.deep_view() == model,
        (Err(CodexErr::InvalidRequest(message)), Err(text)) => message@ == text,
        _ => false,
    }
}

/// Truncates the output of an item until the item is within its limit.
fn shrink_output<
    E: Fn(&Vec<ResponseItemEnvelope>, &BaseInstructions) -> Option<i64>,
    T: Fn(&FunctionCallOutputPayload, usize) -> FunctionCallOutputPayload,
    C: Fn(&String) -> usize,
>(
    item: &ResponseItem,
    output: &FunctionCallOutputPayload,
    estimate: &E,
    truncate: &T,
    count: &C,
) -> (bounded: Result<ResponseItem, CodexErr>)
    requires
        can_measure(*estimate, *truncate, *count),
    ensures
        bounded matches Ok(cut) ==> is_cut_of(cut.deep_view(), item.deep_view()),
        forall|measures: Measures| #[trigger]
            measure(*estimate, *truncate, *count, measures) ==> is_outcome(
                bounded,
                shrunk(
                    measures,
                    item.deep_view(),
                    output.deep_view(),
                    first_cut(measures, output.deep_view()),
                ),
            ),
{
    let counted = function_output_text_token_count(output, count);
    let mut tokens: usize = if counted < MAX_REATTACHED_OUTPUT_TOKENS {
        counted
    } else {
        MAX_REATTACHED_OUTPUT_TOKENS
    };
    let ghost original = output.deep_view();
    let ghost whole = item.deep_view();
    loop
        invariant
            can_measure(*estimate, *truncate, *count),
            original == output.deep_view(),
            whole == item.deep_view(),
            forall|measures: Measures| #[trigger]
                measure(*estimate, *truncate, *count, measures) ==> shrunk(
                    measures,
                    whole,
                    original,
                    first_cut(measures, original),
                ) == shrunk(measures, whole, original, tokens as nat),
        decreases tokens,
    {
        let cut = truncate(output, tokens);
        proof {
            assert(call_ensures(*truncate, (output, tokens), cut));
        }
        let candidate = replace_output(item, cut);
        let size = estimate_item_tokens(&candidate, estimate);
        if size <= MAX_REATTACHED_ITEM_TOKENS {
            return Ok(candidate);
        }
        if tokens == 0 {
            return Err(item_limit_error(size));
        }
        let excess: i64 = size - MAX_REATTACHED_ITEM_TOKENS;
        tokens =
        if excess as u64 >= tokens as u64 {
            0
        } else {
            tokens - excess as usize
        };
    }
}

/// Brings an item with the output of a function or custom tool within its limit by truncating that
/// output. Another item stays as it is.
pub fn bound_function_output_item<
    E: Fn(&Vec<ResponseItemEnvelope>, &BaseInstructions) -> Option<i64>,
    T: Fn(&FunctionCallOutputPayload, usize) -> FunctionCallOutputPayload,
    C: Fn(&String) -> usize,
>(item: &ResponseItem, estimate: &E, truncate: &T, count: &C) -> (bounded: Result<
    ResponseItem,
    CodexErr,
>)
    requires
        can_measure(*estimate, *truncate, *count),
    ensures
        bounded matches Ok(cut) ==> is_cut_of(cut.deep_view(), item.deep_view()),
        forall|measures: Measures| #[trigger]
            measure(*estimate, *truncate, *count, measures) ==> is_outcome(
                bounded,
                bounded_output(measures, item.deep_view()),
            ),
{
    match item {
        ResponseItem::FunctionCallOutput { output, .. } => shrink_output(
            item,
            output,
            estimate,
            truncate,
            count,
        ),
        ResponseItem::CustomToolCallOutput { output, .. } => shrink_output(
            item,
            output,
            estimate,
            truncate,
            count,
        ),
        _ => Ok(item.clone()),
    }
}

/// Brings an item within its limit.
fn bound_item<
    E: Fn(&Vec<ResponseItemEnvelope>, &BaseInstructions) -> Option<i64>,
    T: Fn(&FunctionCallOutputPayload, usize) -> FunctionCallOutputPayload,
    C: Fn(&String) -> usize,
>(item: &ResponseItem, estimate: &E, truncate: &T, count: &C) -> (bounded: Result<
    ResponseItem,
    CodexErr,
>)
    requires
        can_measure(*estimate, *truncate, *count),
    ensures
        bounded matches Ok(cut) ==> is_cut_of(cut.deep_view(), item.deep_view()),
        forall|measures: Measures| #[trigger]
            measure(*estimate, *truncate, *count, measures) ==> is_outcome(
                bounded,
                bounded_item(measures, item.deep_view()),
            ),
{
    let cut = match bound_function_output_item(item, estimate, truncate, count) {
        Ok(cut) => cut,
        Err(error) => {
            return Err(error);
        },
    };
    let size = estimate_item_tokens(&cut, estimate);
    if size > MAX_REATTACHED_ITEM_TOKENS {
        Err(item_limit_error(size))
    } else {
        Ok(cut)
    }
}

/// Brings each item of a transaction within its limit, or says why that cannot be.
pub fn bounded_terminal_tool_transaction<
    E: Fn(&Vec<ResponseItemEnvelope>, &BaseInstructions) -> Option<i64>,
    T: Fn(&FunctionCallOutputPayload, usize) -> FunctionCallOutputPayload,
    C: Fn(&String) -> usize,
>(transaction: &Vec<ResponseItemEnvelope>, estimate: &E, truncate: &T, count: &C) -> (bounded:
    Result<Vec<ResponseItemEnvelope>, CodexErr>)
    requires
        can_measure(*estimate, *truncate, *count),
    ensures
        bounded matches Ok(items) ==> are_cut_of(items.deep_view(), transaction.deep_view()),
        forall|measures: Measures| #[trigger]
            measure(*estimate, *truncate, *count, measures) ==> is_outcome(
                bounded,
                bounded_items(measures, transaction.deep_view(), transaction@.len()),
            ),
{
    let ghost all = transaction.deep_view();
    let mut done: Vec<ResponseItemEnvelope> = Vec::new();
    let mut i: usize = 0;
    proof {
        assert(done.deep_view() =~= Seq::empty());
    }
    while i < transaction.len()
        invariant
            i <= transaction@.len(),
            are_cut_of(done.deep_view(), all.take(i as int)),
            all == transaction.deep_view(),
            can_measure(*estimate, *truncate, *count),
            forall|measures: Measures| #[trigger]
                measure(*estimate, *truncate, *count, measures) ==> bounded_items(
                    measures,
                    all,
                    i as nat,
                ) == Ok::<Seq<EnvelopeModel>, Seq<char>>(done.deep_view()),
        decreases transaction@.len() - i,
    {
        let envelope = &transaction[i];
        match bound_item(&envelope.item, estimate, truncate, count) {
            Ok(item) => {
                let mut next = envelope.clone();
                next.item = item;
                let ghost before = done@;
                done.push(next);
                proof {
                    lemma_push_deep_view(before, done, next);
                    lemma_models_of(before);
                    assert(all[i as int] == envelope.deep_view());
                    assert(all.take(i + 1) =~= all.take(i as int).push(all[i as int]));
                }
            },
            Err(error) => {
                proof {
                    assert forall|measures: Measures| #[trigger]
                        measure(*estimate, *truncate, *count, measures) implies is_outcome::<
                        Vec<ResponseItemEnvelope>,
                    >(Err(error), bounded_items(measures, all, all.len())) by {
                        lemma_bounded_items_fail(measures, all, (i + 1) as nat, all.len());
                    }
                }
                return Err(error);
            },
        }
        i = i + 1;
    }
    proof {
        assert(all.take(all.len() as int) =~= all);
    }
    Ok(done)
}

/// A failure at one item is the failure of the whole transaction.
proof fn lemma_bounded_items_fail(
    measures: Measures,
    transaction: Seq<EnvelopeModel>,
    at: nat,
    count: nat,
)
    requires
        at <= count,
        bounded_items(measures, transaction, at) is Err,
    ensures
        bounded_items(measures, transaction, count) == bounded_items(measures, transaction, at),
    decreases count,
{
    if at < count {
        lemma_bounded_items_fail(measures, transaction, at, (count - 1) as nat);
    }
}

/// Whether the items of a transaction stand in a conversation at a position. What is noted of them
/// does not count.
pub open spec fn stands_at(
    history: Seq<EnvelopeModel>,
    transaction: Seq<EnvelopeModel>,
    at: int,
) -> bool {
    &&& 0 <= at
    &&& at + transaction.len() <= history.len()
    &&& forall|i: int|
        0 <= i < transaction.len() ==> history[at + i].item == (#[trigger] transaction[i]).item
}

/// The first position at or after `from` at which a transaction stands.
pub open spec fn place_of(
    history: Seq<EnvelopeModel>,
    transaction: Seq<EnvelopeModel>,
    from: int,
) -> Option<int>
    decreases history.len() + 1 - from,
{
    if from + transaction.len() > history.len() {
        None
    } else if stands_at(history, transaction, from) {
        Some(from)
    } else {
        place_of(history, transaction, from + 1)
    }
}

/// A conversation with `count` items at a position replaced.
pub open spec fn replaced(
    history: Seq<EnvelopeModel>,
    at: int,
    count: int,
    with: Seq<EnvelopeModel>,
) -> Seq<EnvelopeModel> {
    history.take(at) + with + history.skip(at + count)
}

/// Whether an item is a compaction.
pub open spec fn is_compaction(envelope: EnvelopeModel) -> bool {
    envelope.item is Compaction || envelope.item is ContextCompaction
}

/// Where a transaction is put that does not stand in a conversation: before its first compaction,
/// or else at its end.
pub open spec fn free_place(history: Seq<EnvelopeModel>) -> int {
    match position(history, |envelope: EnvelopeModel| is_compaction(envelope)) {
        Some(at) => at,
        None => history.len() as int,
    }
}

/// A compacted conversation with a transaction put back: in the place of the transaction, or of its
/// bounded form, where one stands there; in the place of the bounded form alone, where both do.
pub open spec fn reattached(
    history: Seq<EnvelopeModel>,
    source: Seq<EnvelopeModel>,
    bounded: Seq<EnvelopeModel>,
) -> Seq<EnvelopeModel> {
    let n = source.len() as int;
    match (place_of(history, source, 0), place_of(history, bounded, 0)) {
        (Some(s), Some(b)) => if s < b {
            replaced(replaced(history, s, n, Seq::empty()), b - n, n, bounded)
        } else if b < s {
            replaced(replaced(history, s, n, Seq::empty()), b, n, bounded)
        } else {
            replaced(history, s, n, bounded)
        },
        (Some(s), None) => replaced(history, s, n, bounded),
        (None, Some(b)) => replaced(history, b, n, bounded),
        (None, None) => replaced(history, free_place(history), 0, bounded),
    }
}

/// The message about a conversation that does not fit its window.
pub open spec fn window_message(error: Seq<char>, tokens: i64, window: i64) -> Seq<char> {
    error + " (estimated "@ + integer_text(tokens as int) + " tokens, limit "@ + integer_text(
        window as int,
    ) + ")"@
}

/// Why a conversation does not fit its window, if so.
pub open spec fn window_error(
    measures: Measures,
    history: Seq<EnvelopeModel>,
    window: Option<i64>,
    base: InstructionsModel,
    error: Seq<char>,
) -> Option<Seq<char>> {
    match (window, (measures.history)(history, base)) {
        (Some(window), Some(tokens)) => if tokens > window {
            Some(window_message(error, tokens, window))
        } else {
            None
        },
        _ => None,
    }
}

/// The conversation to install: the compacted one, with its transaction put back within its limits;
/// or why it is not installed.
pub open spec fn installed(
    measures: Measures,
    history: Seq<EnvelopeModel>,
    source: Option<Seq<EnvelopeModel>>,
    window: Option<i64>,
    base: InstructionsModel,
) -> Result<Seq<EnvelopeModel>, Seq<char>> {
    match window_error(measures, history, window, base, BASELINE_CONTEXT_WINDOW_ERROR@) {
        Some(message) => Err(message),
        None => match source {
            None => Ok(history),
            Some(transaction) => match bounded_items(
                measures,
                transaction,
                transaction.len(),
            ) {
                Err(message) => Err(message),
                Ok(bounded) => {
                    let whole = reattached(history, transaction, bounded);
                    match window_error(measures, whole, window, base, CONTEXT_WINDOW_ERROR@) {
                        Some(message) => Err(message),
                        None => Ok(whole),
                    }
                },
            },
        },
    }
}

/// Whether `cut` is an item with at most its output cut.
pub open spec fn is_cut_of(cut: ItemModel, item: ItemModel) -> bool {
    match output_of(item) {
        Some(_) => output_of(cut) is Some && cut == with_output(item, output_of(cut)->0),
        None => cut == item,
    }
}

/// Whether `cut` is a transaction with at most its outputs cut.
pub open spec fn are_cut_of(cut: Seq<EnvelopeModel>, transaction: Seq<EnvelopeModel>) -> bool {
    &&& cut.len() == transaction.len()
    &&& forall|i: int|
        0 <= i < cut.len() ==> is_cut_of((#[trigger] cut[i]).item, transaction[i].item)
            && cut[i].metadata == transaction[i].metadata
}

/// Whether a transaction begins with a call that does not occur in it again.
pub open spec fn has_head(transaction: Seq<EnvelopeModel>) -> bool {
    &&& transaction.len() > 0
    &&& output_of(transaction[0].item) is None
    &&& forall|i: int|
        0 < i < transaction.len() ==> (#[trigger] transaction[i]).item != transaction[0].item
}

/// Whether a transaction and its bounded form stand in one place or apart from each other, where
/// both stand in a conversation.
pub open spec fn are_apart(
    history: Seq<EnvelopeModel>,
    source: Seq<EnvelopeModel>,
    bounded: Seq<EnvelopeModel>,
) -> bool {
    match (place_of(history, source, 0), place_of(history, bounded, 0)) {
        (Some(s), Some(b)) => s == b || s + source.len() <= b || b + source.len() <= s,
        _ => true,
    }
}

/// Whether a transaction can be put back into a conversation: it is not empty, and overlaps with no
/// bounded form of it there. One that begins with a call that does not occur in it again never does.
pub open spec fn is_reattachable(
    history: Seq<EnvelopeModel>,
    source: Seq<EnvelopeModel>,
) -> bool {
    &&& source.len() > 0
    &&& has_head(source) || forall|bounded: Seq<EnvelopeModel>| #[trigger]
        are_cut_of(bounded, source) ==> are_apart(history, source, bounded)
}

proof fn lemma_reattachable_is_apart(
    history: Seq<EnvelopeModel>,
    source: Seq<EnvelopeModel>,
    bounded: Seq<EnvelopeModel>,
)
    requires
        is_reattachable(history, source),
        are_cut_of(bounded, source),
    ensures
        are_apart(history, source, bounded),
{
    lemma_place_of(history, source, 0);
    lemma_place_of(history, bounded, 0);
    if has_head(source) {
        match (place_of(history, source, 0), place_of(history, bounded, 0)) {
            (Some(s), Some(b)) => {
                if s != b {
                    lemma_no_overlap(history, source, bounded, s, b);
                }
            },
            _ => {},
        }
    }
}

/// A transaction that begins with a call that does not occur in it again, and its bounded form, do
/// not overlap.
proof fn lemma_no_overlap(
    history: Seq<EnvelopeModel>,
    source: Seq<EnvelopeModel>,
    bounded: Seq<EnvelopeModel>,
    s: int,
    b: int,
)
    requires
        has_head(source),
        are_cut_of(bounded, source),
        stands_at(history, source, s),
        stands_at(history, bounded, b),
        s != b,
    ensures
        s + source.len() <= b || b + source.len() <= s,
{
    let n = source.len();
    assert(is_cut_of(bounded[0].item, source[0].item));
    assert(history[b + 0].item == bounded[0].item);
    assert(history[s + 0].item == source[0].item);
    if s < b < s + n {
        let k = b - s;
        assert(history[s + k].item == source[k].item);
    }
    if b < s < b + n {
        let k = s - b;
        assert(history[b + k].item == bounded[k].item);
        assert(is_cut_of(bounded[k].item, source[k].item));
    }
}

proof fn lemma_place_of(history: Seq<EnvelopeModel>, transaction: Seq<EnvelopeModel>, from: int)
    requires
        0 <= from,
    ensures
        match place_of(history, transaction, from) {
            Some(at) => from <= at && stands_at(history, transaction, at),
            None => forall|at: int| from <= at ==> !stands_at(history, transaction, at),
        },
    decreases history.len() + 1 - from,
{
    if from + transaction.len() <= history.len() && !stands_at(history, transaction, from) {
        lemma_place_of(history, transaction, from + 1);
    }
}

/// The position of a transaction in a conversation.
pub fn find_transaction(
    history: &Vec<ResponseItemEnvelope>,
    transaction: &Vec<ResponseItemEnvelope>,
) -> (at: Option<usize>)
    requires
        transaction@.len() > 0,
    ensures
        match at {
            Some(i) => place_of(history.deep_view(), transaction.deep_view(), 0) == Some(i as int),
            None => place_of(history.deep_view(), transaction.deep_view(), 0) is None,
        },
{
    let ghost all = history.deep_view();
    let ghost sought = transaction.deep_view();
    if transaction.len() > history.len() {
        return None;
    }
    let end: usize = history.len();
    let last: usize = end - transaction.len();
    let mut i: usize = 0;
    while i <= last
        invariant
            last == end - transaction@.len(),
            end == history@.len(),
            transaction@.len() > 0,
            i <= last + 1,
            all == history.deep_view(),
            sought == transaction.deep_view(),
            place_of(all, sought, 0) == place_of(all, sought, i as int),
        decreases last + 1 - i,
    {
        if items_stand_at(history, transaction, i) {
            return Some(i);
        }
        i = i + 1;
    }
    None
}

fn items_stand_at(
    history: &Vec<ResponseItemEnvelope>,
    transaction: &Vec<ResponseItemEnvelope>,
    at: usize,
) -> (found: bool)
    requires
        at + transaction@.len() <= history@.len(),
    ensures
        found == stands_at(history.deep_view(), transaction.deep_view(), at as int),
{
    let ghost all = history.deep_view();
    let ghost sought = transaction.deep_view();
    let end: usize = history.len();
    let mut i: usize = 0;
    while i < transaction.len()
        invariant
            i <= transaction@.len(),
            at + transaction@.len() <= end == history@.len(),
            all == history.deep_view(),
            sought == transaction.deep_view(),
            forall|j: int| 0 <= j < i ==> all[at + j].item == (#[trigger] sought[j]).item,
        decreases transaction@.len() - i,
    {
        if !same_item(&history[at + i].item, &transaction[i].item) {
            proof {
                assert(all[at + i].item != sought[i as int].item);
            }
            return false;
        }
        i = i + 1;
    }
    true
}

/// The position of the first compaction, or else the end.
fn find_free_place(history: &Vec<ResponseItemEnvelope>) -> (at: usize)
    ensures
        at == free_place(history.deep_view()),
        at <= history@.len(),
{
    let ghost all = history.deep_view();
    let ghost meets = |envelope: EnvelopeModel| is_compaction(envelope);
    let mut i: usize = 0;
    proof {
        assert(all.skip(0) =~= all);
    }
    while i < history.len()
        invariant
            i <= history@.len(),
            all == history.deep_view(),
            meets == (|envelope: EnvelopeModel| is_compaction(envelope)),
            position(all, meets) == shifted(position(all.skip(i as int), meets), i as int),
        decreases history@.len() - i,
    {
        proof {
            lemma_position_skip(all, meets, i as int);
        }
        match &history[i].item {
            ResponseItem::Compaction { .. } | ResponseItem::ContextCompaction { .. } => {
                return i;
            },
            _ => {},
        }
        i = i + 1;
    }
    i
}

/// Replaces `count` items at a position.
fn splice(
    history: &Vec<ResponseItemEnvelope>,
    at: usize,
    count: usize,
    with: &Vec<ResponseItemEnvelope>,
) -> (spliced: Vec<ResponseItemEnvelope>)
    requires
        at + count <= history@.len(),
    ensures
        spliced.deep_view() == replaced(
            history.deep_view(),
            at as int,
            count as int,
            with.deep_view(),
        ),
{
    let end: usize = history.len();
    let mut spliced = copy_from(history, 0, at);
    let mut middle = clone_envelopes(with);
    let mut tail = copy_from(history, at + count, end);
    let ghost a = spliced@;
    let ghost b = middle@;
    let ghost c = tail@;
    spliced.append(&mut middle);
    spliced.append(&mut tail);
    proof {
        lemma_models_of(a);
        lemma_models_of(b);
        lemma_models_of(c);
        assert(spliced@ == a + b + c);
        lemma_models(spliced);
        assert(models(a + b + c) =~= models(a) + models(b) + models(c));
        assert(history.deep_view().subrange(0, at as int) =~= history.deep_view().take(at as int));
        assert(history.deep_view().subrange(at + count, end as int) =~= history.deep_view().skip(
            at + count,
        ));
    }
    spliced
}

/// Puts a transaction back into a compacted conversation, in its bounded form.
fn reattach(
    history: &Vec<ResponseItemEnvelope>,
    source: &Vec<ResponseItemEnvelope>,
    bounded: &Vec<ResponseItemEnvelope>,
) -> (whole: Vec<ResponseItemEnvelope>)
    requires
        source@.len() > 0,
        are_cut_of(bounded.deep_view(), source.deep_view()),
        are_apart(history.deep_view(), source.deep_view(), bounded.deep_view()),
    ensures
        whole.deep_view() == reattached(
            history.deep_view(),
            source.deep_view(),
            bounded.deep_view(),
        ),
{
    let ghost all = history.deep_view();
    let n: usize = source.len();
    let m: usize = bounded.len();
    proof {
        assert(n == m) by {
            assert(source.deep_view().len() == n);
            assert(bounded.deep_view().len() == m);
        }
        lemma_place_of(all, source.deep_view(), 0);
        lemma_place_of(all, bounded.deep_view(), 0);
    }
    match (find_transaction(history, source), find_transaction(history, bounded)) {
        (Some(s), Some(b)) => {
            if s == b {
                return splice(history, s, n, bounded);
            }
            let none: Vec<ResponseItemEnvelope> = Vec::new();
            proof {
                assert(none.deep_view() =~= Seq::empty());
            }
            let rest = splice(history, s, n, &none);
            let at: usize = if s < b {
                b - n
            } else {
                b
            };
            proof {
                assert(rest.deep_view().len() == all.len() - n);
            }
            splice(&rest, at, n, bounded)
        },
        (Some(s), None) => splice(history, s, n, bounded),
        (None, Some(b)) => splice(history, b, n, bounded),
        (None, None) => splice(history, find_free_place(history), 0, bounded),
    }
}

/// Checks that a conversation fits its window, as far as its tokens can be told.
pub fn validate_context_window<
    E: Fn(&Vec<ResponseItemEnvelope>, &BaseInstructions) -> Option<i64>,
>(
    history: &Vec<ResponseItemEnvelope>,
    context_window: Option<i64>,
    base_instructions: &BaseInstructions,
    error_message: &str,
    estimate: &E,
) -> (fits: Result<(), CodexErr>)
    requires
        forall|items: &Vec<ResponseItemEnvelope>, base: &BaseInstructions|
            call_requires(*estimate, (items, base)),
    ensures
        fits is Err ==> context_window is Some && fits->Err_0 is InvalidRequest,
        forall|measures: Measures| #[trigger]
            estimates(*estimate, measures) ==> match window_error(
                measures,
                history.deep_view(),
                context_window,
                base_instructions.deep_view(),
                error_message@,
            ) {
                None => fits is Ok,
                Some(text) => fits matches Err(CodexErr::InvalidRequest(message)) && message@
                    == text,
            },
{
    if let Some(window) = context_window {
        let estimated = estimate(history, base_instructions);
        proof {
            assert(call_ensures(*estimate, (history, base_instructions), estimated));
        }
        if let Some(tokens) = estimated {
            if tokens > window {
                let mut message = error_message.to_owned();
                message.append(" (estimated ");
                message.append(signed_text(tokens).as_str());
                message.append(" tokens, limit ");
                message.append(signed_text(window).as_str());
                message.append(")");
                return Err(CodexErr::InvalidRequest(message));
            }
        }
    }
    Ok(())
}

/// Checks that a compacted conversation fits its window, and puts the transaction back that was at
/// the end of the conversation. Where it does not fit, nothing is installed.
pub fn validate_and_reattach_terminal_tool_transaction<
    E: Fn(&Vec<ResponseItemEnvelope>, &BaseInstructions) -> Option<i64>,
    T: Fn(&FunctionCallOutputPayload, usize) -> FunctionCallOutputPayload,
    C: Fn(&String) -> usize,
>(
    compacted_history: Vec<ResponseItemEnvelope>,
    source_transaction: Option<&Vec<ResponseItemEnvelope>>,
    context_window: Option<i64>,
    base_instructions: &BaseInstructions,
    estimate: &E,
    truncate: &T,
    count: &C,
) -> (result: Result<Vec<ResponseItemEnvelope>, CodexErr>)
    requires
        can_measure(*estimate, *truncate, *count),
        source_transaction matches Some(transaction) ==> is_reattachable(
            compacted_history.deep_view(),
            transaction.deep_view(),
        ),
    ensures
        forall|measures: Measures| #[trigger]
            measure(*estimate, *truncate, *count, measures) ==> is_outcome(
                result,
                installed(
                    measures,
                    compacted_history.deep_view(),
                    source_transaction.deep_view(),
                    context_window,
                    base_instructions.deep_view(),
                ),
            ),
{
    match validate_context_window(
        &compacted_history,
        context_window,
        base_instructions,
        BASELINE_CONTEXT_WINDOW_ERROR,
        estimate,
    ) {
        Ok(_) => {},
        Err(error) => {
            return Err(error);
        },
    }
    let source = match source_transaction {
        Some(source) => source,
        None => {
            return Ok(compacted_history);
        },
    };
    let bounded = match bounded_terminal_tool_transaction(source, estimate, truncate, count) {
        Ok(bounded) => bounded,
        Err(error) => {
            return Err(error);
        },
    };
    proof {
        lemma_reattachable_is_apart(
            compacted_history.deep_view(),
            source.deep_view(),
            bounded.deep_view(),
        );
    }
    let whole = reattach(&compacted_history, source, &bounded);
    match validate_context_window(
        &whole,
        context_window,
        base_instructions,
        CONTEXT_WINDOW_ERROR,
        estimate,
    ) {
        Ok(_) => Ok(whole),
        Err(error) => Err(error),
    }
}

proof fn lemma_answers_of(call: ItemModel, outputs: Seq<EnvelopeModel>)
    ensures
        answers_of(call, outputs) == 0 ==> forall|i: int|
            0 <= i < outputs.len() ==> !answers_call(call, (#[trigger] outputs[i]).item),
        answers_of(call, outputs) >= 1 ==> exists|i: int|
            0 <= i < outputs.len() && answers_call(call, (#[trigger] outputs[i]).item),
        answers_of(call, outputs) <= 1 ==> forall|i: int, j: int|
            0 <= i < j < outputs.len() ==> !(answers_call(call, (#[trigger] outputs[i]).item)
                && answers_call(call, (#[trigger] outputs[j]).item)),
    decreases outputs.len(),
{
    if outputs.len() > 0 {
        let rest = outputs.drop_last();
        lemma_answers_of(call, rest);
        assert forall|i: int| 0 <= i < rest.len() implies #[trigger] outputs[i] == rest[i] by {}
        if answers_of(call, rest) >= 1 {
            let i = choose|i: int|
                0 <= i < rest.len() && answers_call(call, (#[trigger] rest[i]).item);
            assert(answers_call(call, outputs[i].item));
        }
        if answers_call(call, outputs.last().item) {
            assert(answers_call(call, outputs[outputs.len() - 1].item));
        }
    }
}

proof fn lemma_calls_of(output: ItemModel, calls: Seq<EnvelopeModel>)
    ensures
        calls_of(output, calls) == 0 ==> forall|i: int|
            0 <= i < calls.len() ==> !answers_call((#[trigger] calls[i]).item, output),
        calls_of(output, calls) >= 1 ==> exists|i: int|
            0 <= i < calls.len() && answers_call((#[trigger] calls[i]).item, output),
        calls_of(output, calls) <= 1 ==> forall|i: int, j: int|
            0 <= i < j < calls.len() ==> !(answers_call((#[trigger] calls[i]).item, output)
                && answers_call((#[trigger] calls[j]).item, output)),
    decreases calls.len(),
{
    if calls.len() > 0 {
        let rest = calls.drop_last();
        lemma_calls_of(output, rest);
        assert forall|i: int| 0 <= i < rest.len() implies #[trigger] calls[i] == rest[i] by {}
        if calls_of(output, rest) >= 1 {
            let i = choose|i: int|
                0 <= i < rest.len() && answers_call((#[trigger] rest[i]).item, output);
            assert(answers_call(calls[i].item, output));
        }
        if answers_call(calls.last().item, output) {
            assert(answers_call(calls[calls.len() - 1].item, output));
        }
    }
}

/// Whether exactly one of the outputs answers a call.
pub open spec fn has_one_answer(call: ItemModel, outputs: Seq<EnvelopeModel>) -> bool {
    exists|i: int|
        0 <= i < outputs.len() && answers_call(call, (#[trigger] outputs[i]).item) && forall|j: int|
            0 <= j < outputs.len() && j != i ==> !answers_call(call, (#[trigger] outputs[j]).item)
}

/// A transaction is the end of its conversation: calls, and as many outputs. Each call has exactly
/// one output in it, and it begins with a call that does not occur in it again.
pub proof fn lemma_transaction_is_complete(history: Seq<EnvelopeModel>)
    requires
        latest_transaction(history) is Some,
    ensures
        ({
            let transaction = latest_transaction(history)->0;
            let half = transaction.len() as int / 2;
            &&& transaction.len() == 2 * half
            &&& history.len() >= transaction.len()
            &&& transaction == history.skip(history.len() - transaction.len())
            &&& forall|i: int| 0 <= i < half ==> is_call((#[trigger] transaction[i]).item)
            &&& forall|i: int|
                half <= i < transaction.len() ==> is_output((#[trigger] transaction[i]).item)
            &&& forall|i: int|
                0 <= i < half ==> has_one_answer(
                    (#[trigger] transaction[i]).item,
                    transaction.skip(half),
                )
            &&& has_head(transaction)
        }),
{
    let end = history.len() as int;
    lemma_starts(history, end);
    let middle = outputs_start(history, end);
    lemma_starts(history, middle);
    let start = calls_start(history, middle);
    let calls = history.subrange(start, middle);
    let outputs = history.skip(middle);
    let transaction = history.skip(start);
    let half = calls.len() as int;
    assert(transaction.len() as int / 2 == half);
    assert(transaction =~= calls + outputs);
    assert(transaction.skip(half) =~= outputs);
    assert forall|i: int| 0 <= i < half implies is_call((#[trigger] transaction[i]).item) by {
        assert(transaction[i] == history[start + i]);
    }
    assert forall|i: int| half <= i < transaction.len() implies is_output(
        (#[trigger] transaction[i]).item,
    ) by {
        assert(transaction[i] == history[start + i]);
    }
    assert forall|i: int| 0 <= i < half implies has_one_answer(
        (#[trigger] transaction[i]).item,
        transaction.skip(half),
    ) by {
        let call = calls[i].item;
        assert(transaction[i] == calls[i]);
        assert(answers_of(call, outputs) == 1);
        lemma_answers_of(call, outputs);
        let k = choose|k: int|
            0 <= k < outputs.len() && answers_call(call, (#[trigger] outputs[k]).item);
        assert forall|j: int| 0 <= j < outputs.len() && j != k implies !answers_call(
            call,
            (#[trigger] outputs[j]).item,
        ) by {
            if j < k {
                assert(!(answers_call(call, outputs[j].item) && answers_call(
                    call,
                    outputs[k].item,
                )));
            } else {
                assert(!(answers_call(call, outputs[k].item) && answers_call(
                    call,
                    outputs[j].item,
                )));
            }
        }
        assert(answers_call(call, transaction.skip(half)[k].item));
    }
    assert(transaction[0] == calls[0]);
    assert(is_call(transaction[0].item));
    assert forall|i: int| 0 < i < transaction.len() implies (#[trigger] transaction[i]).item
        != transaction[0].item by {
        if i < half {
            assert(transaction[i] == calls[i]);
            if calls[i].item == calls[0].item {
                assert(answers_of(calls[0].item, outputs) == 1);
                lemma_answers_of(calls[0].item, outputs);
                let k = choose|k: int|
                    0 <= k < outputs.len() && answers_call(
                        calls[0].item,
                        (#[trigger] outputs[k]).item,
                    );
                assert(calls_of(outputs[k].item, calls) == 1);
                lemma_calls_of(outputs[k].item, calls);
                assert(!(answers_call(calls[0].item, outputs[k].item) && answers_call(
                    calls[i].item,
                    outputs[k].item,
                )));
            }
        } else {
            assert(is_output(transaction[i].item));
        }
    }
}

/// The bounded transaction stands in the conversation once it is put back, in one piece and with
/// what is noted of its items.
pub proof fn lemma_reattached_holds_transaction(
    history: Seq<EnvelopeModel>,
    source: Seq<EnvelopeModel>,
    bounded: Seq<EnvelopeModel>,
)
    requires
        bounded.len() == source.len(),
        are_apart(history, source, bounded),
    ensures
        exists|at: int|
            0 <= at <= reattached(history, source, bounded).len() - bounded.len()
                && #[trigger] reattached(history, source, bounded).subrange(
                at,
                at + bounded.len(),
            ) == bounded,
{
    let n = source.len() as int;
    lemma_place_of(history, source, 0);
    lemma_place_of(history, bounded, 0);
    lemma_position(history, |envelope: EnvelopeModel| is_compaction(envelope));
    let at = match (place_of(history, source, 0), place_of(history, bounded, 0)) {
        (Some(s), Some(b)) => {
            if s != b {
                let rest = replaced(history, s, n, Seq::empty());
                let at = if s < b {
                    b - n
                } else {
                    b
                };
                lemma_replaced_holds(rest, at, n, bounded);
                at
            } else {
                lemma_replaced_holds(history, s, n, bounded);
                s
            }
        },
        (Some(s), None) => {
            lemma_replaced_holds(history, s, n, bounded);
            s
        },
        (None, Some(b)) => {
            lemma_replaced_holds(history, b, n, bounded);
            b
        },
        (None, None) => {
            lemma_replaced_holds(history, free_place(history), 0, bounded);
            free_place(history)
        },
    };
    assert(reattached(history, source, bounded).subrange(at, at + bounded.len()) == bounded);
}

proof fn lemma_replaced_holds(
    history: Seq<EnvelopeModel>,
    at: int,
    count: int,
    with: Seq<EnvelopeModel>,
)
    requires
        0 <= at,
        0 <= count,
        at + count <= history.len(),
    ensures
        replaced(history, at, count, with).len() == history.len() - count + with.len(),
        replaced(history, at, count, with).subrange(at, at + with.len()) == with,
{
    assert(replaced(history, at, count, with).subrange(at, at + with.len()) =~= with);
}

/// A transaction that does not stand in the compacted conversation is put before its first
/// compaction, or else at its end; nothing else changes.
pub proof fn lemma_new_transaction_is_inserted(
    history: Seq<EnvelopeModel>,
    source: Seq<EnvelopeModel>,
    bounded: Seq<EnvelopeModel>,
)
    requires
        forall|at: int| !stands_at(history, source, at),
        forall|at: int| !stands_at(history, bounded, at),
    ensures
        ({
            let at = free_place(history);
            let whole = reattached(history, source, bounded);
            &&& 0 <= at <= history.len()
            &&& whole.subrange(at, at + bounded.len()) == bounded
            &&& whole.take(at) + whole.skip(at + bounded.len()) == history
        }),
{
    lemma_place_of(history, source, 0);
    lemma_place_of(history, bounded, 0);
    lemma_position(history, |envelope: EnvelopeModel| is_compaction(envelope));
    let at = free_place(history);
    let whole = reattached(history, source, bounded);
    lemma_replaced_holds(history, at, 0, bounded);
    assert(whole.take(at) + whole.skip(at + bounded.len()) =~= history);
}

/// A transaction that stands in the compacted conversation, and is within its limits as it is, is
/// not put there twice: the conversation keeps its items, and those of the transaction get back what
/// was noted of them.
pub proof fn lemma_standing_transaction_is_kept(
    history: Seq<EnvelopeModel>,
    source: Seq<EnvelopeModel>,
)
    requires
        source.len() > 0,
        exists|at: int| stands_at(history, source, at),
    ensures
        ({
            let whole = reattached(history, source, source);
            &&& whole.len() == history.len()
            &&& forall|i: int|
                0 <= i < whole.len() ==> (#[trigger] whole[i]).item == history[i].item
        }),
{
    lemma_place_of(history, source, 0);
    let s = place_of(history, source, 0)->0;
    let whole = reattached(history, source, source);
    let at = choose|at: int| stands_at(history, source, at);
    assert(place_of(history, source, 0) is Some);
    lemma_replaced_holds(history, s, source.len() as int, source);
    assert forall|i: int| 0 <= i < whole.len() implies (#[trigger] whole[i]).item
        == history[i].item by {
        if s <= i < s + source.len() {
            assert(whole[i] == source[i - s]);
            assert(history[s + (i - s)].item == source[i - s].item);
        }
    }
}

/// An item whose output could be cut far enough is within its limit.
pub proof fn lemma_shrunk_is_small(
    measures: Measures,
    item: ItemModel,
    output: PayloadModel,
    tokens: nat,
)
    ensures
        shrunk(measures, item, output, tokens) matches Ok(cut) ==> item_tokens(measures, cut)
            <= MAX_REATTACHED_ITEM_TOKENS,
    decreases tokens,
{
    let cut = with_output(item, (measures.truncated)(output, tokens as usize));
    let size = item_tokens(measures, cut);
    if size > MAX_REATTACHED_ITEM_TOKENS && tokens > 0 {
        let excess = size - MAX_REATTACHED_ITEM_TOKENS;
        lemma_shrunk_is_small(
            measures,
            item,
            output,
            if excess >= tokens {
                0
            } else {
                (tokens - excess) as nat
            },
        );
    }
}

/// Each item of a bounded transaction is within its limit.
pub proof fn lemma_bounded_items_are_small(
    measures: Measures,
    transaction: Seq<EnvelopeModel>,
    count: nat,
)
    requires
        count <= transaction.len(),
    ensures
        bounded_items(measures, transaction, count) matches Ok(items) ==> items.len() == count
            && forall|i: int|
            0 <= i < items.len() ==> item_tokens(measures, (#[trigger] items[i]).item)
                <= MAX_REATTACHED_ITEM_TOKENS,
    decreases count,
{
    if count > 0 {
        lemma_bounded_items_are_small(measures, transaction, (count - 1) as nat);
    }
}

/// What is installed fits its window, as far as its tokens can be told, and a compaction that does
/// not fit is never installed.
pub proof fn lemma_installed_fits(
    measures: Measures,
    history: Seq<EnvelopeModel>,
    source: Option<Seq<EnvelopeModel>>,
    window: i64,
    base: InstructionsModel,
)
    ensures
        installed(measures, history, source, Some(window), base) matches Ok(whole) ==> ((
        measures.history)(whole, base) matches Some(tokens) ==> tokens <= window),
        (measures.history)(history, base) matches Some(tokens) && tokens > window ==> installed(
            measures,
            history,
            source,
            Some(window),
            base,
        ) is Err,
{
}

/// Putting a transaction back never leaves it twice where it stood once: the conversation grows by
/// the transaction only where neither it nor its bounded form stood there, and shrinks by it where
/// both did.
pub proof fn lemma_reattached_once(
    history: Seq<EnvelopeModel>,
    source: Seq<EnvelopeModel>,
    bounded: Seq<EnvelopeModel>,
)
    requires
        bounded.len() == source.len(),
        are_apart(history, source, bounded),
    ensures
        reattached(history, source, bounded).len() == match (
            place_of(history, source, 0),
            place_of(history, bounded, 0),
        ) {
            (Some(s), Some(b)) => if s == b {
                history.len() as int
            } else {
                history.len() - source.len()
            },
            (None, None) => (history.len() + source.len()) as int,
            _ => history.len() as int,
        },
{
    let n = source.len() as int;
    lemma_place_of(history, source, 0);
    lemma_place_of(history, bounded, 0);
    lemma_position(history, |envelope: EnvelopeModel| is_compaction(envelope));
    match (place_of(history, source, 0), place_of(history, bounded, 0)) {
        (Some(s), Some(b)) => {
            if s != b {
                lemma_replaced_holds(history, s, n, Seq::empty());
                let rest = replaced(history, s, n, Seq::empty());
                let at = if s < b {
                    b - n
                } else {
                    b
                };
                lemma_replaced_holds(rest, at, n, bounded);
            } else {
                lemma_replaced_holds(history, s, n, bounded);
            }
        },
        (Some(s), None) => lemma_replaced_holds(history, s, n, bounded),
        (None, Some(b)) => lemma_replaced_holds(history, b, n, bounded),
        (None, None) => lemma_replaced_holds(history, free_place(history), 0, bounded),
    }
}

/// The tokens of an item by itself, as the measures give them; the most where they do not.
pub open spec fn size_of(measures: Measures, item: ItemModel) -> int {
    match (measures.history)(
        seq![EnvelopeModel { item, metadata: None }],
        InstructionsModel { text: ""@, provenance: None },
    ) {
        Some(tokens) => tokens as int,
        None => i64::MAX as int,
    }
}

proof fn lemma_shrunk_succeeds(
    measures: Measures,
    item: ItemModel,
    output: PayloadModel,
    tokens: nat,
)
    requires
        tokens <= usize::MAX,
        item_tokens(measures, with_output(item, (measures.truncated)(output, 0)))
            <= MAX_REATTACHED_ITEM_TOKENS,
    ensures
        shrunk(measures, item, output, tokens) matches Ok(cut) && item_tokens(measures, cut)
            <= MAX_REATTACHED_ITEM_TOKENS && exists|n: usize|
            n <= tokens && cut == with_output(item, #[trigger] (measures.truncated)(output, n)),
    decreases tokens,
{
    let cut = with_output(item, (measures.truncated)(output, tokens as usize));
    let size = item_tokens(measures, cut);
    if size > MAX_REATTACHED_ITEM_TOKENS {
        let excess = size - MAX_REATTACHED_ITEM_TOKENS;
        assert(tokens > 0);
        let fewer = if excess >= tokens {
            0
        } else {
            (tokens - excess) as nat
        };
        lemma_shrunk_succeeds(measures, item, output, fewer);
        let n = choose|n: usize|
            n <= fewer && shrunk(measures, item, output, fewer)->Ok_0 == with_output(
                item,
                #[trigger] (measures.truncated)(output, n),
            );
        assert(shrunk(measures, item, output, tokens)->Ok_0 == with_output(
            item,
            (measures.truncated)(output, n),
        ));
    } else {
        assert(cut == with_output(item, (measures.truncated)(output, tokens as usize)));
    }
}

/// The output of a function and that of a custom tool are both truncated: where the item with its
/// output truncated to nothing is within 10000 tokens, the item is bounded, to itself with its output
/// truncated to some number of tokens, at most 9500. The result is within 10000 tokens.
pub proof fn lemma_outputs_are_truncated(
    measures: Measures,
    call_id: Option<Seq<char>>,
    id: Seq<char>,
    output: PayloadModel,
    details: Seq<char>,
)
    ensures
        size_of(
            measures,
            ItemModel::FunctionCallOutput {
                call_id,
                output: (measures.truncated)(output, 0),
                details,
            },
        ) <= 10000 ==> (bounded_item(
            measures,
            ItemModel::FunctionCallOutput { call_id, output, details },
        ) matches Ok(cut) && size_of(measures, cut) <= 10000 && exists|n: usize|
            n <= 9500 && cut == (ItemModel::FunctionCallOutput {
                call_id,
                output: #[trigger] (measures.truncated)(output, n),
                details,
            })),
        size_of(
            measures,
            ItemModel::CustomToolCallOutput {
                id,
                output: (measures.truncated)(output, 0),
                details,
            },
        ) <= 10000 ==> (bounded_item(
            measures,
            ItemModel::CustomToolCallOutput { id, output, details },
        ) matches Ok(cut) && size_of(measures, cut) <= 10000 && exists|n: usize|
            n <= 9500 && cut == (ItemModel::CustomToolCallOutput {
                id,
                output: #[trigger] (measures.truncated)(output, n),
                details,
            })),
{
    let function = ItemModel::FunctionCallOutput { call_id, output, details };
    let custom = ItemModel::CustomToolCallOutput { id, output, details };
    let none = (measures.truncated)(output, 0);
    let tokens = first_cut(measures, output);
    assert(with_output(function, none) == (ItemModel::FunctionCallOutput {
        call_id,
        output: none,
        details,
    }));
    assert(with_output(custom, none) == (ItemModel::CustomToolCallOutput {
        id,
        output: none,
        details,
    }));
    if size_of(measures, with_output(function, none)) <= 10000 {
        lemma_shrunk_succeeds(measures, function, output, tokens);
        let cut = bounded_item(measures, function)->Ok_0;
        let n = choose|n: usize|
            n <= tokens && cut == with_output(function, #[trigger] (measures.truncated)(output, n));
        assert(cut == (ItemModel::FunctionCallOutput {
            call_id,
            output: (measures.truncated)(output, n),
            details,
        }));
    }
    if size_of(measures, with_output(custom, none)) <= 10000 {
        lemma_shrunk_succeeds(measures, custom, output, tokens);
        let cut = bounded_item(measures, custom)->Ok_0;
        let n = choose|n: usize|
            n <= tokens && cut == with_output(custom, #[trigger] (measures.truncated)(output, n));
        assert(cut == (ItemModel::CustomToolCallOutput {
            id,
            output: (measures.truncated)(output, n),
            details,
        }));
    }
}

/// An output is not cut further than its item needs: where the item is within 10000 tokens with its
/// output truncated to the tokens of its text, and to at most 9500, that is the bounded item.
pub proof fn lemma_outputs_are_not_cut_further(
    measures: Measures,
    call_id: Option<Seq<char>>,
    id: Seq<char>,
    text: Seq<char>,
    success: Option<bool>,
    details: Seq<char>,
    tokens: usize,
)
    requires
        tokens as int == if (measures.text)(text) < 9500 {
            (measures.text)(text) as int
        } else {
            9500
        },
    ensures
        ({
            let output = PayloadModel { body: BodyModel::Text(text), success };
            let cut = (measures.truncated)(output, tokens);
            let function = ItemModel::FunctionCallOutput { call_id, output: cut, details };
            let custom = ItemModel::CustomToolCallOutput { id, output: cut, details };
            &&& size_of(measures, function) <= 10000 ==> bounded_item(
                measures,
                ItemModel::FunctionCallOutput { call_id, output, details },
            ) == Ok::<ItemModel, Seq<char>>(function)
            &&& size_of(measures, custom) <= 10000 ==> bounded_item(
                measures,
                ItemModel::CustomToolCallOutput { id, output, details },
            ) == Ok::<ItemModel, Seq<char>>(custom)
        }),
{
}

/// An item that has no output to truncate stays as it is where it is within 10000 tokens, and is
/// refused with its size where it is not.
pub proof fn lemma_other_items_stay(measures: Measures, item: ItemModel)
    requires
        !(item is FunctionCallOutput),
        !(item is CustomToolCallOutput),
    ensures
        size_of(measures, item) <= 10000 ==> bounded_item(measures, item) == Ok::<
            ItemModel,
            Seq<char>,
        >(item),
        size_of(measures, item) > 10000 ==> bounded_item(measures, item) == Err::<
            ItemModel,
            Seq<char>,
        >(
            ITEM_LIMIT_ERROR@ + " (estimated "@ + integer_text(size_of(measures, item))
                + " tokens)"@,
        ),
{
}

/// The items of a bounded transaction are those of the transaction, one for one and with what is noted
/// of them, each bounded by itself. One that cannot be bounded refuses the whole.
pub proof fn lemma_items_are_bounded_one_by_one(
    measures: Measures,
    transaction: Seq<EnvelopeModel>,
    count: nat,
)
    requires
        count <= transaction.len(),
    ensures
        match bounded_items(measures, transaction, count) {
            Ok(items) => items.len() == count && forall|i: int|
                0 <= i < count ==> (#[trigger] items[i]).metadata == transaction[i].metadata
                    && bounded_item(measures, transaction[i].item) == Ok::<ItemModel, Seq<char>>(
                    items[i].item,
                ),
            Err(message) => exists|i: int|
                0 <= i < count && #[trigger] bounded_item(measures, transaction[i].item) == Err::<
                    ItemModel,
                    Seq<char>,
                >(message) && forall|j: int|
                    0 <= j < i ==> bounded_item(measures, (#[trigger] transaction[j]).item) is Ok,
        },
    decreases count,
{
    if count > 0 {
        lemma_items_are_bounded_one_by_one(measures, transaction, (count - 1) as nat);
        match bounded_items(measures, transaction, (count - 1) as nat) {
            Ok(done) => {
                assert forall|j: int| 0 <= j < count - 1 implies bounded_item(
                    measures,
                    (#[trigger] transaction[j]).item,
                ) == Ok::<ItemModel, Seq<char>>(done[j].item) by {
                    assert(done[j].metadata == transaction[j].metadata);
                }
                match bounded_item(measures, transaction[count - 1].item) {
                    Ok(item) => {
                        let items = bounded_items(measures, transaction, count)->Ok_0;
                        assert(items[count - 1].item == item);
                        assert forall|i: int| 0 <= i < count implies (#[trigger] items[i]).metadata
                            == transaction[i].metadata && bounded_item(
                            measures,
                            transaction[i].item,
                        ) == Ok::<ItemModel, Seq<char>>(items[i].item) by {
                            if i < count - 1 {
                                assert(items[i] == done[i]);
                            }
                        }
                    },
                    Err(message) => {
                        assert(bounded_item(measures, transaction[count - 1].item) == Err::<
                            ItemModel,
                            Seq<char>,
                        >(message));
                    },
                }
            },
            Err(message) => {
                let i = choose|i: int|
                    0 <= i < count - 1 && #[trigger] bounded_item(measures, transaction[i].item)
                        == Err::<ItemModel, Seq<char>>(message) && forall|j: int|
                        0 <= j < i ==> bounded_item(
                            measures,
                            (#[trigger] transaction[j]).item,
                        ) is Ok;
                assert(bounded_item(measures, transaction[i].item) == Err::<ItemModel, Seq<char>>(
                    message,
                ));
            },
        }
    }
}

/// Only texts add to the tokens of an output, each its own, and the sum stays within its range.
pub proof fn lemma_only_texts_count(
    measures: Measures,
    parts: Seq<OutputPartModel>,
    text: Seq<char>,
    details: Seq<char>,
    success: Option<bool>,
)
    ensures
        ({
            let tokens = |parts: Seq<OutputPartModel>|
                output_tokens(
                    measures,
                    PayloadModel { body: BodyModel::ContentItems(parts), success },
                );
            let added = tokens(parts) + (measures.text)(text);
            &&& tokens(Seq::empty()) == 0
            &&& tokens(parts.push(OutputPartModel::InputText { text })) as int == if added
                > usize::MAX {
                usize::MAX as int
            } else {
                added
            }
            &&& tokens(parts.push(OutputPartModel::InputImage { details })) == tokens(parts)
            &&& tokens(parts.push(OutputPartModel::InputAudio { details })) == tokens(parts)
            &&& tokens(parts.push(OutputPartModel::EncryptedContent { details })) == tokens(parts)
            &&& output_tokens(measures, PayloadModel { body: BodyModel::Text(text), success }) == (
            measures.text)(text)
        }),
{
    lemma_part_tokens_of_longer(measures, parts, OutputPartModel::InputText { text }, parts.len());
    lemma_part_tokens_of_longer(
        measures,
        parts,
        OutputPartModel::InputImage { details },
        parts.len(),
    );
    lemma_part_tokens_of_longer(
        measures,
        parts,
        OutputPartModel::InputAudio { details },
        parts.len(),
    );
    lemma_part_tokens_of_longer(
        measures,
        parts,
        OutputPartModel::EncryptedContent { details },
        parts.len(),
    );
}

proof fn lemma_part_tokens_of_longer(
    measures: Measures,
    parts: Seq<OutputPartModel>,
    part: OutputPartModel,
    count: nat,
)
    requires
        count <= parts.len(),
    ensures
        part_tokens(measures, parts.push(part), count) == part_tokens(measures, parts, count),
        parts.push(part)[parts.len() as int] == part,
    decreases count,
{
    if count > 0 {
        lemma_part_tokens_of_longer(measures, parts, part, (count - 1) as nat);
    }
}

/// Which items are calls: those of functions and custom tools, and those of shells and searches that
/// have an id. Which are outputs: those of functions and custom tools, and those of searches that have
/// an id. All other items are neither.
pub proof fn lemma_calls_and_outputs(
    id: Seq<char>,
    call_id: Option<Seq<char>>,
    output: PayloadModel,
    role: Seq<char>,
    content: Seq<crate::history::ContentModel>,
    details: Seq<char>,
)
    ensures
        is_call(ItemModel::FunctionCall { id, details }),
        is_call(ItemModel::CustomToolCall { id, details }),
        is_call(ItemModel::LocalShellCall { call_id, details }) <==> call_id is Some,
        is_call(ItemModel::ToolSearchCall { call_id, details }) <==> call_id is Some,
        is_output(ItemModel::FunctionCallOutput { call_id, output, details }),
        is_output(ItemModel::CustomToolCallOutput { id, output, details }),
        is_output(ItemModel::ToolSearchOutput { call_id, details }) <==> call_id is Some,
        !is_call(ItemModel::FunctionCallOutput { call_id, output, details }),
        !is_call(ItemModel::CustomToolCallOutput { id, output, details }),
        !is_call(ItemModel::ToolSearchOutput { call_id, details }),
        !is_output(ItemModel::FunctionCall { id, details }),
        !is_output(ItemModel::CustomToolCall { id, details }),
        !is_output(ItemModel::LocalShellCall { call_id, details }),
        !is_output(ItemModel::ToolSearchCall { call_id, details }),
        ({
            let message = ItemModel::Message { role, content, details };
            let compaction = ItemModel::Compaction { details };
            let context = ItemModel::ContextCompaction { details };
            let other = ItemModel::Other { details };
            &&& !is_call(message) && !is_output(message)
            &&& !is_call(compaction) && !is_output(compaction)
            &&& !is_call(context) && !is_output(context)
            &&& !is_call(other) && !is_output(other)
        }),
{
}

/// An output answers a call exactly where both are of one kind and have one id: that of a function
/// answers functions and shells, that of a custom tool custom tools, and that of a search searches.
pub proof fn lemma_outputs_answer_by_id(
    a: Seq<char>,
    b: Option<Seq<char>>,
    c: Seq<char>,
    output: PayloadModel,
    d: Seq<char>,
    e: Seq<char>,
)
    ensures
        ({
            let function = ItemModel::FunctionCall { id: a, details: d };
            let shell = ItemModel::LocalShellCall { call_id: Some(a), details: d };
            let custom = ItemModel::CustomToolCall { id: a, details: d };
            let search = ItemModel::ToolSearchCall { call_id: Some(a), details: d };
            let of_function = ItemModel::FunctionCallOutput { call_id: b, output, details: e };
            let of_custom = ItemModel::CustomToolCallOutput { id: c, output, details: e };
            let of_search = ItemModel::ToolSearchOutput { call_id: b, details: e };
            &&& answers_call(function, of_function) <==> b == Some(a)
            &&& answers_call(shell, of_function) <==> b == Some(a)
            &&& answers_call(custom, of_custom) <==> c == a
            &&& answers_call(search, of_search) <==> b == Some(a)
            &&& !answers_call(function, of_custom) && !answers_call(function, of_search)
            &&& !answers_call(shell, of_custom) && !answers_call(shell, of_search)
            &&& !answers_call(custom, of_function) && !answers_call(custom, of_search)
            &&& !answers_call(search, of_function) && !answers_call(search, of_custom)
        }),
{
}

/// A conversation that ends in a call and its output ends in a transaction of the two, whatever came
/// before them, unless another call stands directly before.
pub proof fn lemma_call_with_its_output_is_found(
    before: Seq<EnvelopeModel>,
    call: EnvelopeModel,
    output: EnvelopeModel,
)
    requires
        answers_call(call.item, output.item),
        before.len() > 0 ==> !is_call(before.last().item),
    ensures
        latest_transaction(before.push(call).push(output)) == Some(seq![call, output]),
{
    let history = before.push(call).push(output);
    let n = before.len() as int;
    assert(is_call(call.item) && is_output(output.item));
    assert(history[n + 1] == output && history[n] == call);
    assert(!is_output(call.item));
    assert(outputs_start(history, n + 1) == n + 1);
    assert(outputs_start(history, n + 2) == n + 1);
    assert(before.len() > 0 ==> history[n - 1] == before.last());
    assert(calls_start(history, n) == n);
    assert(calls_start(history, n + 1) == n);
    let calls = history.subrange(n, n + 1);
    let outputs = history.skip(n + 1);
    assert(calls =~= seq![call]);
    assert(outputs =~= seq![output]);
    reveal_with_fuel(answers_of, 2);
    reveal_with_fuel(calls_of, 2);
    assert(outputs.drop_last() =~= Seq::empty());
    assert(calls.drop_last() =~= Seq::empty());
    assert(history.skip(n) =~= seq![call, output]);
}

/// A conversation whose last item is no output ends in no transaction, and neither does one whose last
/// output answers none of the calls before the outputs.
pub proof fn lemma_what_is_no_transaction(history: Seq<EnvelopeModel>)
    ensures
        history.len() == 0 ==> latest_transaction(history) is None,
        history.len() > 0 && !is_output(history.last().item) ==> latest_transaction(history) is None,
        history.len() > 0 && is_output(history.last().item) && (forall|i: int|
            0 <= i < history.len() ==> !answers_call(
                (#[trigger] history[i]).item,
                history.last().item,
            )) ==> latest_transaction(history) is None,
{
    let end = history.len() as int;
    lemma_starts(history, end);
    let middle = outputs_start(history, end);
    lemma_starts(history, middle);
    let start = calls_start(history, middle);
    let calls = history.subrange(start, middle);
    let outputs = history.skip(middle);
    if end > 0 && is_output(history.last().item) && (forall|i: int|
        0 <= i < history.len() ==> !answers_call(
            (#[trigger] history[i]).item,
            history.last().item,
        )) {
        lemma_starts(history, end - 1);
        let last = outputs.len() - 1;
        assert(outputs[last] == history.last());
        lemma_calls_of(outputs[last].item, calls);
        assert forall|i: int| 0 <= i < calls.len() implies !answers_call(
            (#[trigger] calls[i]).item,
            history.last().item,
        ) by {
            assert(calls[i] == history[start + i]);
        }
        if calls_of(outputs[last].item, calls) == 1 {
            let i = choose|i: int|
                0 <= i < calls.len() && answers_call((#[trigger] calls[i]).item, outputs[last].item);
            assert(!answers_call(calls[i].item, history.last().item));
        }
    }
}

/// The place of a transaction is the first at which its items stand one for one.
pub proof fn lemma_place_is_the_first(history: Seq<EnvelopeModel>, transaction: Seq<EnvelopeModel>)
    ensures
        match place_of(history, transaction, 0) {
            Some(at) => {
                &&& 0 <= at <= history.len() - transaction.len()
                &&& forall|i: int|
                    0 <= i < transaction.len() ==> history[at + i].item == (
                    #[trigger] transaction[i]).item
                &&& forall|before: int| 0 <= before < at ==> !stands_at(
                    history,
                    transaction,
                    before,
                )
            },
            None => forall|at: int| !stands_at(history, transaction, at),
        },
{
    lemma_place_of(history, transaction, 0);
    lemma_nothing_before_place(history, transaction, 0);
}

proof fn lemma_nothing_before_place(
    history: Seq<EnvelopeModel>,
    transaction: Seq<EnvelopeModel>,
    from: int,
)
    requires
        0 <= from,
    ensures
        place_of(history, transaction, from) matches Some(at) ==> forall|before: int|
            from <= before < at ==> !stands_at(history, transaction, before),
    decreases history.len() + 1 - from,
{
    if from + transaction.len() <= history.len() && !stands_at(history, transaction, from) {
        lemma_nothing_before_place(history, transaction, from + 1);
    }
}

/// A transaction that stands in the conversation is replaced where it stands, and everything around it
/// stays; so is its bounded form where only that stands there. Where both stand apart, the transaction
/// is taken out and the bounded form replaced.
pub proof fn lemma_replaced_in_place(
    history: Seq<EnvelopeModel>,
    source: Seq<EnvelopeModel>,
    bounded: Seq<EnvelopeModel>,
)
    requires
        bounded.len() == source.len(),
        are_apart(history, source, bounded),
    ensures
        ({
            let n = source.len() as int;
            let whole = reattached(history, source, bounded);
            match (place_of(history, source, 0), place_of(history, bounded, 0)) {
                (Some(s), Some(b)) => if s == b {
                    whole == history.take(s) + bounded + history.skip(s + n)
                } else if s < b {
                    whole == history.take(s) + history.subrange(s + n, b) + bounded + history.skip(
                        b + n,
                    )
                } else {
                    whole == history.take(b) + bounded + history.subrange(b + n, s) + history.skip(
                        s + n,
                    )
                },
                (Some(s), None) => whole == history.take(s) + bounded + history.skip(s + n),
                (None, Some(b)) => whole == history.take(b) + bounded + history.skip(b + n),
                (None, None) => true,
            }
        }),
{
    let n = source.len() as int;
    let whole = reattached(history, source, bounded);
    lemma_place_of(history, source, 0);
    lemma_place_of(history, bounded, 0);
    match (place_of(history, source, 0), place_of(history, bounded, 0)) {
        (Some(s), Some(b)) => {
            let rest = replaced(history, s, n, Seq::empty());
            if s < b {
                assert(rest.take(b - n) =~= history.take(s) + history.subrange(s + n, b));
                assert(rest.skip(b) =~= history.skip(b + n));
                assert(whole =~= history.take(s) + history.subrange(s + n, b) + bounded
                    + history.skip(b + n));
            } else if b < s {
                assert(rest.take(b) =~= history.take(b));
                assert(rest.skip(b + n) =~= history.subrange(b + n, s) + history.skip(s + n));
                assert(whole =~= history.take(b) + bounded + history.subrange(b + n, s)
                    + history.skip(s + n));
            }
        },
        _ => {},
    }
}

/// A transaction that stands nowhere is put directly before the first compaction of either kind, or at
/// the end where there is none.
pub proof fn lemma_free_place_is_before_compaction(history: Seq<EnvelopeModel>)
    ensures
        0 <= free_place(history) <= history.len(),
        forall|i: int|
            0 <= i < free_place(history) ==> !((#[trigger] history[i]).item is Compaction) && !(
            history[i].item is ContextCompaction),
        free_place(history) < history.len() ==> history[free_place(history)].item is Compaction
            || history[free_place(history)].item is ContextCompaction,
{
    let meets = |envelope: EnvelopeModel| is_compaction(envelope);
    lemma_position(history, meets);
    assert forall|i: int| 0 <= i < free_place(history) implies !((
    #[trigger] history[i]).item is Compaction) && !(history[i].item is ContextCompaction) by {
        assert(!meets(history[i]));
    }
    if free_place(history) < history.len() {
        assert(meets(history[free_place(history)]));
    }
}

/// A compaction without a transaction is installed as it is exactly where it is not known to be above
/// its window; at the window it fits.
pub proof fn lemma_plain_compaction(
    measures: Measures,
    history: Seq<EnvelopeModel>,
    window: Option<i64>,
    base: InstructionsModel,
)
    ensures
        window is None || (measures.history)(history, base) is None || (measures.history)(
            history,
            base,
        )->0 <= window->0 ==> installed(measures, history, None, window, base) == Ok::<
            Seq<EnvelopeModel>,
            Seq<char>,
        >(history),
        window is Some && (measures.history)(history, base) is Some && (measures.history)(
            history,
            base,
        )->0 > window->0 ==> installed(measures, history, None, window, base) == Err::<
            Seq<EnvelopeModel>,
            Seq<char>,
        >(
            BASELINE_CONTEXT_WINDOW_ERROR@ + " (estimated "@ + integer_text(
                (measures.history)(history, base)->0 as int,
            ) + " tokens, limit "@ + integer_text(window->0 as int) + ")"@,
        ),
{
}

/// A compaction with a transaction is installed with the bounded transaction put back, exactly where
/// the compaction fits, each item can be bounded and the whole fits. Else the error is that of the first
/// of these that does not hold.
pub proof fn lemma_compaction_with_transaction(
    measures: Measures,
    history: Seq<EnvelopeModel>,
    source: Seq<EnvelopeModel>,
    window: Option<i64>,
    base: InstructionsModel,
)
    requires
        window is None || (measures.history)(history, base) is None || (measures.history)(
            history,
            base,
        )->0 <= window->0,
    ensures
        match bounded_items(measures, source, source.len()) {
            Err(message) => installed(measures, history, Some(source), window, base) == Err::<
                Seq<EnvelopeModel>,
                Seq<char>,
            >(message),
            Ok(bounded) => {
                let whole = reattached(history, source, bounded);
                let tokens = (measures.history)(whole, base);
                &&& window is None || tokens is None || tokens->0 <= window->0 ==> installed(
                    measures,
                    history,
                    Some(source),
                    window,
                    base,
                ) == Ok::<Seq<EnvelopeModel>, Seq<char>>(whole)
                &&& window is Some && tokens is Some && tokens->0 > window->0 ==> installed(
                    measures,
                    history,
                    Some(source),
                    window,
                    base,
                ) == Err::<Seq<EnvelopeModel>, Seq<char>>(
                    CONTEXT_WINDOW_ERROR@ + " (estimated "@ + integer_text(tokens->0 as int)
                        + " tokens, limit "@ + integer_text(window->0 as int) + ")"@,
                )
            },
        },
{
}

/// Whether an output answers exactly one of the calls.
pub open spec fn answers_one(output: ItemModel, calls: Seq<EnvelopeModel>) -> bool {
    exists|i: int|
        0 <= i < calls.len() && answers_call((#[trigger] calls[i]).item, output) && forall|j: int|
            0 <= j < calls.len() && j != i ==> !answers_call((#[trigger] calls[j]).item, output)
}

proof fn lemma_count_one_answer(call: ItemModel, outputs: Seq<EnvelopeModel>)
    ensures
        (forall|i: int|
            0 <= i < outputs.len() ==> !answers_call(call, (#[trigger] outputs[i]).item))
            ==> answers_of(call, outputs) == 0,
        has_one_answer(call, outputs) ==> answers_of(call, outputs) == 1,
    decreases outputs.len(),
{
    if outputs.len() > 0 {
        let rest = outputs.drop_last();
        let end = outputs.len() - 1;
        lemma_count_one_answer(call, rest);
        assert(outputs[end] == outputs.last());
        assert forall|i: int| 0 <= i < rest.len() implies #[trigger] rest[i] == outputs[i] by {}
        if has_one_answer(call, outputs) {
            let k = choose|i: int|
                0 <= i < outputs.len() && answers_call(call, (#[trigger] outputs[i]).item)
                    && forall|j: int|
                    0 <= j < outputs.len() && j != i ==> !answers_call(
                        call,
                        (#[trigger] outputs[j]).item,
                    );
            if k < end {
                assert(answers_call(call, rest[k].item));
                assert(has_one_answer(call, rest));
            }
        }
    }
}

proof fn lemma_count_one_call(output: ItemModel, calls: Seq<EnvelopeModel>)
    ensures
        (forall|i: int|
            0 <= i < calls.len() ==> !answers_call((#[trigger] calls[i]).item, output)) ==> calls_of(
            output,
            calls,
        ) == 0,
        answers_one(output, calls) ==> calls_of(output, calls) == 1,
    decreases calls.len(),
{
    if calls.len() > 0 {
        let rest = calls.drop_last();
        let end = calls.len() - 1;
        lemma_count_one_call(output, rest);
        assert(calls[end] == calls.last());
        assert forall|i: int| 0 <= i < rest.len() implies #[trigger] rest[i] == calls[i] by {}
        if answers_one(output, calls) {
            let k = choose|i: int|
                0 <= i < calls.len() && answers_call((#[trigger] calls[i]).item, output)
                    && forall|j: int|
                    0 <= j < calls.len() && j != i ==> !answers_call(
                        (#[trigger] calls[j]).item,
                        output,
                    );
            if k < end {
                assert(answers_call(rest[k].item, output));
                assert(answers_one(output, rest));
            }
        }
    }
}

proof fn lemma_run_starts(history: Seq<EnvelopeModel>, start: int, end: int)
    requires
        0 <= start <= end <= history.len(),
    ensures
        (forall|i: int| start <= i < end ==> is_output((#[trigger] history[i]).item)) && (start > 0
            ==> !is_output(history[start - 1].item)) ==> outputs_start(history, end) == start,
        (forall|i: int| start <= i < end ==> is_call((#[trigger] history[i]).item)) && (start > 0
            ==> !is_call(history[start - 1].item)) ==> calls_start(history, end) == start,
    decreases end - start,
{
    if start < end {
        lemma_run_starts(history, start, end - 1);
    }
}

/// Parallel calls and their outputs are found whole, in whichever order the outputs came: where each
/// call has exactly one of the outputs and each output is that of exactly one call, and no other call
/// stands directly before, they are the transaction at the end.
pub proof fn lemma_complete_block_is_found(
    before: Seq<EnvelopeModel>,
    calls: Seq<EnvelopeModel>,
    outputs: Seq<EnvelopeModel>,
)
    requires
        calls.len() > 0,
        calls.len() == outputs.len(),
        forall|i: int| 0 <= i < calls.len() ==> is_call((#[trigger] calls[i]).item),
        forall|i: int| 0 <= i < outputs.len() ==> is_output((#[trigger] outputs[i]).item),
        forall|i: int|
            0 <= i < calls.len() ==> has_one_answer((#[trigger] calls[i]).item, outputs),
        forall|i: int|
            0 <= i < outputs.len() ==> answers_one((#[trigger] outputs[i]).item, calls),
        before.len() > 0 ==> !is_call(before.last().item),
    ensures
        latest_transaction(before + calls + outputs) == Some(calls + outputs),
{
    let history = before + calls + outputs;
    let start = before.len() as int;
    let middle = start + calls.len();
    let end = history.len() as int;
    assert forall|i: int| middle <= i < end implies is_output((#[trigger] history[i]).item) by {
        assert(history[i] == outputs[i - middle]);
    }
    assert forall|i: int| start <= i < middle implies is_call((#[trigger] history[i]).item) by {
        assert(history[i] == calls[i - start]);
    }
    assert(history[middle - 1] == calls.last());
    assert(calls[calls.len() - 1] == calls.last());
    assert(before.len() > 0 ==> history[start - 1] == before.last());
    lemma_run_starts(history, middle, end);
    lemma_run_starts(history, start, middle);
    assert(history.subrange(start, middle) =~= calls);
    assert(history.skip(middle) =~= outputs);
    assert(history.skip(start) =~= calls + outputs);
    assert forall|i: int| 0 <= i < calls.len() implies answers_of(
        #[trigger] calls[i].item,
        outputs,
    ) == 1 by {
        assert(has_one_answer(calls[i].item, outputs));
        lemma_count_one_answer(calls[i].item, outputs);
    }
    assert forall|i: int| 0 <= i < outputs.len() implies calls_of(
        #[trigger] outputs[i].item,
        calls,
    ) == 1 by {
        assert(answers_one(outputs[i].item, calls));
        lemma_count_one_call(outputs[i].item, calls);
    }
}

/// What succeeds gives the value that was expected, and what fails is an invalid request that says why;
/// nothing else comes out.
pub proof fn lemma_outcome_is_value_or_reason<T: DeepView>(
    result: Result<T, CodexErr>,
    expected: Result<T::V, Seq<char>>,
)
    ensures
        expected matches Ok(model) ==> (is_outcome(result, expected) <==> (result matches Ok(value)
            && value.deep_view() == model)),
        expected matches Err(text) ==> (is_outcome(result, expected) <==> (result matches Err(
            CodexErr::InvalidRequest(message),
        ) && message@ == text)),
{
}

/// Three functions measure as they are said to where each of them always gives what the measures give.
pub proof fn lemma_what_measures<
    E: Fn(&Vec<ResponseItemEnvelope>, &BaseInstructions) -> Option<i64>,
    T: Fn(&FunctionCallOutputPayload, usize) -> FunctionCallOutputPayload,
    C: Fn(&String) -> usize,
>(estimate: E, truncate: T, count: C, measures: Measures)
    requires
        forall|items: &Vec<ResponseItemEnvelope>, base: &BaseInstructions, tokens: Option<i64>|
            #[trigger] call_ensures(estimate, (items, base), tokens) ==> tokens == (
            measures.history)(items.deep_view(), base.deep_view()),
        forall|output: &FunctionCallOutputPayload, tokens: usize, cut: FunctionCallOutputPayload|
            #[trigger] call_ensures(truncate, (output, tokens), cut) ==> cut.deep_view() == (
            measures.truncated)(output.deep_view(), tokens),
        forall|text: &String, tokens: usize| #[trigger]
            call_ensures(count, (text,), tokens) ==> tokens == (measures.text)(text@),
    ensures
        measure(estimate, truncate, count, measures),
{
}

} // verus!

use codex_runtime::compact_model_fallback::{
    record_model_fallback, should_fall_back_to_local_compaction, should_retry_with_current_model,
    CompactionImplementation, CompactionReason,
};
use codex_runtime::compact_tool_transaction::{
    estimate_item_tokens, find_transaction, function_output_text_token_count,
    latest_complete_tool_transaction, validate_and_reattach_terminal_tool_transaction,
    BaseInstructions, BASELINE_CONTEXT_WINDOW_ERROR, CONTEXT_WINDOW_ERROR, ITEM_LIMIT_ERROR,
    MAX_REATTACHED_ITEM_TOKENS,
};
use codex_runtime::errors::CodexErr;
use codex_runtime::history::{
    CodexHarnessMetadata, ContentItem, FunctionCallOutputBody, FunctionCallOutputContentItem,
    FunctionCallOutputPayload, ResponseItem, ResponseItemEnvelope,
};

#[test]
fn falls_back_to_local_compaction_for_model_specific_failures() {
    let usage_limit = CodexErr::UsageLimitReached(String::new());
    assert!(should_fall_back_to_local_compaction(&usage_limit));
    assert!(should_fall_back_to_local_compaction(
        &CodexErr::InvalidRequest("unsupported input item".to_string())
    ));
    assert!(should_fall_back_to_local_compaction(
        &CodexErr::UnexpectedStatus {
            status: 502,
            body: "proxy unavailable".to_string(),
        }
    ));
    assert!(should_fall_back_to_local_compaction(
        &CodexErr::InternalServerError
    ));
}

#[test]
fn never_falls_back_to_local_compaction_for_aborts_or_collisions() {
    assert!(!should_fall_back_to_local_compaction(
        &CodexErr::TurnAborted
    ));
    assert!(!should_fall_back_to_local_compaction(
        &CodexErr::ToolCollision("duplicate tool".to_string())
    ));
    assert!(!should_fall_back_to_local_compaction(
        &CodexErr::Interrupted
    ));
}

#[test]
fn other_failures_decide_likewise() {
    assert!(should_retry_with_current_model(&CodexErr::ContextWindowExceeded));
    assert!(should_retry_with_current_model(&CodexErr::ServerOverloaded));
    assert!(should_retry_with_current_model(&CodexErr::RetryLimit("x".to_string())));
    assert!(!should_retry_with_current_model(&CodexErr::Fatal("x".to_string())));
    assert!(!should_retry_with_current_model(&CodexErr::Other("x".to_string())));
}

#[test]
fn a_fallback_is_counted_once_with_its_tags() {
    let record = record_model_fallback(
        CompactionReason::ModelDownshift,
        CompactionImplementation::ResponsesCompactionV2,
        None,
    );
    assert_eq!(record.name, "codex.compaction.model_fallback");
    assert_eq!(record.increment, 1);
    assert_eq!(
        record.tags,
        [
            ("reason", "model_downshift"),
            ("implementation", "responses_compaction_v2"),
            ("outcome", "succeeded"),
        ]
    );
    let failed = record_model_fallback(
        CompactionReason::UserRequested,
        CompactionImplementation::Responses,
        Some(&CodexErr::TurnAborted),
    );
    assert_eq!(
        failed.tags,
        [
            ("reason", "user_requested"),
            ("implementation", "responses"),
            ("outcome", "failed"),
        ]
    );
}

fn envelope(item: ResponseItem) -> ResponseItemEnvelope {
    ResponseItemEnvelope::new(item)
}

fn annotated(item: ResponseItem) -> ResponseItemEnvelope {
    ResponseItemEnvelope {
        item,
        metadata: Some(CodexHarnessMetadata {
            client_authored: true,
            details: String::new(),
        }),
    }
}

fn message(role: &str, text: &str) -> ResponseItem {
    ResponseItem::Message {
        role: role.to_string(),
        content: vec![ContentItem::InputText {
            text: text.to_string(),
        }],
        details: String::new(),
    }
}

fn function_call(call_id: &str, name: &str) -> ResponseItem {
    ResponseItem::FunctionCall {
        call_id: call_id.to_string(),
        details: format!("name={name} arguments={{}}"),
    }
}

fn function_output(call_id: &str, output: impl Into<String>) -> ResponseItem {
    ResponseItem::FunctionCallOutput {
        call_id: Some(call_id.to_string()),
        output: FunctionCallOutputPayload::from_text(output.into()),
        details: String::new(),
    }
}

fn compaction() -> ResponseItemEnvelope {
    envelope(ResponseItem::Compaction {
        details: "opaque-compaction".to_string(),
    })
}

fn empty_instructions() -> BaseInstructions {
    BaseInstructions {
        text: String::new(),
        provenance: None,
    }
}

fn estimate(items: &Vec<ResponseItemEnvelope>, base: &BaseInstructions) -> Option<i64> {
    let bytes: usize = items.iter().map(|envelope| format!("{:?}", envelope.item).len()).sum();
    Some(((bytes + base.text.len()).div_ceil(4)) as i64)
}

fn count(text: &String) -> usize {
    text.len().div_ceil(4)
}

fn truncate(payload: &FunctionCallOutputPayload, tokens: usize) -> FunctionCallOutputPayload {
    let mut cut = payload.clone();
    if let FunctionCallOutputBody::Text(text) = &mut cut.body {
        text.truncate(tokens * 4);
    }
    cut
}

fn install(
    compacted_history: Vec<ResponseItemEnvelope>,
    transaction: Option<&Vec<ResponseItemEnvelope>>,
    context_window: Option<i64>,
) -> Result<Vec<ResponseItemEnvelope>, CodexErr> {
    validate_and_reattach_terminal_tool_transaction(
        compacted_history,
        transaction,
        context_window,
        &empty_instructions(),
        &estimate,
        &truncate,
        &count,
    )
}

fn reattach(
    compacted_history: Vec<ResponseItemEnvelope>,
    source_history: &[ResponseItemEnvelope],
    context_window: Option<i64>,
) -> Result<Vec<ResponseItemEnvelope>, CodexErr> {
    let transaction = latest_complete_tool_transaction(&source_history.to_vec());
    install(compacted_history, transaction.as_ref(), context_window)
}

fn reason(error: CodexErr) -> String {
    match error {
        CodexErr::InvalidRequest(message) => message,
        other => panic!("expected invalid-request reason, got {other:?}"),
    }
}

#[test]
fn reattaches_parallel_transaction_in_order_with_source_metadata() {
    let transaction = vec![
        annotated(function_call("parallel-1", "read_first")),
        envelope(function_call("parallel-2", "read_second")),
        annotated(function_output("parallel-1", "first state")),
        envelope(function_output("parallel-2", "second state")),
    ];
    let context = envelope(message("developer", "fresh context"));
    let compacted_item = compaction();
    let mut expected = vec![context.clone()];
    expected.extend(transaction.clone());
    expected.push(compacted_item.clone());

    let result = reattach(vec![context, compacted_item], &transaction, Some(100_000))
        .expect("parallel transaction should fit");

    assert_eq!(result, expected);
}

#[test]
fn bounds_large_output_by_complete_serialized_item() {
    let call_id = format!("call-{}", "x".repeat(1_969));
    let call = annotated(function_call(&call_id, "exec"));
    let output = annotated(function_output(&call_id, "x".repeat(50_494)));

    let result = reattach(
        vec![compaction()],
        &[call.clone(), output.clone()],
        Some(100_000),
    )
    .expect("trimmable output should fit its response-item envelope");

    assert_eq!(result.len(), 3);
    assert_eq!(result[0], call);
    assert_eq!(result[1].metadata, output.metadata);
    assert_ne!(result[1].item, output.item);
    assert_eq!(
        estimate_item_tokens(&result[1].item, &estimate),
        MAX_REATTACHED_ITEM_TOKENS
    );
}

#[test]
fn replaces_existing_transaction_without_duplication_and_restores_metadata() {
    let call = annotated(function_call("call-1", "wait"));
    let output = annotated(function_output("call-1", "state"));
    let compacted_history = vec![
        envelope(message("developer", "fresh context")),
        envelope(call.item.clone()),
        envelope(output.item.clone()),
        compaction(),
    ];

    let result = reattach(
        compacted_history,
        &[call.clone(), output.clone()],
        Some(100_000),
    )
    .expect("existing transaction should be reused");

    assert_eq!(
        result,
        vec![
            envelope(message("developer", "fresh context")),
            call,
            output,
            compaction(),
        ]
    );
}

#[test]
fn recognizes_supported_terminal_transaction_types() {
    let custom = vec![
        envelope(ResponseItem::CustomToolCall {
            call_id: "custom-1".to_string(),
            details: "status=completed name=js_repl input=return state".to_string(),
        }),
        envelope(ResponseItem::CustomToolCallOutput {
            call_id: "custom-1".to_string(),
            output: FunctionCallOutputPayload::from_text("custom state".to_string()),
            details: "name=js_repl".to_string(),
        }),
    ];
    let search = vec![
        envelope(ResponseItem::ToolSearchCall {
            call_id: Some("search-1".to_string()),
            details: "status=completed execution=client query=state tool".to_string(),
        }),
        envelope(ResponseItem::ToolSearchOutput {
            call_id: Some("search-1".to_string()),
            details: "status=completed execution=client name=state_tool".to_string(),
        }),
    ];
    let shell = vec![
        envelope(ResponseItem::LocalShellCall {
            call_id: Some("shell-1".to_string()),
            details: "command=printf state".to_string(),
        }),
        envelope(function_output("shell-1", "shell state")),
    ];

    for transaction in [custom, search, shell] {
        let result = reattach(vec![compaction()], &transaction, Some(100_000))
            .expect("supported transaction should fit");
        assert_eq!(&result[..transaction.len()], transaction.as_slice());
    }
}

#[test]
fn rejects_incomplete_or_ambiguous_terminal_blocks() {
    let unmatched = vec![
        envelope(function_call("parallel-1", "read_first")),
        envelope(function_call("parallel-2", "read_second")),
        envelope(function_output("parallel-1", "first state")),
        envelope(function_output("parallel-3", "third state")),
    ];
    let duplicate = vec![
        envelope(function_call("parallel-1", "read_first")),
        envelope(function_call("parallel-1", "read_duplicate")),
        envelope(function_output("parallel-1", "first state")),
        envelope(function_output("parallel-1", "duplicate state")),
    ];

    for history in [unmatched, duplicate] {
        assert_eq!(latest_complete_tool_transaction(&history), None);
    }
}

#[test]
fn fails_closed_when_compacted_baseline_exceeds_context_window() {
    let compacted_history = vec![envelope(message("developer", "fresh")), compaction()];
    let estimated_tokens = estimate(&compacted_history, &empty_instructions())
        .expect("baseline token estimate");

    let error = install(
        compacted_history,
        None,
        Some(estimated_tokens.saturating_sub(1)),
    )
    .expect_err("oversized compacted baseline must not install");

    assert!(reason(error).starts_with(BASELINE_CONTEXT_WINDOW_ERROR));
}

#[test]
fn fails_closed_when_transaction_crosses_context_window() {
    let compacted_history = vec![envelope(message("developer", "fresh")), compaction()];
    let context_window = estimate(&compacted_history, &empty_instructions())
        .expect("baseline token estimate");
    let source = vec![
        envelope(function_call("17", "wait")),
        envelope(function_output("17", "x".repeat(4_096))),
    ];

    let error = reattach(compacted_history, &source, Some(context_window))
        .expect_err("transaction that cannot fit must not install lossily");

    assert!(reason(error).starts_with(CONTEXT_WINDOW_ERROR));
}

#[test]
fn fails_closed_when_untruncatable_call_exceeds_item_limit() {
    let call = ResponseItem::FunctionCall {
        call_id: "17".to_string(),
        details: "x".repeat(50_000),
    };
    let source = vec![envelope(call), envelope(function_output("17", "complete"))];

    let error = reattach(vec![compaction()], &source, Some(100_000))
        .expect_err("oversized call item must not install");

    assert!(reason(error).starts_with(ITEM_LIMIT_ERROR));
}

#[test]
fn an_output_that_cannot_shrink_enough_names_its_size() {
    let call_id = "y".repeat(50_000);
    let source = vec![
        envelope(ResponseItem::CustomToolCall {
            call_id: call_id.clone(),
            details: String::new(),
        }),
        envelope(ResponseItem::CustomToolCallOutput {
            call_id,
            output: FunctionCallOutputPayload::from_text("complete".to_string()),
            details: String::new(),
        }),
    ];
    let message = reason(reattach(vec![compaction()], &source, None).expect_err("too large"));
    assert!(message.starts_with(ITEM_LIMIT_ERROR));
    assert!(message.contains(" (estimated 12"), "{message}");
}

#[test]
fn the_bounded_form_takes_the_place_of_both() {
    let call = envelope(function_call("c", "exec"));
    let output = envelope(function_output("c", "x".repeat(50_000)));
    let bounded = reattach(vec![compaction()], &[call.clone(), output.clone()], None).unwrap();
    let both = vec![
        call.clone(),
        output.clone(),
        envelope(message("user", "hi")),
        bounded[0].clone(),
        bounded[1].clone(),
        compaction(),
    ];
    let result = reattach(both, &[call, output], None).unwrap();
    assert_eq!(
        result,
        vec![
            envelope(message("user", "hi")),
            bounded[0].clone(),
            bounded[1].clone(),
            compaction(),
        ]
    );
}

#[test]
fn without_a_compaction_the_transaction_comes_last() {
    let source = [envelope(function_call("c", "wait")), envelope(function_output("c", "ok"))];
    let history = vec![envelope(message("user", "hi"))];
    let result = reattach(history.clone(), &source, None).unwrap();
    assert_eq!(result.len(), 3);
    assert_eq!(result[0], history[0]);
    assert_eq!(&result[1..], &source[..]);
    assert_eq!(find_transaction(&result, &source.to_vec()), Some(1));
    assert_eq!(find_transaction(&history, &source.to_vec()), None);
}

#[test]
fn only_texts_of_an_output_are_counted() {
    let payload = FunctionCallOutputPayload {
        body: FunctionCallOutputBody::ContentItems(vec![
            FunctionCallOutputContentItem::InputText {
                text: "12345678".to_string(),
            },
            FunctionCallOutputContentItem::InputImage {
                details: "123456789".to_string(),
            },
            FunctionCallOutputContentItem::InputText {
                text: "1".to_string(),
            },
        ]),
        success: None,
    };
    assert_eq!(function_output_text_token_count(&payload, &count), 3);
    assert_eq!(function_output_text_token_count(&payload, &|_: &String| usize::MAX), usize::MAX);
}

#[test]
fn a_conversation_without_outputs_at_its_end_has_no_transaction() {
    let history = vec![
        envelope(function_call("c", "wait")),
        envelope(function_output("c", "ok")),
        envelope(message("user", "next")),
    ];
    assert_eq!(latest_complete_tool_transaction(&history), None);
    assert_eq!(
        latest_complete_tool_transaction(&history[..2].to_vec()),
        Some(history[..2].to_vec())
    );
}

#[test]
fn a_block_that_is_no_transaction_is_put_back_too() {
    let block = vec![envelope(message("user", "a")), envelope(message("user", "b"))];
    let history = vec![envelope(message("user", "c")), compaction()];
    let result = install(history.clone(), Some(&block), None).unwrap();
    assert_eq!(
        result,
        vec![history[0].clone(), block[0].clone(), block[1].clone(), history[1].clone()]
    );
}

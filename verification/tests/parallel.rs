use codex_runtime::errors::CodexErr;
use codex_runtime::goal_tool::FunctionCallError;
use codex_runtime::history::{FunctionCallOutputBody, FunctionCallOutputPayload};
use codex_runtime::parallel::{
    clone_duplicate_tool_output, expand_duplicate_tool_outputs, response_with_call_id,
    tool_call_dedupe_key, CallStart, DuplicateToolCallGroup, LockMode, ResponseInputItem, ToolCall,
    ToolCallRuntime, ToolName, ToolOutcome, ToolPayload,
};

fn done(call_id: &str) -> ResponseInputItem {
    ResponseInputItem::FunctionCallOutput {
        call_id: call_id.to_string(),
        output: FunctionCallOutputPayload {
            body: FunctionCallOutputBody::Text("done".to_string()),
            success: Some(true),
        },
    }
}

#[test]
fn expands_tool_output_to_every_duplicate_call_id() {
    let mut duplicate_group = DuplicateToolCallGroup {
        call_ids: vec!["call_original".to_string(), "call_duplicate".to_string()],
        response: None,
    };
    let expanded = expand_duplicate_tool_outputs(done("call_original"), &mut duplicate_group);
    assert_eq!(expanded, vec![done("call_original"), done("call_duplicate")]);
}

#[test]
fn late_duplicate_gets_cached_tool_output() {
    let mut duplicate_group = DuplicateToolCallGroup {
        call_ids: vec!["call_original".to_string()],
        response: None,
    };
    expand_duplicate_tool_outputs(done("call_original"), &mut duplicate_group);
    let cloned = clone_duplicate_tool_output(&mut duplicate_group, "call_duplicate".to_string());
    assert_eq!(cloned, vec![done("call_duplicate")]);
}

fn call(call_id: &str, payload: ToolPayload) -> ToolCall {
    ToolCall {
        tool_name: ToolName {
            name: "shell".to_string(),
            namespace: None,
            shown: "shell".to_string(),
        },
        call_id: call_id.to_string(),
        payload,
    }
}

fn function(arguments: &str) -> ToolPayload {
    ToolPayload::Function {
        arguments: arguments.to_string(),
    }
}

#[test]
fn keys_speak_of_tool_and_payload() {
    assert_eq!(tool_call_dedupe_key(&call("a", function("{}"))), "shell:function:{}");
    let custom = ToolPayload::Custom {
        input: "x".to_string(),
    };
    assert_eq!(tool_call_dedupe_key(&call("a", custom)), "shell:custom:x");
    let local = ToolPayload::LocalShell {
        params: "P".to_string(),
    };
    assert_eq!(tool_call_dedupe_key(&call("a", local)), "shell:local_shell:P");
    let search = |limit| ToolPayload::ToolSearch {
        query: "a \"b\"".to_string(),
        limit,
    };
    assert_eq!(
        tool_call_dedupe_key(&call("a", search(Some(3)))),
        "shell:{\"kind\":\"tool_search\",\"limit\":3,\"query\":\"a \\\"b\\\"\"}"
    );
    assert_eq!(
        tool_call_dedupe_key(&call("a", search(None))),
        "shell:{\"kind\":\"tool_search\",\"limit\":null,\"query\":\"a \\\"b\\\"\"}"
    );
    let mcp = ToolPayload::Mcp {
        server: "s".to_string(),
        tool: "t".to_string(),
        raw_arguments: "{}".to_string(),
    };
    assert_eq!(
        tool_call_dedupe_key(&call("a", mcp)),
        "shell:{\"kind\":\"mcp\",\"raw_arguments\":\"{}\",\"server\":\"s\",\"tool\":\"t\"}"
    );
}

#[test]
fn each_equal_call_is_answered_once() {
    let mut runtime = ToolCallRuntime::new();
    assert_eq!(
        runtime.handle_tool_call(&call("first", function("{}"))),
        CallStart::Run { group: 0 }
    );
    assert_eq!(
        runtime.handle_tool_call(&call("other", function("[]"))),
        CallStart::Run { group: 1 }
    );
    assert_eq!(
        runtime.handle_tool_call(&call("early", function("{}"))),
        CallStart::Answered(Vec::new())
    );
    let answers = runtime.finish_tool_call(
        0,
        &call("first", function("{}")),
        ToolOutcome::Response(done("first")),
    );
    assert_eq!(answers, Ok(vec![done("first"), done("early")]));
    assert_eq!(
        runtime.handle_tool_call(&call("late", function("{}"))),
        CallStart::Answered(vec![done("late")])
    );
    runtime.clear_duplicate_tool_calls();
    assert!(runtime.keys.is_empty());
    assert_eq!(runtime.groups[0].response, None);
    assert_eq!(runtime.groups[1].call_ids, vec!["other".to_string()]);
    assert_eq!(
        runtime.handle_tool_call(&call("anew", function("{}"))),
        CallStart::Run { group: 2 }
    );
    let answers = runtime.finish_tool_call(
        1,
        &call("other", function("[]")),
        ToolOutcome::Response(done("other")),
    );
    assert_eq!(answers, Ok(vec![done("other")]));
}

#[test]
fn a_failure_is_answered_and_a_fatal_one_is_not() {
    let mut runtime = ToolCallRuntime::new();
    runtime.handle_tool_call(&call("first", function("{}")));
    assert_eq!(
        runtime.finish_tool_call(
            0,
            &call("first", function("{}")),
            ToolOutcome::Fatal("lost".to_string())
        ),
        Err(CodexErr::Fatal("lost".to_string()))
    );
    assert_eq!(
        runtime.finish_tool_call(
            0,
            &call("first", function("{}")),
            ToolOutcome::Failed("no".to_string())
        ),
        Ok(vec![ResponseInputItem::FunctionCallOutput {
            call_id: "first".to_string(),
            output: FunctionCallOutputPayload {
                body: FunctionCallOutputBody::Text("no".to_string()),
                success: Some(false),
            },
        }])
    );
}

#[test]
fn failures_are_of_the_kind_of_the_call() {
    let search = ToolPayload::ToolSearch {
        query: "q".to_string(),
        limit: None,
    };
    assert_eq!(
        ToolCallRuntime::failure_response(&call("c", search), "no".to_string()),
        ResponseInputItem::ToolSearchOutput {
            call_id: "c".to_string(),
            status: "completed".to_string(),
            execution: "client".to_string(),
            tools: Vec::new(),
        }
    );
    let custom = ToolPayload::Custom {
        input: "q".to_string(),
    };
    assert_eq!(
        ToolCallRuntime::failure_response(&call("c", custom), "no".to_string()),
        ResponseInputItem::CustomToolCallOutput {
            call_id: "c".to_string(),
            name: None,
            output: FunctionCallOutputPayload {
                body: FunctionCallOutputBody::Text("no".to_string()),
                success: Some(false),
            },
        }
    );
}

#[test]
fn answers_keep_all_but_their_id() {
    let search = ResponseInputItem::ToolSearchOutput {
        call_id: "a".to_string(),
        status: "completed".to_string(),
        execution: "client".to_string(),
        tools: vec!["t".to_string()],
    };
    assert_eq!(
        response_with_call_id(&search, "b".to_string()),
        ResponseInputItem::ToolSearchOutput {
            call_id: "b".to_string(),
            status: "completed".to_string(),
            execution: "client".to_string(),
            tools: vec!["t".to_string()],
        }
    );
    let message = ResponseInputItem::Message {
        details: "m".to_string(),
    };
    assert_eq!(
        response_with_call_id(&message, "b".to_string()),
        ResponseInputItem::Message {
            details: "m".to_string()
        }
    );
}

#[test]
fn an_abort_says_how_long_the_call_ran() {
    let shell = call("c", function("{}"));
    assert_eq!(
        ToolCallRuntime::abort_message(&shell, "1.5"),
        "Wall time: 1.5 seconds\naborted by user"
    );
    let mut other = call("c", function("{}"));
    other.tool_name.namespace = Some("mcp".to_string());
    assert_eq!(ToolCallRuntime::abort_message(&other, "0.1"), "aborted by user after 0.1s");
    other.tool_name.namespace = None;
    other.tool_name.name = "read".to_string();
    assert_eq!(ToolCallRuntime::abort_message(&other, "0.1"), "aborted by user after 0.1s");
    let aborted = ToolCallRuntime::aborted_response(&shell, "2.0");
    assert_eq!(aborted.call_id, "c");
    assert_eq!(aborted.payload, function("{}"));
    assert_eq!(aborted.message, "Wall time: 2.0 seconds\naborted by user");
}

#[test]
fn tools_share_or_run_alone() {
    assert_eq!(ToolCallRuntime::lock_mode(true), LockMode::Shared);
    assert_eq!(ToolCallRuntime::lock_mode(false), LockMode::Exclusive);
    assert_eq!(
        ToolCallRuntime::task_failed("Cancelled"),
        FunctionCallError::Fatal("tool task failed to receive: Cancelled".to_string())
    );
}

//! What follows when a compaction fails.

use crate::errors::CodexErr;
use vstd::prelude::*;

verus! {

/// Whether a failure may be of one model and not of another. An abort, a collision of tools and
/// any other failure is not.
pub open spec fn may_be_model_specific(error: CodexErr) -> bool {
    match error {
        CodexErr::InvalidRequest(_) => true,
        CodexErr::UnexpectedStatus { .. } => true,
        CodexErr::ContextWindowExceeded => true,
        CodexErr::UsageLimitReached(_) => true,
        CodexErr::ServerOverloaded => true,
        CodexErr::InternalServerError => true,
        CodexErr::RetryLimit(_) => true,
        _ => false,
    }
}

/// Whether to try again with the current model after another failed.
pub fn should_retry_with_current_model(error: &CodexErr) -> (retry: bool)
    ensures
        retry == may_be_model_specific(*error),
{
    match error {
        CodexErr::InvalidRequest(_)
        | CodexErr::UnexpectedStatus { .. }
        | CodexErr::ContextWindowExceeded
        | CodexErr::UsageLimitReached(_)
        | CodexErr::ServerOverloaded
        | CodexErr::InternalServerError
        | CodexErr::RetryLimit(_) => true,
        _ => false,
    }
}

/// Whether to summarize locally after a remote compaction failed. A provider may claim to compact
/// and route to models that cannot, so a failure that may be of the model is no reason to give up
/// the turn; an abort or a collision of tools is never tried again.
pub fn should_fall_back_to_local_compaction(error: &CodexErr) -> (fall_back: bool)
    ensures
        fall_back == may_be_model_specific(*error),
        error is TurnAborted || error is Interrupted || error is ToolCollision ==> !fall_back,
{
    should_retry_with_current_model(error)
}

/// Why a conversation is compacted.
#[derive(Debug, Clone, Copy, PartialEq, Eq, Structural)]
pub enum CompactionReason {
    UserRequested,
    ContextLimit,
    ModelDownshift,
    CompHashChanged,
}

/// How a conversation is compacted.
#[derive(Debug, Clone, Copy, PartialEq, Eq, Structural)]
pub enum CompactionImplementation {
    Responses,
    ResponsesCompactionV2,
}

/// A count to record: its name and its tags, each with its value.
#[derive(Debug, PartialEq, Eq)]
pub struct CounterRecord {
    pub name: &'static str,
    pub increment: i64,
    pub tags: [(&'static str, &'static str); 3],
}

/// The tag of a reason.
pub open spec fn reason_tag(reason: CompactionReason) -> Seq<char> {
    match reason {
        CompactionReason::UserRequested => "user_requested"@,
        CompactionReason::ContextLimit => "context_limit"@,
        CompactionReason::ModelDownshift => "model_downshift"@,
        CompactionReason::CompHashChanged => "comp_hash_changed"@,
    }
}

/// The tag of an implementation.
pub open spec fn implementation_tag(implementation: CompactionImplementation) -> Seq<char> {
    match implementation {
        CompactionImplementation::Responses => "responses"@,
        CompactionImplementation::ResponsesCompactionV2 => "responses_compaction_v2"@,
    }
}

/// Whether a tag has a name and a value.
pub open spec fn is_tag(tag: (&'static str, &'static str), name: Seq<char>, value: Seq<char>) -> bool {
    tag.0@ == name && tag.1@ == value
}

/// What to count once a compaction was tried again with the current model: one, with the reason,
/// the implementation, and whether the second try failed.
pub fn record_model_fallback(
    reason: CompactionReason,
    implementation: CompactionImplementation,
    fallback_error: Option<&CodexErr>,
) -> (record: CounterRecord)
    ensures
        record.name@ == "codex.compaction.model_fallback"@,
        record.increment == 1,
        is_tag(record.tags[0], "reason"@, reason_tag(reason)),
        is_tag(record.tags[1], "implementation"@, implementation_tag(implementation)),
        is_tag(
            record.tags[2],
            "outcome"@,
            if fallback_error is None {
                "succeeded"@
            } else {
                "failed"@
            },
        ),
{
    let reason_value = match reason {
        CompactionReason::UserRequested => "user_requested",
        CompactionReason::ContextLimit => "context_limit",
        CompactionReason::ModelDownshift => "model_downshift",
        CompactionReason::CompHashChanged => "comp_hash_changed",
    };
    let implementation_value = match implementation {
        CompactionImplementation::Responses => "responses",
        CompactionImplementation::ResponsesCompactionV2 => "responses_compaction_v2",
    };
    let outcome = if fallback_error.is_none() {
        "succeeded"
    } else {
        "failed"
    };
    CounterRecord {
        name: "codex.compaction.model_fallback",
        increment: 1,
        tags: [
            ("reason", reason_value),
            ("implementation", implementation_value),
            ("outcome", outcome),
        ],
    }
}

/// Which failures may be of the model: those of the request, of the server and of its limits. What the
/// user or the session stopped, and any other failure, is none.
pub proof fn lemma_failures_of_the_model(error: CodexErr)
    ensures
        may_be_model_specific(error) <==> (error is InvalidRequest || error is UnexpectedStatus
            || error is ContextWindowExceeded || error is UsageLimitReached
            || error is ServerOverloaded || error is InternalServerError || error is RetryLimit),
{
}

/// Each reason and each implementation is counted under its own name.
pub proof fn lemma_names_in_the_count()
    ensures
        reason_tag(CompactionReason::UserRequested) == "user_requested"@,
        reason_tag(CompactionReason::ContextLimit) == "context_limit"@,
        reason_tag(CompactionReason::ModelDownshift) == "model_downshift"@,
        reason_tag(CompactionReason::CompHashChanged) == "comp_hash_changed"@,
        implementation_tag(CompactionImplementation::Responses) == "responses"@,
        implementation_tag(CompactionImplementation::ResponsesCompactionV2)
            == "responses_compaction_v2"@,
{
}

} // verus!

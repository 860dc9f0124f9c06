//! Goal scheduling, quota accounting, compaction and tool-call bookkeeping for a coding session,
//! with each decision stated in a contract and proved.

pub mod calendar;
pub mod compact_model_fallback;
pub mod compact_tool_transaction;
pub mod errors;
pub mod goal_display;
pub mod goal_editor;
pub mod goal_execution;
pub mod goal_menu;
pub mod goal_quota;
pub mod goal_spec;
pub mod goal_tool;
pub mod history;
pub mod lists;
pub mod parallel;
pub mod protocol;
pub mod queued_followups;
pub mod rate_limit_resets;
pub mod schedule;
pub mod sqlite;
pub mod text;

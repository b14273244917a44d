//! An actor framework over an immutable event log.
//!
//! A component folds facts into a view and the transitions that the view enables,
//! and the runtime performs those transitions until the fold enables nothing.
//! Resuming a thread replays the log instead of restoring waits that a process
//! held.
//!
//! This library holds the rules: the log and its text, the fold and the selection
//! of transitions, the coding harness, its composition, and the decisions of the
//! operators on programs. What performs a transition stands outside and hands its
//! outcome back.

pub mod actor;
pub mod actor_laws;
pub mod coding;
pub mod compose;
pub mod effect;
pub mod error;
pub mod exit;
pub mod fact;
pub mod fact_laws;
pub mod fact_report;
pub mod json;
pub mod json_text;
pub mod log;
pub mod log_file;
pub mod log_laws;
pub mod model_laws;
pub mod payload;
pub mod payload_laws;
pub mod scheduler;
pub mod scheduler_laws;
pub mod schema;
pub mod text;
pub mod text_laws;
pub mod turn_laws;
pub mod view_laws;

pub use actor::{component, Actor, Component, ErasedComponent, Next, Progress, Settlement,
    Transition};
pub use coding::{answer_fact, coding_actor, coding_scheduler, confirm_fact, merge_coding_view,
    message_fact, CodingPhase, CodingView, CompletionRequest, HarnessConfig, PendingConfirmation,
    PendingQuestion, ToolSpec};
pub use effect::{Schedule, TraceEvent};
pub use error::ActorError;
pub use exit::Exit;
pub use fact::{cut_log, parse_fact_json, Fact, LogCut, NewFact};
pub use json::{Json, JsonObject};
pub use log::{LogStore, MemoryLog};
pub use payload::{ModelDecision, ToolCall};
pub use scheduler::CodingTask;

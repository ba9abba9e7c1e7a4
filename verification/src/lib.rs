//! Verified core of the spearlet execution layer: the descriptor table that
//! guest programs drive through host calls, the readiness (poll) machinery,
//! the realtime ASR / microphone / user-stream descriptor state machines,
//! termination and log bookkeeping, and the runtime response model.

pub mod errno;
pub mod poll;
pub mod json;
pub mod types;
pub mod tables;
pub mod fd_table;
pub mod fd_ctl;
pub mod termination;
pub mod host;
pub mod rtasr;
pub mod segmentation;
pub mod rtasr_ctl;
pub mod runtime;
pub mod runtime_config;
pub mod wasm_logs;
pub mod user_stream;
pub mod user_stream_host;
pub mod codec;
pub mod mic;
pub mod http_adapter;
pub mod registry;
pub mod rtasr_tasks;
pub mod laws;
pub mod cchat;
pub mod template;
pub mod wasm_host;
pub mod wasm_modules;
pub mod execution_error;
pub mod runtime_manager;
pub mod wasm_exec;
pub mod tool_loop;
pub mod execution_flow;
pub mod replicas;

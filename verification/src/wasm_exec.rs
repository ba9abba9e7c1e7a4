//! The decisions a WebAssembly runtime makes when it runs a function of an
//! instance: which exported function is the entry point, whether the caller
//! waits for the result, and how a run that is handed to the instance's
//! worker without waiting is started and answered.
use vstd::prelude::*;
use crate::json::str_eq;
use crate::runtime::{ExecutionMode, ExecutionStatus, RuntimeExecutionResponse};
use crate::runtime_config::{WasmInstanceState, texts};
use crate::execution_error::ExecutionError;
use crate::termination::{TerminationSnapshot, opt_text};

verus! {

/// The function name that asks the runtime to pick the entry point.
pub const DEFAULT_ENTRY_FUNCTION_NAME: &'static str = "__spear_default_entry__";

/// The function a request for `requested` runs, given the module's
/// exported functions: the requested one, or, where none or the default
/// entry was requested, `_start` when the module exports it and `main`
/// otherwise.
pub open spec fn entry_choice(requested: Seq<char>, exports: Seq<Seq<char>>) -> Seq<char> {
    if requested.len() == 0 || requested == DEFAULT_ENTRY_FUNCTION_NAME@ {
        if exports.contains("_start"@) {
            "_start"@
        } else {
            "main"@
        }
    } else {
        requested
    }
}

/// The function a request for `requested` runs (see [`entry_choice`]).
pub fn choose_entry_function(requested: &str, exports: &Vec<String>) -> (r: String)
    ensures
        r@ == entry_choice(requested@, texts(exports@)),
{
    if requested.unicode_len() == 0 || str_eq(requested, DEFAULT_ENTRY_FUNCTION_NAME) {
        let mut i: usize = 0;
        while i < exports.len()
            invariant
                0 <= i <= exports@.len(),
                requested@.len() == 0 || requested@ == DEFAULT_ENTRY_FUNCTION_NAME@,
                forall|j: int| 0 <= j < i ==> exports@[j]@ != "_start"@,
            decreases exports@.len() - i,
        {
            if str_eq(exports[i].as_str(), "_start") {
                assert(texts(exports@)[i as int] == "_start"@);
                return String::from_str("_start");
            }
            i = i + 1;
        }
        assert(!texts(exports@).contains("_start"@)) by {
            if texts(exports@).contains("_start"@) {
                let j = choose|j: int| 0 <= j < texts(exports@).len() && texts(exports@)[j] == "_start"@;
                assert(exports@[j]@ == "_start"@);
            }
        }
        String::from_str("main")
    } else {
        requested.to_string()
    }
}

/// Whether a run is handed to the worker without waiting for its result:
/// when the caller does not wait, or asks for an asynchronous run.
pub open spec fn runs_without_waiting(wait: bool, mode: ExecutionMode) -> bool {
    !wait || mode == ExecutionMode::Async
}

/// Whether a run is handed to the worker without waiting (see
/// [`runs_without_waiting`]).
pub fn dispatches_without_waiting(wait: bool, mode: ExecutionMode) -> (r: bool)
    ensures
        r == runs_without_waiting(wait, mode),
{
    !wait || mode == ExecutionMode::Async
}

/// The message a run is refused with while another one is under way.
pub open spec fn busy_text() -> Seq<char> {
    "another execution already in progress"@
}

/// Starts a run of `function_name` at `now_ms` on an instance that is not
/// waited for: refused with an invalid-request error while another run is
/// under way (the state is left as it was), else the instance is marked
/// running that function since `now_ms`.
pub fn begin_run_without_waiting(state: &mut WasmInstanceState, function_name: &String, now_ms: u64) -> (r: Result<
    (),
    ExecutionError,
>)
    ensures
        r is Ok <==> !old(state).is_running,
        r matches Err(e) ==> (e matches ExecutionError::InvalidRequest { message } && message@ == busy_text())
            && final(state).is_running == old(state).is_running
            && final(state).last_execution_time_ms == old(state).last_execution_time_ms
            && final(state).current_function == old(state).current_function,
        r is Ok ==> final(state).is_running && final(state).last_execution_time_ms == Some(now_ms)
            && (final(state).current_function matches Some(f) && f@ == function_name@),
        final(state).initialized == old(state).initialized,
        final(state).memory_usage == old(state).memory_usage,
        final(state).fuel_remaining == old(state).fuel_remaining,
{
    if state.is_running {
        let message = String::from_str("another execution already in progress");
        proof {
            reveal_strlit("another execution already in progress");
        }
        return Err(ExecutionError::InvalidRequest { message });
    }
    state.last_execution_time_ms = Some(now_ms);
    state.is_running = true;
    state.current_function = Some(function_name.clone());
    Ok(())
}

/// The answer to a run handed to the worker without waiting: an
/// asynchronous run of `task_id`, still running, with no data and no
/// status endpoint, after `duration_ms`.
pub fn run_dispatched_response(execution_id: String, task_id: String, duration_ms: u64) -> (r: RuntimeExecutionResponse)
    ensures
        r.execution_id == execution_id,
        r.task_id == Some(task_id),
        r.duration_ms == duration_ms,
        r.data@.len() == 0,
        r.metadata@.len() == 0,
        r.execution_mode == ExecutionMode::Async,
        r.execution_status == ExecutionStatus::Running,
        r.status_endpoint is None,
        r.estimated_completion_ms is None,
        r.error is None,
{
    RuntimeExecutionResponse {
        data: Vec::new(),
        duration_ms,
        metadata: Vec::new(),
        execution_mode: ExecutionMode::Async,
        execution_status: ExecutionStatus::Running,
        execution_id,
        task_id: Some(task_id),
        status_endpoint: None,
        estimated_completion_ms: None,
        error: None,
    }
}

/// Whether `b` starts with the WebAssembly magic number `\0asm`.
pub open spec fn has_wasm_magic(b: Seq<u8>) -> bool {
    b.len() >= 4 && b[0] == 0x00 && b[1] == 0x61 && b[2] == 0x73 && b[3] == 0x6d
}

/// Whether `b` starts with the WebAssembly magic number (see
/// [`has_wasm_magic`]).
pub fn starts_with_wasm_magic(b: &[u8]) -> (r: bool)
    ensures
        r == has_wasm_magic(b@),
{
    b.len() >= 4 && b[0] == 0x00 && b[1] == 0x61 && b[2] == 0x73 && b[3] == 0x6d
}

/// Checks the module an instance is created from: an invalid-configuration
/// error "Invalid WASM module: missing magic header" where it does not
/// start with the magic number.
pub fn check_instance_module(b: &[u8]) -> (r: Result<(), ExecutionError>)
    ensures
        has_wasm_magic(b@) ==> r is Ok,
        !has_wasm_magic(b@) ==> (r matches Err(ExecutionError::InvalidConfiguration { message }) && message@
            == "Invalid WASM module: missing magic header"@),
{
    if starts_with_wasm_magic(b) {
        Ok(())
    } else {
        Err(ExecutionError::InvalidConfiguration { message: String::from_str("Invalid WASM module: missing magic header") })
    }
}

/// Checks the module a worker starts from: an invalid-configuration error
/// "Invalid WASM module format" where it does not start with the magic
/// number.
pub fn check_worker_module(b: &[u8]) -> (r: Result<(), ExecutionError>)
    ensures
        has_wasm_magic(b@) ==> r is Ok,
        !has_wasm_magic(b@) ==> (r matches Err(ExecutionError::InvalidConfiguration { message }) && message@
            == "Invalid WASM module format"@),
{
    if starts_with_wasm_magic(b) {
        Ok(())
    } else {
        Err(ExecutionError::InvalidConfiguration { message: String::from_str("Invalid WASM module format") })
    }
}

/// The error a failed run of a guest function gives: a destroyed instance
/// where a destruction request is pending for the instance (its message, by
/// default "instance destroyed"), else a terminated execution where a
/// termination request is pending for the execution (its message, by
/// default "execution terminated"), else an engine error with the engine's
/// text.
pub open spec fn run_failure(
    instance_request: Option<Option<Seq<char>>>,
    execution_request: Option<Option<Seq<char>>>,
    engine_text: Seq<char>,
    e: ExecutionError,
) -> bool {
    match instance_request {
        Some(m) => e matches ExecutionError::InstanceDestroyed { message } && message@ == (match m {
            Some(t) => t,
            None => "instance destroyed"@,
        }),
        None => match execution_request {
            Some(m) => e matches ExecutionError::ExecutionTerminated { message } && message@ == (match m {
                Some(t) => t,
                None => "execution terminated"@,
            }),
            None => e matches ExecutionError::RuntimeError { message } && message@ == "wasmedge exec error: "@
                + engine_text,
        },
    }
}

/// The message of an optional snapshot.
pub open spec fn snapshot_message(s: Option<TerminationSnapshot>) -> Option<Option<Seq<char>>> {
    match s {
        Some(x) => Some(opt_text(x.message)),
        None => None,
    }
}

/// The error a failed run gives (see [`run_failure`]), from the pending
/// destruction request of the instance, the pending termination request of
/// the execution, and the engine's text of the failure.
pub fn classify_run_failure(
    instance_request: Option<TerminationSnapshot>,
    execution_request: Option<TerminationSnapshot>,
    engine_text: &str,
) -> (r: ExecutionError)
    ensures
        run_failure(snapshot_message(instance_request), snapshot_message(execution_request), engine_text@, r),
{
    match instance_request {
        Some(s) => ExecutionError::InstanceDestroyed {
            message: match s.message {
                Some(m) => m,
                None => String::from_str("instance destroyed"),
            },
        },
        None => match execution_request {
            Some(s) => ExecutionError::ExecutionTerminated {
                message: match s.message {
                    Some(m) => m,
                    None => String::from_str("execution terminated"),
                },
            },
            None => ExecutionError::RuntimeError { message: String::from_str("wasmedge exec error: ").concat(engine_text) },
        },
    }
}

} // verus!

//! Decisions the WebAssembly host-call layer makes around the guest: the
//! termination guard that every host call passes first, and the function
//! table through which guest tools are called.
use vstd::prelude::*;
use crate::host::DefaultHostApi;
use crate::termination::{TerminationScope, TerminationSnapshot, opt_text};
use crate::wasm_logs::{WasmLogStore, log_appended};
use crate::json::str_eq;

verus! {

/// The message of a termination request of `scope` with reason `message`.
pub open spec fn termination_text(scope: TerminationScope, message: Option<Seq<char>>) -> Seq<char> {
    match (scope, message) {
        (TerminationScope::Execution, Some(m)) => "Terminate execution: "@ + m,
        (TerminationScope::Instance, Some(m)) => "Destroy instance: "@ + m,
        (TerminationScope::Execution, None) => "Terminate execution"@,
        (TerminationScope::Instance, None) => "Destroy instance"@,
    }
}

/// The message of termination request `s` (see [`termination_text`]).
pub fn termination_message(s: &TerminationSnapshot) -> (r: String)
    ensures
        r@ == termination_text(s.scope, opt_text(s.message)),
{
    match (s.scope, &s.message) {
        (TerminationScope::Execution, Some(m)) => String::from_str("Terminate execution: ").concat(m.as_str()),
        (TerminationScope::Instance, Some(m)) => String::from_str("Destroy instance: ").concat(m.as_str()),
        (TerminationScope::Execution, None) => String::from_str("Terminate execution"),
        (TerminationScope::Instance, None) => String::from_str("Destroy instance"),
    }
}

impl DefaultHostApi {
    /// The guard a host call passes first: where a termination request is
    /// pending for the guest (`pending`, as a termination check found it),
    /// a warning line with the request's message is logged (see
    /// [`DefaultHostApi::wasm_log_write`]) and the call fails with that
    /// message; otherwise it goes on and nothing changes.
    pub fn guard_termination(
        &self,
        store: &mut WasmLogStore,
        pending: Option<TerminationSnapshot>,
        now_ms: u64,
        current_execution_id: Option<&str>,
    ) -> (r: Result<(), String>)
        requires
            old(store).wf(),
        ensures
            final(store).wf(),
            match pending {
                None => r is Ok && final(store).spec_rings() == old(store).spec_rings(),
                Some(s) => {
                    let text = termination_text(s.scope, opt_text(s.message));
                    let exec = match self.execution_id {
                        Some(x) => Some(x@),
                        None => match current_execution_id {
                            Some(c) => Some(c@),
                            None => None,
                        },
                    };
                    &&& r matches Err(m) && m@ == text
                    &&& if self.instance_id is None || exec is None {
                        final(store).spec_rings() == old(store).spec_rings()
                    } else {
                        log_appended(
                            old(store).spec_rings(),
                            final(store).spec_rings(),
                            exec.unwrap(),
                            now_ms,
                            "warn"@,
                            opt_text(self.task_id),
                            opt_text(self.instance_id),
                            text,
                        )
                    }
                },
            },
    {
        match pending {
            None => Ok(()),
            Some(s) => {
                let msg = termination_message(&s);
                self.wasm_log_write(store, "warn", msg.as_str(), now_ms, current_execution_id);
                Err(msg)
            },
        }
    }
}

/// The function table to call guest tools through, of the tables a module
/// exports (`None` when it exports none): `__indirect_function_table`,
/// else `table`, else the first.
pub open spec fn func_table_choice(names: Option<Seq<Seq<char>>>) -> Option<Seq<char>> {
    match names {
        None => None,
        Some(n) => if n.len() == 0 {
            None
        } else if n.contains("__indirect_function_table"@) {
            Some("__indirect_function_table"@)
        } else if n.contains("table"@) {
            Some("table"@)
        } else {
            Some(n[0])
        },
    }
}

fn list_has(names: &Vec<String>, name: &str) -> (r: bool)
    ensures
        r == names@.map_values(|s: String| s@).contains(name@),
{
    let ghost v = names@.map_values(|s: String| s@);
    let mut i: usize = 0;
    while i < names.len()
        invariant
            i <= names@.len(),
            v == names@.map_values(|s: String| s@),
            forall|j: int| 0 <= j < i ==> v[j] != name@,
        decreases names.len() - i,
    {
        if str_eq(names[i].as_str(), name) {
            assert(v[i as int] == name@);
            return true;
        }
        i = i + 1;
    }
    false
}

/// The function table to call guest tools through (see
/// [`func_table_choice`]); `names` are the tables the module exports, if
/// it reported them.
pub fn choose_func_table_name(names: Option<&Vec<String>>) -> (r: Option<String>)
    ensures
        opt_text(r) == func_table_choice(
            match names {
                Some(n) => Some(n@.map_values(|s: String| s@)),
                None => None,
            },
        ),
{
    let names = match names {
        Some(n) => n,
        None => { return None; },
    };
    if names.len() == 0 {
        return None;
    }
    if list_has(names, "__indirect_function_table") {
        return Some(String::from_str("__indirect_function_table"));
    }
    if list_has(names, "table") {
        return Some(String::from_str("table"));
    }
    Some(names[0].clone())
}

} // verus!

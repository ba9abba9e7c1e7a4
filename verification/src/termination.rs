//! Termination and destruction requests, keyed by execution or instance id.
use vstd::prelude::*;
use dashmap::DashMap;
use crate::tables::{termination_map_contents, termination_map_new, termination_map_insert, termination_map_remove};

verus! {

/// What a registry's keys identify.
#[derive(Clone, Copy, Debug, PartialEq, Eq, Structural)]
pub enum TerminationScope {
    Execution,
    Instance,
}

/// A pending request as read back.
#[derive(Debug)]
pub struct TerminationSnapshot {
    pub scope: TerminationScope,
    pub errno: i32,
    pub message: Option<String>,
}

/// A stored request.
#[derive(Debug)]
pub struct TerminationRecord {
    pub terminated: bool,
    pub scope: TerminationScope,
    pub errno: i32,
    pub message: Option<String>,
}

/// The text of an optional message.
pub open spec fn opt_text(m: Option<String>) -> Option<Seq<char>> {
    match m {
        Some(s) => Some(s@),
        None => None,
    }
}

/// A copy of an optional message.
pub fn clone_opt_string(m: &Option<String>) -> (r: Option<String>)
    ensures
        opt_text(r) == opt_text(*m),
{
    match m {
        Some(s) => Some(s.clone()),
        None => None,
    }
}

/// The requests `m` of a registry of `scope` after a request for `key`
/// with `errno` and `message`: the key is marked terminated with the new
/// message, keeping the scope and errno of an earlier request.
pub open spec fn records_after_request(
    m: Map<Seq<char>, TerminationRecord>,
    scope: TerminationScope,
    key: Seq<char>,
    errno: i32,
    message: Option<String>,
) -> Map<Seq<char>, TerminationRecord> {
    m.insert(
        key,
        TerminationRecord {
            terminated: true,
            scope: if m.contains_key(key) { m[key].scope } else { scope },
            errno: if m.contains_key(key) { m[key].errno } else { errno },
            message,
        },
    )
}

/// `r` is what reading the request of `key` from requests `m` gives: the
/// pending request, if any.
pub open spec fn pending_snapshot(m: Map<Seq<char>, TerminationRecord>, key: Seq<char>, r: Option<TerminationSnapshot>) -> bool {
    match r {
        Some(s) => m.contains_key(key) && m[key].terminated && s.scope == m[key].scope && s.errno == m[key].errno
            && opt_text(s.message) == opt_text(m[key].message),
        None => !(m.contains_key(key) && m[key].terminated),
    }
}

/// Requests of one scope, keyed by execution or instance id.
#[derive(Debug)]
pub struct TerminationRequestRegistry {
    scope: TerminationScope,
    inner: DashMap<String, TerminationRecord>,
}

impl TerminationRequestRegistry {
    /// The scope of the registry.
    pub closed spec fn spec_scope(&self) -> TerminationScope {
        self.scope
    }

    /// The stored requests.
    pub closed spec fn spec_records(&self) -> Map<Seq<char>, TerminationRecord> {
        termination_map_contents(self.inner)
    }

    /// Every stored request is of the registry's scope.
    pub open spec fn wf(&self) -> bool {
        forall|k: Seq<char>| #[trigger] self.spec_records().contains_key(k) ==> self.spec_records()[k].scope
            == self.spec_scope()
    }

    /// An empty registry of `scope`.
    pub fn new(scope: TerminationScope) -> (r: Self)
        ensures
            r.spec_scope() == scope,
            forall|k: Seq<char>| !r.spec_records().contains_key(k),
            r.wf(),
    {
        TerminationRequestRegistry { scope, inner: termination_map_new() }
    }

    /// Requests termination of `key`. A new request takes `errno`; a
    /// repeated request keeps the errno of the first one and replaces the
    /// message.
    pub fn request_termination(&mut self, key: &str, errno: i32, message: Option<String>)
        ensures
            final(self).spec_scope() == old(self).spec_scope(),
            final(self).spec_records() == records_after_request(old(self).spec_records(), old(self).spec_scope(), key@, errno, message),
            old(self).wf() ==> final(self).wf(),
    {
        let rec = match termination_map_remove(&mut self.inner, key) {
            Some(r) => TerminationRecord { terminated: true, scope: r.scope, errno: r.errno, message },
            None => TerminationRecord { terminated: true, scope: self.scope, errno, message },
        };
        termination_map_insert(&mut self.inner, key.to_string(), rec);
        proof {
            assert(termination_map_contents(self.inner) =~= old(self).spec_records().insert(key@, rec));
        }
    }

    /// Withdraws the request of `key`.
    pub fn clear_termination_request(&mut self, key: &str)
        ensures
            final(self).spec_scope() == old(self).spec_scope(),
            final(self).spec_records() == old(self).spec_records().remove(key@),
            old(self).wf() ==> final(self).wf(),
    {
        let _ = termination_map_remove(&mut self.inner, key);
    }

    /// The request of `key`, if one is pending.
    pub fn read_termination_request(&mut self, key: &str) -> (r: Option<TerminationSnapshot>)
        ensures
            final(self).spec_scope() == old(self).spec_scope(),
            final(self).spec_records() == old(self).spec_records(),
            pending_snapshot(old(self).spec_records(), key@, r),
    {
        match termination_map_remove(&mut self.inner, key) {
            None => None,
            Some(rec) => {
                let out = if rec.terminated {
                    Some(TerminationSnapshot { scope: rec.scope, errno: rec.errno, message: clone_opt_string(&rec.message) })
                } else {
                    None
                };
                termination_map_insert(&mut self.inner, key.to_string(), rec);
                proof {
                    assert(termination_map_contents(self.inner) =~= old(self).spec_records());
                }
                out
            },
        }
    }
}

/// Records a termination request for an execution: a new request is of
/// the registry's scope and takes `errno`; a repeated one keeps its scope
/// and errno and takes the new reason (see [`records_after_request`]).
pub fn register_execution_termination_request(
    registry: &mut TerminationRequestRegistry,
    execution_id: &str,
    errno: i32,
    reason: Option<String>,
)
    ensures
        final(registry).spec_scope() == old(registry).spec_scope(),
        final(registry).spec_records().dom() == old(registry).spec_records().dom().insert(execution_id@),
        final(registry).spec_records() == records_after_request(
            old(registry).spec_records(),
            old(registry).spec_scope(),
            execution_id@,
            errno,
            reason,
        ),
        final(registry).spec_records()[execution_id@].scope == (if old(registry).spec_records().contains_key(execution_id@) {
            old(registry).spec_records()[execution_id@].scope
        } else {
            old(registry).spec_scope()
        }),
        final(registry).spec_records()[execution_id@].terminated,
        opt_text(final(registry).spec_records()[execution_id@].message) == opt_text(reason),
        final(registry).spec_records()[execution_id@].errno == (if old(registry).spec_records().contains_key(
            execution_id@,
        ) {
            old(registry).spec_records()[execution_id@].errno
        } else {
            errno
        }),
        forall|k: Seq<char>| k != execution_id@ ==> #[trigger] final(registry).spec_records().contains_key(k) ==> final(registry).spec_records()[k] == old(registry).spec_records()[k],
        old(registry).wf() ==> final(registry).wf(),
{
    registry.request_termination(execution_id, errno, reason);
}

/// Withdraws the termination request of an execution.
pub fn clear_execution_termination_request(registry: &mut TerminationRequestRegistry, execution_id: &str)
    ensures
        final(registry).spec_scope() == old(registry).spec_scope(),
        final(registry).spec_records() == old(registry).spec_records().remove(execution_id@),
        old(registry).wf() ==> final(registry).wf(),
{
    registry.clear_termination_request(execution_id);
}

/// Records a destruction request for an instance, as
/// [`register_execution_termination_request`] does for an execution.
pub fn register_instance_destruction_request(
    registry: &mut TerminationRequestRegistry,
    instance_id: &str,
    errno: i32,
    reason: Option<String>,
)
    ensures
        final(registry).spec_scope() == old(registry).spec_scope(),
        final(registry).spec_records().dom() == old(registry).spec_records().dom().insert(instance_id@),
        final(registry).spec_records() == records_after_request(
            old(registry).spec_records(),
            old(registry).spec_scope(),
            instance_id@,
            errno,
            reason,
        ),
        final(registry).spec_records()[instance_id@].scope == (if old(registry).spec_records().contains_key(instance_id@) {
            old(registry).spec_records()[instance_id@].scope
        } else {
            old(registry).spec_scope()
        }),
        final(registry).spec_records()[instance_id@].terminated,
        opt_text(final(registry).spec_records()[instance_id@].message) == opt_text(reason),
        final(registry).spec_records()[instance_id@].errno == (if old(registry).spec_records().contains_key(
            instance_id@,
        ) {
            old(registry).spec_records()[instance_id@].errno
        } else {
            errno
        }),
        forall|k: Seq<char>| k != instance_id@ ==> #[trigger] final(registry).spec_records().contains_key(k) ==> final(registry).spec_records()[k] == old(registry).spec_records()[k],
        old(registry).wf() ==> final(registry).wf(),
{
    registry.request_termination(instance_id, errno, reason);
}

} // verus!

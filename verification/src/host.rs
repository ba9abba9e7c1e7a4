//! The host-call surface that guest programs use: the descriptor table and
//! the identity of the running instance and execution.
use vstd::prelude::*;
use crate::fd_table::{FdTable, FD_CTL_GET_METRICS, ep_ctl_spec, is_open_epoll, is_ready, ready_list_ok};
use crate::fd_ctl::{FdCtlReply, fd_ctl_spec};
use crate::json::JsonValue;
use crate::poll::PollEvents;
use crate::types::UserStreamChannel;
use crate::termination::{TerminationRequestRegistry, TerminationScope, TerminationSnapshot, TerminationRecord, opt_text};

verus! {

/// The host API of one guest instance.
#[derive(Debug)]
pub struct DefaultHostApi {
    pub fd_table: FdTable,
    pub task_id: Option<String>,
    pub instance_id: Option<String>,
    pub execution_id: Option<String>,
    pub exec_termination: TerminationRequestRegistry,
    pub instance_termination: TerminationRequestRegistry,
}

/// The pending request of `key` in `records`, if any.
pub open spec fn pending_request(records: Map<Seq<char>, TerminationRecord>, key: Option<Seq<char>>) -> Option<TerminationRecord> {
    match key {
        Some(k) => if records.contains_key(k) && records[k].terminated { Some(records[k]) } else { None },
        None => None,
    }
}

/// Whether `r` answers a termination check: the pending request of
/// execution `exec_key` in `exec_records` when there is one, else that of
/// instance `inst_key` in `inst_records`, else none.
pub open spec fn termination_answer(
    exec_records: Map<Seq<char>, TerminationRecord>,
    inst_records: Map<Seq<char>, TerminationRecord>,
    exec_key: Option<Seq<char>>,
    inst_key: Option<Seq<char>>,
    r: Option<TerminationSnapshot>,
) -> bool {
    match pending_request(exec_records, exec_key) {
        Some(rec) => r matches Some(s) && s.scope == rec.scope && s.errno == rec.errno && opt_text(s.message) == opt_text(
            rec.message,
        ),
        None => match pending_request(inst_records, inst_key) {
            Some(rec) => r matches Some(s) && s.scope == rec.scope && s.errno == rec.errno && opt_text(s.message)
                == opt_text(rec.message),
            None => r is None,
        },
    }
}

/// The pending termination request for a guest running execution
/// `exec_key` of instance `inst_key`: the execution's when there is one,
/// else the instance's (see [`termination_answer`]).
pub fn check_termination_requests(
    exec_registry: &mut TerminationRequestRegistry,
    instance_registry: &mut TerminationRequestRegistry,
    exec_key: Option<&str>,
    inst_key: Option<&str>,
) -> (r: Option<TerminationSnapshot>)
    ensures
        final(exec_registry).spec_records() == old(exec_registry).spec_records(),
        final(exec_registry).spec_scope() == old(exec_registry).spec_scope(),
        final(instance_registry).spec_records() == old(instance_registry).spec_records(),
        final(instance_registry).spec_scope() == old(instance_registry).spec_scope(),
        termination_answer(
            old(exec_registry).spec_records(),
            old(instance_registry).spec_records(),
            match exec_key {
                Some(k) => Some(k@),
                None => None,
            },
            match inst_key {
                Some(k) => Some(k@),
                None => None,
            },
            r,
        ),
{
    if let Some(k) = exec_key {
        let s = exec_registry.read_termination_request(k);
        if s.is_some() {
            return s;
        }
    }
    match inst_key {
        Some(k) => instance_registry.read_termination_request(k),
        None => None,
    }
}

impl DefaultHostApi {
    /// A host API with an empty descriptor table whose descriptors start at
    /// 1000, empty termination registries, and no task, instance or
    /// execution.
    pub fn new() -> (r: Self)
        ensures
            r.fd_table.spec_entries() == Map::<i32, crate::types::FdEntry>::empty(),
            r.fd_table.spec_next_fd() == 1000,
            r.task_id is None,
            r.instance_id is None,
            r.execution_id is None,
            r.exec_termination.spec_scope() == TerminationScope::Execution,
            r.instance_termination.spec_scope() == TerminationScope::Instance,
            forall|k: Seq<char>| !r.exec_termination.spec_records().contains_key(k),
            forall|k: Seq<char>| !r.instance_termination.spec_records().contains_key(k),
    {
        DefaultHostApi {
            fd_table: FdTable::new(1000),
            task_id: None,
            instance_id: None,
            execution_id: None,
            exec_termination: TerminationRequestRegistry::new(TerminationScope::Execution),
            instance_termination: TerminationRequestRegistry::new(TerminationScope::Instance),
        }
    }

    /// Sets the execution the host API runs for.
    pub fn set_execution_id(&mut self, execution_id: Option<String>)
        ensures
            *final(self) == (DefaultHostApi { execution_id, ..*old(self) }),
    {
        self.execution_id = execution_id;
    }

    /// The same host API, for instance `instance_id`.
    pub fn with_instance_id(self, instance_id: String) -> (r: Self)
        ensures
            r == (DefaultHostApi { instance_id: Some(instance_id), ..self }),
    {
        let mut s = self;
        s.instance_id = Some(instance_id);
        s
    }

    /// The pending termination request that applies to the running guest:
    /// that of its execution (its own, else `current_execution_id`) when
    /// there is one, else that of its instance (see
    /// [`check_termination_requests`]).
    pub fn check_wasm_termination(&mut self, current_execution_id: Option<&str>) -> (r: Option<TerminationSnapshot>)
        ensures
            final(self).exec_termination.spec_records() == old(self).exec_termination.spec_records(),
            final(self).instance_termination.spec_records() == old(self).instance_termination.spec_records(),
            final(self).fd_table == old(self).fd_table,
            final(self).execution_id == old(self).execution_id,
            final(self).instance_id == old(self).instance_id,
            final(self).task_id == old(self).task_id,
            termination_answer(
                old(self).exec_termination.spec_records(),
                old(self).instance_termination.spec_records(),
                match old(self).execution_id {
                    Some(x) => Some(x@),
                    None => match current_execution_id {
                        Some(c) => Some(c@),
                        None => None,
                    },
                },
                opt_text(old(self).instance_id),
                r,
            ),
    {
        let exec_key: Option<&str> = match &self.execution_id {
            Some(x) => Some(x.as_str()),
            None => current_execution_id,
        };
        let inst_key: Option<&str> = match &self.instance_id {
            Some(x) => Some(x.as_str()),
            None => None,
        };
        check_termination_requests(&mut self.exec_termination, &mut self.instance_termination, exec_key, inst_key)
    }

    /// Creates an epoll descriptor (see [`FdTable::ep_create`]).
    pub fn spear_ep_create(&mut self) -> (r: i32)
        ensures
            r == old(self).fd_table.spec_next_fd(),
            final(self).fd_table.spec_next_fd() == old(self).fd_table.spec_next_fd().wrapping_add(1),
            final(self).fd_table.spec_entries() == old(self).fd_table.spec_entries().insert(
                r,
                final(self).fd_table.spec_entries()[r],
            ),
            is_open_epoll(final(self).fd_table.spec_entries(), r),
            final(self).fd_table.spec_entries()[r].watchers@ == Set::<i32>::empty(),
            final(self).fd_table.spec_entries()[r].poll_mask.0 == 0,
    {
        let r = self.fd_table.ep_create();
        assert(self.fd_table.spec_entries() =~= old(self).fd_table.spec_entries().insert(
            r,
            self.fd_table.spec_entries()[r],
        ));
        r
    }

    /// Changes the interest list of epoll descriptor `epfd`; the event bits
    /// are taken from `events`, unknown bits dropped (see
    /// [`FdTable::ep_ctl`]).
    pub fn spear_ep_ctl(&mut self, epfd: i32, op: i32, fd: i32, events: i32) -> (r: i32)
        ensures
            final(self).fd_table.spec_next_fd() == old(self).fd_table.spec_next_fd(),
            ep_ctl_spec(
                old(self).fd_table.spec_entries(),
                epfd,
                op,
                fd,
                PollEvents(((events as u32) & crate::poll::poll_known_bits()) as u32),
                final(self).fd_table.spec_entries(),
                r,
            ),
    {
        self.fd_table.ep_ctl(epfd, op, fd, PollEvents::from_bits_truncate(events as u32))
    }

    /// The ready descriptors of epoll descriptor `epfd` (see
    /// [`FdTable::ep_wait_ready`]).
    pub fn spear_ep_wait_ready(&mut self, epfd: i32, timeout_ms: i32) -> (r: Result<Vec<(i32, i32)>, i32>)
        requires
            timeout_ms >= 0 || !is_open_epoll(old(self).fd_table.spec_entries(), epfd) || exists|fd: i32|
                is_ready(old(self).fd_table.spec_entries(), epfd, fd),
        ensures
            final(self).fd_table.spec_next_fd() == old(self).fd_table.spec_next_fd(),
            final(self).fd_table.spec_entries() == old(self).fd_table.spec_entries(),
            match r {
                Ok(v) => is_open_epoll(old(self).fd_table.spec_entries(), epfd) && ready_list_ok(
                    old(self).fd_table.spec_entries(),
                    epfd,
                    v@,
                ),
                Err(e) => e == -crate::errno::EBADF && !is_open_epoll(old(self).fd_table.spec_entries(), epfd),
            },
    {
        self.fd_table.ep_wait_ready(epfd, timeout_ms)
    }

    /// Closes epoll descriptor `epfd` (see [`FdTable::close`]).
    pub fn spear_ep_close(&mut self, epfd: i32) -> (r: i32)
        ensures
            final(self).fd_table.spec_next_fd() == old(self).fd_table.spec_next_fd(),
            !old(self).fd_table.spec_entries().contains_key(epfd) ==> r == -crate::errno::EBADF
                && final(self).fd_table.spec_entries() == old(self).fd_table.spec_entries(),
            old(self).fd_table.spec_entries().contains_key(epfd) && old(self).fd_table.spec_entries()[epfd].closed ==> r
                == 0 && final(self).fd_table.spec_entries() == old(self).fd_table.spec_entries(),
            old(self).fd_table.spec_entries().contains_key(epfd) && !old(self).fd_table.spec_entries()[epfd].closed ==> r
                == 0 && FdTable::closed_table_ok(
                old(self).fd_table.spec_entries(),
                epfd,
                final(self).fd_table.spec_entries(),
            ),
    {
        self.fd_table.close(epfd)
    }

    /// Descriptor control (see [`FdTable::fd_ctl`]).
    pub fn spear_fd_ctl(&mut self, fd: i32, cmd: i32, payload: Option<&JsonValue>, channel: Option<&UserStreamChannel>) -> (r:
        Result<Option<FdCtlReply>, i32>)
        requires
            cmd == FD_CTL_GET_METRICS && old(self).fd_table.spec_entries().contains_key(fd)
                && old(self).fd_table.spec_entries()[fd].inner is UserStream ==> channel is Some,
        ensures
            final(self).fd_table.spec_next_fd() == old(self).fd_table.spec_next_fd(),
            fd_ctl_spec(
                old(self).fd_table.spec_entries(),
                fd,
                cmd,
                match payload {
                    Some(p) => Some(*p),
                    None => None,
                },
                match channel {
                    Some(c) => Some(*c),
                    None => None,
                },
                final(self).fd_table.spec_entries(),
                r,
            ),
    {
        self.fd_table.fd_ctl(fd, cmd, payload, channel)
    }
}

} // verus!

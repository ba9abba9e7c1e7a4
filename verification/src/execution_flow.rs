//! The bookkeeping of the task execution manager around one execution: the
//! public status of an execution record, the counters and records an
//! execution updates when it starts and when it ends, the result report it
//! sends back, and what follows a runtime's answer. The waiting, the runtime
//! call and the sending are done by the caller.
use vstd::prelude::*;
use crate::json::str_eq;
use crate::execution_error::{ExecutionError, failure_status, error_text_head, wraps_outside_error, execution_failure_status};
use crate::termination::{opt_text, clone_opt_string};
use crate::runtime::{ExecutionStatus, RuntimeExecutionResponse, extract_error_message, error_message_text};
use crate::http_adapter::{decimal, decimal_string};

verus! {

/// The public status of an execution record, as its status text names it.
#[derive(Debug, Clone, Copy, PartialEq, Eq, Structural)]
pub enum ExecutionPublicStatus {
    Pending,
    Running,
    Completed,
    Failed,
    Cancelled,
    Timeout,
    Terminated,
    Unknown,
}

/// The public status status text `s` names (`Unknown` for any other text).
pub open spec fn public_status_of(s: Seq<char>) -> ExecutionPublicStatus {
    if s == "pending"@ {
        ExecutionPublicStatus::Pending
    } else if s == "running"@ {
        ExecutionPublicStatus::Running
    } else if s == "completed"@ {
        ExecutionPublicStatus::Completed
    } else if s == "failed"@ {
        ExecutionPublicStatus::Failed
    } else if s == "cancelled"@ {
        ExecutionPublicStatus::Cancelled
    } else if s == "timeout"@ {
        ExecutionPublicStatus::Timeout
    } else if s == "terminated"@ {
        ExecutionPublicStatus::Terminated
    } else {
        ExecutionPublicStatus::Unknown
    }
}

/// Whether public status `p` is one an execution ends in.
pub open spec fn public_terminal(p: ExecutionPublicStatus) -> bool {
    p == ExecutionPublicStatus::Completed || p == ExecutionPublicStatus::Failed || p == ExecutionPublicStatus::Cancelled
        || p == ExecutionPublicStatus::Timeout || p == ExecutionPublicStatus::Terminated
}

impl ExecutionPublicStatus {
    /// The public status text `s` names (see [`public_status_of`]).
    pub fn from_public_str(s: &str) -> (r: Self)
        ensures
            r == public_status_of(s@),
    {
        if str_eq(s, "pending") {
            ExecutionPublicStatus::Pending
        } else if str_eq(s, "running") {
            ExecutionPublicStatus::Running
        } else if str_eq(s, "completed") {
            ExecutionPublicStatus::Completed
        } else if str_eq(s, "failed") {
            ExecutionPublicStatus::Failed
        } else if str_eq(s, "cancelled") {
            ExecutionPublicStatus::Cancelled
        } else if str_eq(s, "timeout") {
            ExecutionPublicStatus::Timeout
        } else if str_eq(s, "terminated") {
            ExecutionPublicStatus::Terminated
        } else {
            ExecutionPublicStatus::Unknown
        }
    }

    /// Whether the status is one an execution ends in.
    pub fn is_terminal(&self) -> (r: bool)
        ensures
            r == public_terminal(*self),
    {
        match self {
            ExecutionPublicStatus::Completed | ExecutionPublicStatus::Failed | ExecutionPublicStatus::Cancelled
            | ExecutionPublicStatus::Timeout | ExecutionPublicStatus::Terminated => true,
            _ => false,
        }
    }

    /// Whether the status is the successful end.
    pub fn is_successful(&self) -> (r: bool)
        ensures
            r == (*self == ExecutionPublicStatus::Completed),
    {
        match self {
            ExecutionPublicStatus::Completed => true,
            _ => false,
        }
    }
}

/// The record of one execution. `timestamp_ms` is milliseconds since the
/// Unix epoch.
#[derive(Debug)]
pub struct ExecutionResponse {
    pub execution_id: String,
    pub invocation_id: String,
    pub task_id: String,
    pub function_name: String,
    pub instance_id: String,
    pub output_data: Vec<u8>,
    pub status: String,
    pub error_message: Option<String>,
    pub execution_time_ms: u64,
    pub metadata: Vec<(String, String)>,
    pub timestamp_ms: u64,
}

/// Whether record `r` has ended.
pub open spec fn record_completed(r: ExecutionResponse) -> bool {
    public_terminal(public_status_of(r.status@))
}

/// Whether record `r` ended successfully, without an error message.
pub open spec fn record_successful(r: ExecutionResponse) -> bool {
    public_status_of(r.status@) == ExecutionPublicStatus::Completed && r.error_message is None
}

impl ExecutionResponse {
    /// Whether the execution has ended (see [`record_completed`]).
    pub fn is_completed(&self) -> (r: bool)
        ensures
            r == record_completed(*self),
    {
        ExecutionPublicStatus::from_public_str(self.status.as_str()).is_terminal()
    }

    /// Whether the execution ended successfully (see [`record_successful`]).
    pub fn is_successful(&self) -> (r: bool)
        ensures
            r == record_successful(*self),
    {
        ExecutionPublicStatus::from_public_str(self.status.as_str()).is_successful() && self.error_message.is_none()
    }
}

/// The counters of executions.
#[derive(Debug, Clone, Copy, PartialEq, Eq, Structural)]
pub struct ExecutionCounters {
    pub total_executions: u64,
    pub successful_executions: u64,
    pub failed_executions: u64,
    pub total_execution_time_ms: u64,
    pub running_executions: u64,
    pub completed_executions: u64,
}

/// The execution an item of work asks for.
#[derive(Debug)]
pub struct WorkItemView {
    pub execution_id: String,
    pub invocation_id: String,
    pub task_id: String,
    pub function_name: String,
}

/// The index of the first record of `id`.
pub open spec fn record_index(s: Seq<(String, ExecutionResponse)>, id: Seq<char>) -> Option<int>
    decreases s.len(),
{
    if s.len() == 0 {
        None
    } else if s.last().0@ == id {
        match record_index(s.drop_last(), id) {
            Some(i) => Some(i),
            None => Some(s.len() - 1),
        }
    } else {
        record_index(s.drop_last(), id)
    }
}

proof fn lemma_record_index(s: Seq<(String, ExecutionResponse)>, id: Seq<char>)
    ensures
        record_index(s, id) matches Some(i) ==> 0 <= i < s.len() && s[i].0@ == id && forall|k: int|
            0 <= k < i ==> (#[trigger] s[k]).0@ != id,
        record_index(s, id) is None ==> forall|k: int| 0 <= k < s.len() ==> (#[trigger] s[k]).0@ != id,
    decreases s.len(),
{
    if s.len() > 0 {
        lemma_record_index(s.drop_last(), id);
        assert forall|k: int| 0 <= k < s.len() - 1 implies s[k] == s.drop_last()[k] by {}
    }
}

/// A key whose first occurrence is at `i` is found at `i`.
proof fn lemma_record_index_at(s: Seq<(String, ExecutionResponse)>, id: Seq<char>, i: int)
    requires
        0 <= i < s.len(),
        s[i].0@ == id,
        forall|k: int| 0 <= k < i ==> (#[trigger] s[k]).0@ != id,
    ensures
        record_index(s, id) == Some(i),
{
    lemma_record_index(s, id);
    match record_index(s, id) {
        Some(j) => {
            assert(s[j].0@ == id);
            if j > i {
                assert(s[i].0@ != id);
            }
        },
        None => {
            assert(s[i].0@ != id);
        },
    }
}

/// The execution records, one per execution id, each filed under its id.
pub struct ExecutionRecords {
    pub records: Vec<(String, ExecutionResponse)>,
}

impl ExecutionRecords {
    /// No records.
    pub fn new() -> (r: Self)
        ensures
            r.records@.len() == 0,
    {
        ExecutionRecords { records: Vec::new() }
    }

    /// The record of `id`, if any.
    pub open spec fn spec_record(&self, id: Seq<char>) -> Option<ExecutionResponse> {
        match record_index(self.records@, id) {
            Some(i) => Some(self.records@[i].1),
            None => None,
        }
    }

    /// Where the record of `execution_id` is, if there is one.
    fn find(&self, execution_id: &str) -> (r: Option<usize>)
        ensures
            match r {
                Some(i) => record_index(self.records@, execution_id@) == Some(i as int),
                None => record_index(self.records@, execution_id@) is None,
            },
    {
        proof {
            lemma_record_index(self.records@, execution_id@);
        }
        let mut i: usize = 0;
        while i < self.records.len()
            invariant
                0 <= i <= self.records@.len(),
                forall|k: int| 0 <= k < i ==> (#[trigger] self.records@[k]).0@ != execution_id@,
            decreases self.records@.len() - i,
        {
            if str_eq(self.records[i].0.as_str(), execution_id) {
                proof {
                    lemma_record_index_at(self.records@, execution_id@, i as int);
                }
                return Some(i);
            }
            i = i + 1;
        }
        None
    }

    /// The record filed under `key` becomes `rec` (added where there was
    /// none); the records of other executions stay.
    pub fn put(&mut self, key: String, rec: ExecutionResponse)
        ensures
            final(self).spec_record(key@) == Some(rec),
            forall|id: Seq<char>| id != key@ ==> #[trigger] final(self).spec_record(id) == old(self).spec_record(id),
    {
        let ghost id = key@;
        let ghost s0 = self.records@;
        proof {
            lemma_record_index(s0, id);
        }
        match self.find(key.as_str()) {
            Some(i) => {
                self.records.set(i, (key, rec));
                proof {
                    lemma_record_index(self.records@, id);
                    assert forall|k: int| 0 <= k < i implies (#[trigger] self.records@[k]).0@ != id by {
                        assert(self.records@[k] == s0[k]);
                    }
                    assert(self.records@[i as int].0@ == id);
                    lemma_record_index_at(self.records@, id, i as int);
                    assert forall|o: Seq<char>| o != id implies #[trigger] self.spec_record(o) == spec_record_of(s0, o) by {
                        lemma_same_index_other(s0, self.records@, i as int, id, o);
                    }
                    assert(self.spec_record(id) == Some(rec));
                }
            },
            None => {
                self.records.push((key, rec));
                proof {
                    assert(self.records@.drop_last() =~= s0);
                    lemma_record_index(self.records@, id);
                    assert forall|o: Seq<char>| o != id implies #[trigger] self.spec_record(o) == spec_record_of(s0, o) by {
                        assert(self.records@.drop_last() =~= s0);
                        lemma_record_index(s0, o);
                        lemma_record_index(self.records@, o);
                    }
                }
            },
        }
    }
}

/// The record filed under `id` in `s`.
pub open spec fn spec_record_of(s: Seq<(String, ExecutionResponse)>, id: Seq<char>) -> Option<ExecutionResponse> {
    match record_index(s, id) {
        Some(i) => Some(s[i].1),
        None => None,
    }
}

/// Replacing the record at `i` (of `id`) leaves other ids' records alone.
proof fn lemma_same_index_other(
    s0: Seq<(String, ExecutionResponse)>,
    s1: Seq<(String, ExecutionResponse)>,
    i: int,
    id: Seq<char>,
    o: Seq<char>,
)
    requires
        0 <= i < s0.len(),
        s1.len() == s0.len(),
        forall|k: int| 0 <= k < s0.len() && k != i ==> #[trigger] s1[k] == s0[k],
        s0[i].0@ == id,
        s1[i].0@ == id,
        o != id,
    ensures
        spec_record_of(s1, o) == spec_record_of(s0, o),
{
    lemma_record_index(s0, o);
    lemma_record_index(s1, o);
    match record_index(s0, o) {
        Some(j) => {
            assert(s1[j] == s0[j]);
            match record_index(s1, o) {
                Some(j2) => {
                    if j2 < j {
                        assert(s1[j2] == s0[j2]);
                    } else if j2 > j {
                        assert(s1[j] == s0[j]);
                    }
                },
                None => {
                    assert(s1[j].0@ == o);
                },
            }
        },
        None => {
            match record_index(s1, o) {
                Some(j2) => {
                    assert(s1[j2] == s0[j2]);
                },
                None => {},
            }
        },
    }
}

/// The running record of a new execution of `item` at `now_ms`.
pub open spec fn running_record(item: WorkItemView, r: ExecutionResponse, now_ms: u64) -> bool {
    &&& r.execution_id@ == item.execution_id@
    &&& r.invocation_id@ == item.invocation_id@
    &&& r.task_id@ == item.task_id@
    &&& r.function_name@ == item.function_name@
    &&& r.instance_id@.len() == 0
    &&& r.output_data@.len() == 0
    &&& r.status@ == "running"@
    &&& r.error_message is None
    &&& r.execution_time_ms == 0
    &&& r.metadata@.len() == 0
    &&& r.timestamp_ms == now_ms
}

/// Starts the bookkeeping of the execution `item` asks for, at `now_ms`:
/// one more execution in all and one more running; its record, where it has
/// one, becomes `running` as of `now_ms`, and a new running record is
/// added where it has none.
pub fn begin_execution_record(stats: &mut ExecutionCounters, records: &mut ExecutionRecords, item: &WorkItemView, now_ms: u64)
    requires
        old(stats).total_executions < u64::MAX,
        old(stats).running_executions < u64::MAX,
    ensures
        *final(stats) == (ExecutionCounters {
            total_executions: (old(stats).total_executions + 1) as u64,
            running_executions: (old(stats).running_executions + 1) as u64,
            ..*old(stats)
        }),
        forall|id: Seq<char>| id != item.execution_id@ ==> #[trigger] final(records).spec_record(id) == old(records).spec_record(id),
        final(records).spec_record(item.execution_id@) matches Some(r) && match old(records).spec_record(item.execution_id@) {
            Some(r0) => r == (ExecutionResponse { status: r.status, timestamp_ms: now_ms, ..r0 }) && r.status@ == "running"@,
            None => running_record(*item, r, now_ms),
        },
{
    stats.total_executions = stats.total_executions + 1;
    stats.running_executions = stats.running_executions + 1;
    proof {
        reveal_strlit("running");
    }
    match records.find(item.execution_id.as_str()) {
        Some(i) => {
            let ghost s0 = records.records@;
            proof {
                lemma_record_index(s0, item.execution_id@);
            }
            let (key, mut rec) = records.records.remove(i);
            rec.status = String::from_str("running");
            rec.timestamp_ms = now_ms;
            records.records.insert(i, (key, rec));
            proof {
                let s1 = records.records@;
                assert(s1.len() == s0.len());
                assert forall|k: int| 0 <= k < s0.len() && k != i implies #[trigger] s1[k] == s0[k] by {}
                lemma_record_index(s0, item.execution_id@);
                lemma_record_index(s1, item.execution_id@);
                assert forall|k: int| 0 <= k < i implies (#[trigger] s1[k]).0@ != item.execution_id@ by {
                    assert(s1[k] == s0[k]);
                }
                assert(s1[i as int].0@ == item.execution_id@);
                lemma_record_index_at(s1, item.execution_id@, i as int);
                assert forall|o: Seq<char>| o != item.execution_id@ implies #[trigger] records.spec_record(o)
                    == spec_record_of(s0, o) by {
                    lemma_same_index_other(s0, s1, i as int, item.execution_id@, o);
                }
            }
        },
        None => {
            let rec = ExecutionResponse {
                execution_id: item.execution_id.clone(),
                invocation_id: item.invocation_id.clone(),
                task_id: item.task_id.clone(),
                function_name: item.function_name.clone(),
                instance_id: String::new(),
                output_data: Vec::new(),
                status: String::from_str("running"),
                error_message: None,
                execution_time_ms: 0,
                metadata: Vec::new(),
                timestamp_ms: now_ms,
            };
            records.put(item.execution_id.clone(), rec);
        },
    }
}

/// The text pairs of metadata `m`.
pub open spec fn meta_view(m: Seq<(String, String)>) -> Seq<(Seq<char>, Seq<char>)> {
    m.map_values(|p: (String, String)| (p.0@, p.1@))
}

/// Whether `a` and `b` hold the same record.
pub open spec fn same_record(a: ExecutionResponse, b: ExecutionResponse) -> bool {
    &&& a.execution_id@ == b.execution_id@
    &&& a.invocation_id@ == b.invocation_id@
    &&& a.task_id@ == b.task_id@
    &&& a.function_name@ == b.function_name@
    &&& a.instance_id@ == b.instance_id@
    &&& a.output_data@ == b.output_data@
    &&& a.status@ == b.status@
    &&& opt_text(a.error_message) == opt_text(b.error_message)
    &&& a.execution_time_ms == b.execution_time_ms
    &&& meta_view(a.metadata@) == meta_view(b.metadata@)
    &&& a.timestamp_ms == b.timestamp_ms
}

fn copy_meta(m: &Vec<(String, String)>) -> (r: Vec<(String, String)>)
    ensures
        meta_view(r@) == meta_view(m@),
{
    let mut out: Vec<(String, String)> = Vec::new();
    let mut i: usize = 0;
    while i < m.len()
        invariant
            0 <= i <= m@.len(),
            meta_view(out@) == meta_view(m@.take(i as int)),
        decreases m@.len() - i,
    {
        let ghost before = out@;
        let a = m[i].0.clone();
        let b = m[i].1.clone();
        out.push((a, b));
        proof {
            assert(out@ == before.push((a, b)));
            assert(meta_view(out@) =~= meta_view(before).push((m@[i as int].0@, m@[i as int].1@)));
            assert(m@.take(i + 1) =~= m@.take(i as int).push(m@[i as int]));
            assert(meta_view(m@.take(i + 1)) =~= meta_view(m@.take(i as int)).push((m@[i as int].0@, m@[i as int].1@)));
        }
        i = i + 1;
    }
    assert(m@.take(i as int) =~= m@);
    out
}

impl ExecutionResponse {
    /// A copy of the record.
    pub fn duplicate(&self) -> (r: ExecutionResponse)
        ensures
            same_record(r, *self),
    {
        ExecutionResponse {
            execution_id: self.execution_id.clone(),
            invocation_id: self.invocation_id.clone(),
            task_id: self.task_id.clone(),
            function_name: self.function_name.clone(),
            instance_id: self.instance_id.clone(),
            output_data: crate::types::bytes_to_vec(self.output_data.as_slice()),
            status: self.status.clone(),
            error_message: clone_opt_string(&self.error_message),
            execution_time_ms: self.execution_time_ms,
            metadata: copy_meta(&self.metadata),
            timestamp_ms: self.timestamp_ms,
        }
    }
}

/// The index of the first pair of `m` with key `k`.
pub open spec fn meta_index(m: Seq<(Seq<char>, Seq<char>)>, k: Seq<char>) -> Option<int>
    decreases m.len(),
{
    if m.len() == 0 {
        None
    } else {
        match meta_index(m.drop_last(), k) {
            Some(i) => Some(i),
            None => if m.last().0 == k {
                Some(m.len() - 1)
            } else {
                None
            },
        }
    }
}

proof fn lemma_meta_index(m: Seq<(Seq<char>, Seq<char>)>, k: Seq<char>)
    ensures
        meta_index(m, k) matches Some(i) ==> 0 <= i < m.len() && m[i].0 == k && forall|j: int|
            0 <= j < i ==> (#[trigger] m[j]).0 != k,
        meta_index(m, k) is None ==> forall|j: int| 0 <= j < m.len() ==> (#[trigger] m[j]).0 != k,
    decreases m.len(),
{
    if m.len() > 0 {
        lemma_meta_index(m.drop_last(), k);
        assert forall|j: int| 0 <= j < m.len() - 1 implies m[j] == m.drop_last()[j] by {}
    }
}

/// Metadata `m` with key `k` set to `v`: the first pair with the key takes
/// the value, or the pair is added at the end.
pub open spec fn meta_with(m: Seq<(Seq<char>, Seq<char>)>, k: Seq<char>, v: Seq<char>) -> Seq<(Seq<char>, Seq<char>)> {
    match meta_index(m, k) {
        Some(i) => m.update(i, (k, v)),
        None => m.push((k, v)),
    }
}

/// Sets key `k` of metadata `m` to `v` (see [`meta_with`]).
fn meta_set(m: &mut Vec<(String, String)>, k: &str, v: String)
    ensures
        meta_view(final(m)@) == meta_with(meta_view(old(m)@), k@, v@),
{
    let ghost mv = meta_view(m@);
    proof {
        lemma_meta_index(mv, k@);
    }
    let mut i: usize = 0;
    while i < m.len()
        invariant
            0 <= i <= m@.len(),
            mv == meta_view(m@),
            m@ == old(m)@,
            forall|j: int| 0 <= j < i ==> (#[trigger] mv[j]).0 != k@,
        decreases m@.len() - i,
    {
        if str_eq(m[i].0.as_str(), k) {
            proof {
                lemma_meta_index(mv, k@);
                assert(mv[i as int].0 == k@);
                match meta_index(mv, k@) {
                    Some(j) => {
                        if j > i {
                            assert(mv[i as int].0 != k@);
                        }
                    },
                    None => {
                        assert(mv[i as int].0 != k@);
                    },
                }
            }
            let key = m[i].0.clone();
            m.set(i, (key, v));
            assert(meta_view(m@) =~= mv.update(i as int, (k@, v@)));
            return;
        }
        i = i + 1;
    }
    m.push((k.to_string(), v));
    assert(meta_view(m@) =~= mv.push((k@, v@)));
}

/// A report of a task's result to the control plane.
#[derive(Debug)]
pub struct TaskResultReport {
    pub task_id: String,
    pub status: String,
    pub completed_at: i64,
    pub metadata: Vec<(String, String)>,
}

/// The counters after an execution ended with `outcome` after
/// `execution_time_ms`: one fewer running (not below zero), one more
/// completed, the time added; one more successful for a completed and
/// successful record, one more failed for a completed unsuccessful record
/// or an error.
pub open spec fn counters_after(
    c: ExecutionCounters,
    outcome: Result<ExecutionResponse, ExecutionError>,
    execution_time_ms: u64,
) -> ExecutionCounters {
    let ok_success = outcome matches Ok(r) && record_completed(r) && record_successful(r);
    let failure = (outcome matches Ok(r) && record_completed(r) && !record_successful(r)) || outcome is Err;
    ExecutionCounters {
        total_executions: c.total_executions,
        successful_executions: if ok_success { (c.successful_executions + 1) as u64 } else { c.successful_executions },
        failed_executions: if failure { (c.failed_executions + 1) as u64 } else { c.failed_executions },
        total_execution_time_ms: (c.total_execution_time_ms + execution_time_ms) as u64,
        running_executions: if c.running_executions > 0 { (c.running_executions - 1) as u64 } else { 0 },
        completed_executions: (c.completed_executions + 1) as u64,
    }
}

/// Whether `r` is the record of an execution of `item` that failed with
/// `e` after `execution_time_ms`, at `now_ms`, on `instance_id`: its status
/// from the error (see [`failure_status`]), the error's text as message.
pub open spec fn failed_record(
    item: WorkItemView,
    e: ExecutionError,
    instance_id: Seq<char>,
    execution_time_ms: u64,
    now_ms: u64,
    r: ExecutionResponse,
) -> bool {
    &&& r.execution_id@ == item.execution_id@
    &&& r.invocation_id@ == item.invocation_id@
    &&& r.task_id@ == item.task_id@
    &&& r.function_name@ == item.function_name@
    &&& r.instance_id@ == instance_id
    &&& r.output_data@.len() == 0
    &&& r.status@ == failure_status(e)
    &&& r.error_message matches Some(t) && error_text_head(e).is_prefix_of(t@) && (!wraps_outside_error(e) ==> t@
        == error_text_head(e))
    &&& r.execution_time_ms == execution_time_ms
    &&& r.metadata@.len() == 0
    &&& r.timestamp_ms == now_ms
}

/// Ends the bookkeeping of the execution `item` asked for, which ended with
/// `outcome` after `execution_time_ms`, at `now_ms` (`completed_at` being the
/// same moment in seconds). The counters change as [`counters_after`] says.
/// The execution's record becomes the response, or for an error a failed
/// record (see [`failed_record`]) on the instance of its earlier record.
/// A report for the control plane comes back exactly when the item names a
/// task and the execution completed or failed: the record's status with its
/// metadata and `execution_time_ms`, `execution_id` and `error_message`
/// set, or for an error the error's status with those three.
pub fn record_execution_outcome(
    stats: &mut ExecutionCounters,
    records: &mut ExecutionRecords,
    item: &WorkItemView,
    outcome: &Result<ExecutionResponse, ExecutionError>,
    execution_time_ms: u64,
    now_ms: u64,
    completed_at: i64,
) -> (report: Option<TaskResultReport>)
    requires
        old(stats).successful_executions < u64::MAX,
        old(stats).failed_executions < u64::MAX,
        old(stats).completed_executions < u64::MAX,
        old(stats).total_execution_time_ms + execution_time_ms <= u64::MAX,
    ensures
        *final(stats) == counters_after(*old(stats), *outcome, execution_time_ms),
        forall|id: Seq<char>| id != item.execution_id@ ==> #[trigger] final(records).spec_record(id) == old(records).spec_record(id),
        final(records).spec_record(item.execution_id@) matches Some(r) && match outcome {
            Ok(resp) => same_record(r, *resp),
            Err(e) => failed_record(
                *item,
                *e,
                match old(records).spec_record(item.execution_id@) {
                    Some(r0) => r0.instance_id@,
                    None => Seq::empty(),
                },
                execution_time_ms,
                now_ms,
                r,
            ),
        },
        report is Some <==> item.task_id@.len() > 0 && match outcome {
            Ok(resp) => record_completed(*resp),
            Err(_) => true,
        },
        report matches Some(rep) ==> rep.task_id@ == item.task_id@ && rep.completed_at == completed_at && match outcome {
            Ok(resp) => {
                let m1 = meta_with(meta_view(resp.metadata@), "execution_time_ms"@, decimal(resp.execution_time_ms as nat));
                let m2 = meta_with(m1, "execution_id"@, resp.execution_id@);
                &&& rep.status@ == resp.status@
                &&& meta_view(rep.metadata@) == match resp.error_message {
                    Some(t) => meta_with(m2, "error_message"@, t@),
                    None => m2,
                }
            },
            Err(e) => {
                &&& rep.status@ == failure_status(*e)
                &&& exists|t: Seq<char>| #![trigger meta_with(meta_with(meta_with(Seq::empty(), "execution_time_ms"@, decimal(execution_time_ms as nat)), "execution_id"@, item.execution_id@), "error_message"@, t)]
                    meta_view(rep.metadata@) == meta_with(
                    meta_with(meta_with(Seq::empty(), "execution_time_ms"@, decimal(execution_time_ms as nat)), "execution_id"@, item.execution_id@),
                    "error_message"@,
                    t,
                ) && error_text_head(*e).is_prefix_of(t) && (!wraps_outside_error(*e) ==> t == error_text_head(*e))
            },
        },
{
    // Counters.
    stats.running_executions = stats.running_executions.saturating_sub(1);
    stats.completed_executions = stats.completed_executions + 1;
    stats.total_execution_time_ms = stats.total_execution_time_ms + execution_time_ms;
    match outcome {
        Ok(resp) => {
            let done = resp.is_completed();
            let good = resp.is_successful();
            if done && good {
                stats.successful_executions = stats.successful_executions + 1;
            } else if done {
                stats.failed_executions = stats.failed_executions + 1;
            }
        },
        Err(_) => {
            stats.failed_executions = stats.failed_executions + 1;
        },
    }
    // Record.
    match outcome {
        Ok(resp) => {
            records.put(item.execution_id.clone(), resp.duplicate());
        },
        Err(e) => {
            let instance_id = match records.find(item.execution_id.as_str()) {
                Some(i) => {
                    proof {
                        lemma_record_index(records.records@, item.execution_id@);
                    }
                    records.records[i].1.instance_id.clone()
                },
                None => String::new(),
            };
            let rec = ExecutionResponse {
                execution_id: item.execution_id.clone(),
                invocation_id: item.invocation_id.clone(),
                task_id: item.task_id.clone(),
                function_name: item.function_name.clone(),
                instance_id,
                output_data: Vec::new(),
                status: execution_failure_status(e),
                error_message: Some(e.to_text()),
                execution_time_ms,
                metadata: Vec::new(),
                timestamp_ms: now_ms,
            };
            records.put(item.execution_id.clone(), rec);
        },
    }
    // Report.
    if item.task_id.unicode_len() == 0 {
        return None;
    }
    match outcome {
        Ok(resp) => {
            if !resp.is_completed() {
                return None;
            }
            let mut meta = copy_meta(&resp.metadata);
            meta_set(&mut meta, "execution_time_ms", decimal_string(resp.execution_time_ms));
            meta_set(&mut meta, "execution_id", resp.execution_id.clone());
            match &resp.error_message {
                Some(t) => meta_set(&mut meta, "error_message", t.clone()),
                None => {},
            }
            Some(TaskResultReport { task_id: item.task_id.clone(), status: resp.status.clone(), completed_at, metadata: meta })
        },
        Err(e) => {
            let mut meta: Vec<(String, String)> = Vec::new();
            assert(meta_view(meta@) =~= Seq::<(Seq<char>, Seq<char>)>::empty());
            meta_set(&mut meta, "execution_time_ms", decimal_string(execution_time_ms));
            meta_set(&mut meta, "execution_id", item.execution_id.clone());
            let t = e.to_text();
            let ghost tv = t@;
            meta_set(&mut meta, "error_message", t);
            Some(TaskResultReport {
                task_id: item.task_id.clone(),
                status: execution_failure_status(e),
                completed_at,
                metadata: meta,
            })
        },
    }
}

/// What follows a runtime's answer to an execution.
#[derive(Debug)]
pub enum InvocationPlan {
    /// The execution is still running: it is followed until it ends.
    TrackInflight,
    /// The execution ended: it is finished with these result flags, the
    /// error's message and the runtime's duration.
    Finalize { successful: bool, failed: bool, error_message: Option<String>, duration_ms: u64 },
}

/// What follows runtime answer `resp`: following a running execution, else
/// finishing it with whether it succeeded (completed without an error),
/// whether it failed (an error, or failed, cancelled or timed out), the
/// error's message (see [`error_message_text`]) and its duration.
pub fn plan_after_runtime_response(resp: &RuntimeExecutionResponse) -> (p: InvocationPlan)
    ensures
        resp.execution_status == ExecutionStatus::Running ==> p is TrackInflight,
        resp.execution_status != ExecutionStatus::Running ==> (p matches InvocationPlan::Finalize {
            successful,
            failed,
            error_message,
            duration_ms,
        } && successful == (resp.execution_status == ExecutionStatus::Completed && resp.error is None) && failed == (
        resp.error is Some || crate::runtime::status_failed(resp.execution_status)) && duration_ms == resp.duration_ms
            && match resp.error {
            Some(e) => opt_text(error_message) == Some(error_message_text(e)),
            None => error_message is None,
        }),
{
    if resp.execution_status == ExecutionStatus::Running {
        return InvocationPlan::TrackInflight;
    }
    let error_message = match &resp.error {
        Some(e) => Some(extract_error_message(e)),
        None => None,
    };
    InvocationPlan::Finalize {
        successful: resp.is_successful(),
        failed: resp.has_failed(),
        error_message,
        duration_ms: resp.duration_ms,
    }
}

/// Whether record `r` passes the listing filters: its task and invocation
/// are the ones asked for, where one is.
pub open spec fn passes_filter(r: ExecutionResponse, task_id: Option<Seq<char>>, invocation_id: Option<Seq<char>>) -> bool {
    &&& (task_id matches Some(t) ==> r.task_id@ == t)
    &&& (invocation_id matches Some(i) ==> r.invocation_id@ == i)
}

/// The records of `s` that pass the filters, in order.
pub open spec fn filtered_records(
    s: Seq<(String, ExecutionResponse)>,
    task_id: Option<Seq<char>>,
    invocation_id: Option<Seq<char>>,
) -> Seq<ExecutionResponse>
    decreases s.len(),
{
    if s.len() == 0 {
        Seq::empty()
    } else if passes_filter(s.last().1, task_id, invocation_id) {
        filtered_records(s.drop_last(), task_id, invocation_id).push(s.last().1)
    } else {
        filtered_records(s.drop_last(), task_id, invocation_id)
    }
}

/// `s`, newest first, with `x` placed after every record at least as new.
pub open spec fn insert_newest_first(s: Seq<ExecutionResponse>, x: ExecutionResponse) -> Seq<ExecutionResponse>
    decreases s.len(),
{
    if s.len() == 0 {
        seq![x]
    } else if s[0].timestamp_ms < x.timestamp_ms {
        seq![x] + s
    } else {
        seq![s[0]] + insert_newest_first(s.drop_first(), x)
    }
}

/// `s` ordered newest first; records equally new keep their order.
pub open spec fn newest_first(s: Seq<ExecutionResponse>) -> Seq<ExecutionResponse>
    decreases s.len(),
{
    if s.len() == 0 {
        Seq::empty()
    } else {
        insert_newest_first(newest_first(s.drop_last()), s.last())
    }
}

/// The index at which [`insert_newest_first`] places `x`: the first record
/// older than `x`, or the end.
pub open spec fn newest_first_slot(s: Seq<ExecutionResponse>, x: ExecutionResponse) -> int
    decreases s.len(),
{
    if s.len() == 0 {
        0
    } else if s[0].timestamp_ms < x.timestamp_ms {
        0
    } else {
        1 + newest_first_slot(s.drop_first(), x)
    }
}

proof fn lemma_insert_newest_first(s: Seq<ExecutionResponse>, x: ExecutionResponse)
    ensures
        0 <= newest_first_slot(s, x) <= s.len(),
        insert_newest_first(s, x) == s.take(newest_first_slot(s, x)).push(x) + s.skip(newest_first_slot(s, x)),
        forall|j: int| 0 <= j < newest_first_slot(s, x) ==> !(#[trigger] s[j].timestamp_ms < x.timestamp_ms),
        newest_first_slot(s, x) < s.len() ==> s[newest_first_slot(s, x)].timestamp_ms < x.timestamp_ms,
    decreases s.len(),
{
    if s.len() > 0 {
        lemma_insert_newest_first(s.drop_first(), x);
        let p = newest_first_slot(s, x);
        if s[0].timestamp_ms < x.timestamp_ms {
            assert(s.take(0).push(x) + s.skip(0) =~= seq![x] + s);
        } else {
            let t = s.drop_first();
            let q = newest_first_slot(t, x);
            assert(seq![s[0]] + (t.take(q).push(x) + t.skip(q)) =~= s.take(p).push(x) + s.skip(p));
            assert forall|j: int| 0 <= j < p implies !(#[trigger] s[j].timestamp_ms < x.timestamp_ms) by {
                if j > 0 {
                    assert(s[j] == t[j - 1]);
                }
            }
        }
    } else {
        assert(s.take(0).push(x) + s.skip(0) =~= seq![x]);
    }
}

/// The number of records a listing returns at most: all of them for a
/// limit of 0.
pub open spec fn listing_cut(n: nat, limit: usize) -> nat {
    if limit > 0 && n > limit { limit as nat } else { n }
}

/// Whether `a` and `b` hold the same records in the same order.
pub open spec fn same_records(a: Seq<ExecutionResponse>, b: Seq<ExecutionResponse>) -> bool {
    a.len() == b.len() && forall|i: int| 0 <= i < a.len() ==> same_record(#[trigger] a[i], b[i])
}

impl ExecutionRecords {
    /// The records of the task `task_id` and invocation `invocation_id`
    /// (where given), newest first (records equally new in the order they
    /// are kept), at most `limit` of them (all for a limit of 0).
    pub fn list_executions(&self, task_id: Option<&str>, invocation_id: Option<&str>, limit: usize) -> (r: Vec<ExecutionResponse>)
        ensures
            ({
                let all = newest_first(
                    filtered_records(
                        self.records@,
                        match task_id {
                            Some(t) => Some(t@),
                            None => None,
                        },
                        match invocation_id {
                            Some(i) => Some(i@),
                            None => None,
                        },
                    ),
                );
                same_records(r@, all.take(listing_cut(all.len(), limit) as int))
            }),
    {
        let ghost tf = match task_id {
            Some(t) => Some(t@),
            None => None,
        };
        let ghost vf = match invocation_id {
            Some(i) => Some(i@),
            None => None,
        };
        let mut out: Vec<ExecutionResponse> = Vec::new();
        let mut k: usize = 0;
        while k < self.records.len()
            invariant
                0 <= k <= self.records@.len(),
                tf == (match task_id {
                    Some(t) => Some(t@),
                    None => None,
                }),
                vf == (match invocation_id {
                    Some(i) => Some(i@),
                    None => None,
                }),
                same_records(out@, newest_first(filtered_records(self.records@.take(k as int), tf, vf))),
            decreases self.records@.len() - k,
        {
            let rec = &self.records[k].1;
            let ghost pre = self.records@.take(k as int);
            proof {
                assert(self.records@.take(k + 1).drop_last() =~= pre);
                assert(self.records@.take(k + 1).last() == self.records@[k as int]);
            }
            let pass_task = match task_id {
                Some(t) => str_eq(rec.task_id.as_str(), t),
                None => true,
            };
            let pass_inv = match invocation_id {
                Some(i) => str_eq(rec.invocation_id.as_str(), i),
                None => true,
            };
            if pass_task && pass_inv {
                let ghost e = newest_first(filtered_records(pre, tf, vf));
                proof {
                    lemma_insert_newest_first(e, *rec);
                }
                let mut p: usize = 0;
                while p < out.len() && !(out[p].timestamp_ms < rec.timestamp_ms)
                    invariant
                        0 <= p <= out@.len(),
                        same_records(out@, e),
                        p <= newest_first_slot(e, *rec),
                        forall|j: int| 0 <= j < newest_first_slot(e, *rec) ==> !(#[trigger] e[j].timestamp_ms < rec.timestamp_ms),
                        newest_first_slot(e, *rec) < e.len() ==> e[newest_first_slot(e, *rec)].timestamp_ms < rec.timestamp_ms,
                        newest_first_slot(e, *rec) <= e.len(),
                    decreases out@.len() - p,
                {
                    assert(same_record(out@[p as int], e[p as int]));
                    p = p + 1;
                }
                assert(p == newest_first_slot(e, *rec)) by {
                    if p < newest_first_slot(e, *rec) {
                        assert(same_record(out@[p as int], e[p as int]));
                    }
                }
                let ghost o0 = out@;
                let c = rec.duplicate();
                out.insert(p, c);
                proof {
                    let ins = insert_newest_first(e, *rec);
                    assert(ins == e.take(p as int).push(*rec) + e.skip(p as int));
                    assert forall|i: int| 0 <= i < out@.len() implies same_record(#[trigger] out@[i], ins[i]) by {
                        if i < p {
                            assert(out@[i] == o0[i]);
                            assert(ins[i] == e[i]);
                        } else if i == p {
                        } else {
                            assert(out@[i] == o0[i - 1]);
                            assert(ins[i] == e[i - 1]);
                        }
                    }
                    assert(filtered_records(self.records@.take(k + 1), tf, vf) == filtered_records(pre, tf, vf).push(*rec));
                    assert(filtered_records(pre, tf, vf).push(*rec).drop_last() =~= filtered_records(pre, tf, vf));
                }
            } else {
                proof {
                    assert(filtered_records(self.records@.take(k + 1), tf, vf) == filtered_records(pre, tf, vf));
                }
            }
            k = k + 1;
        }
        proof {
            assert(self.records@.take(k as int) =~= self.records@);
        }
        let ghost full = out@;
        if limit > 0 && out.len() > limit {
            out.truncate(limit);
        }
        proof {
            let all = newest_first(filtered_records(self.records@, tf, vf));
            assert forall|i: int| 0 <= i < out@.len() implies same_record(#[trigger] out@[i], all.take(
                listing_cut(all.len(), limit) as int,
            )[i]) by {
                assert(out@[i] == full[i]);
            }
        }
        out
    }
}

} // verus!

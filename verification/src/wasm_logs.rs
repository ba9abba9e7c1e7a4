//! Guest log lines kept per execution in bounded rings: the oldest lines
//! give way once a ring is full, and readers page through a ring by
//! sequence number.
use vstd::prelude::*;
use std::collections::VecDeque;
use dashmap::DashMap;
use crate::termination::{opt_text, clone_opt_string};
use crate::host::DefaultHostApi;
use crate::tables::{log_map_contents, log_map_new, log_map_insert, log_map_remove};

verus! {

/// One guest log line.
#[derive(Debug)]
pub struct WasmLogEntry {
    pub seq: u64,
    pub ts_ms: u64,
    pub level: String,
    pub execution_id: Option<String>,
    pub task_id: Option<String>,
    pub instance_id: Option<String>,
    pub message: String,
}

/// The content of a [`WasmLogEntry`].
pub struct WasmLogEntryView {
    pub seq: u64,
    pub ts_ms: u64,
    pub level: Seq<char>,
    pub execution_id: Option<Seq<char>>,
    pub task_id: Option<Seq<char>>,
    pub instance_id: Option<Seq<char>>,
    pub message: Seq<char>,
}

impl WasmLogEntry {
    pub open spec fn view(&self) -> WasmLogEntryView {
        WasmLogEntryView {
            seq: self.seq,
            ts_ms: self.ts_ms,
            level: self.level@,
            execution_id: opt_text(self.execution_id),
            task_id: opt_text(self.task_id),
            instance_id: opt_text(self.instance_id),
            message: self.message@,
        }
    }

    /// A copy of the line.
    pub fn duplicate(&self) -> (r: WasmLogEntry)
        ensures
            r@ == self@,
    {
        WasmLogEntry {
            seq: self.seq,
            ts_ms: self.ts_ms,
            level: self.level.clone(),
            execution_id: clone_opt_string(&self.execution_id),
            task_id: clone_opt_string(&self.task_id),
            instance_id: clone_opt_string(&self.instance_id),
            message: self.message.clone(),
        }
    }
}

/// The contents of a sequence of lines.
pub open spec fn entry_views(s: Seq<WasmLogEntry>) -> Seq<WasmLogEntryView> {
    s.map_values(|e: WasmLogEntry| e@)
}

/// The last `n` elements of `s` (all of them when there are fewer).
pub open spec fn last_n<A>(s: Seq<A>, n: nat) -> Seq<A> {
    if s.len() <= n {
        s
    } else {
        s.subrange(s.len() - n, s.len() as int)
    }
}

/// The first `n` elements of `s` (all of them when there are fewer).
pub open spec fn first_n<A>(s: Seq<A>, n: nat) -> Seq<A> {
    if s.len() <= n {
        s
    } else {
        s.take(n as int)
    }
}

/// Whether a line is newer than `since`.
pub open spec fn newer(e: WasmLogEntryView, since: Option<u64>) -> bool {
    match since {
        Some(s) => e.seq > s,
        None => true,
    }
}

/// The lines of `s` newer than `since`, in order.
pub open spec fn lines_after(s: Seq<WasmLogEntryView>, since: Option<u64>) -> Seq<WasmLogEntryView>
    decreases s.len(),
{
    if s.len() == 0 {
        Seq::empty()
    } else if newer(s.last(), since) {
        lines_after(s.drop_last(), since).push(s.last())
    } else {
        lines_after(s.drop_last(), since)
    }
}

/// What a shorter prefix keeps is a prefix of what a longer one keeps.
pub proof fn lemma_lines_after_prefix(s: Seq<WasmLogEntryView>, since: Option<u64>, i: int, j: int)
    requires
        0 <= i <= j <= s.len(),
    ensures
        lines_after(s.take(i), since).len() <= lines_after(s.take(j), since).len(),
        lines_after(s.take(i), since) == lines_after(s.take(j), since).take(lines_after(s.take(i), since).len() as int),
    decreases j - i,
{
    if i < j {
        lemma_lines_after_prefix(s, since, i, j - 1);
        assert(s.take(j).drop_last() =~= s.take(j - 1));
        assert(s.take(j).last() == s[j - 1]);
        let a = lines_after(s.take(i), since);
        let b = lines_after(s.take(j - 1), since);
        if newer(s[j - 1], since) {
            assert(b.push(s[j - 1]).take(a.len() as int) =~= b.take(a.len() as int));
        }
    } else {
        assert(lines_after(s.take(i), since).take(lines_after(s.take(i), since).len() as int) =~= lines_after(
            s.take(i),
            since,
        ));
    }
}

/// Whether line numbers strictly increase along `s`.
pub open spec fn seqs_increasing(s: Seq<WasmLogEntryView>) -> bool {
    forall|i: int, j: int| 0 <= i < j < s.len() ==> #[trigger] s[i].seq < #[trigger] s[j].seq
}

/// The lines kept by [`lines_after`] are lines of `s`, and keep increasing
/// numbers increasing.
pub proof fn lemma_lines_after_subset(s: Seq<WasmLogEntryView>, since: Option<u64>)
    ensures
        forall|i: int| 0 <= i < lines_after(s, since).len() ==> s.contains(#[trigger] lines_after(s, since)[i]),
        seqs_increasing(s) ==> seqs_increasing(lines_after(s, since)),
    decreases s.len(),
{
    if s.len() > 0 {
        let d = s.drop_last();
        lemma_lines_after_subset(d, since);
        let a = lines_after(d, since);
        assert forall|i: int| 0 <= i < a.len() implies s.contains(#[trigger] a[i]) by {
            let j = choose|j: int| 0 <= j < d.len() && d[j] == a[i];
            assert(s[j] == d[j]);
        }
        assert(s.contains(s.last())) by {
            assert(s[s.len() - 1] == s.last());
        }
        if seqs_increasing(s) {
            assert(seqs_increasing(d)) by {
                assert forall|i: int, j: int| 0 <= i < j < d.len() implies #[trigger] d[i].seq < #[trigger] d[j].seq by {
                    assert(d[i] == s[i] && d[j] == s[j]);
                }
            }
            if newer(s.last(), since) {
                let b = a.push(s.last());
                assert forall|i: int, j: int| 0 <= i < j < b.len() implies #[trigger] b[i].seq < #[trigger] b[j].seq by {
                    if j == a.len() {
                        let k = choose|k: int| 0 <= k < d.len() && d[k] == a[i];
                        assert(s[k] == d[k]);
                        assert(s[s.len() - 1] == s.last());
                    } else {
                        assert(b[i] == a[i] && b[j] == a[j]);
                    }
                }
            }
        }
        if newer(s.last(), since) {
            let b = a.push(s.last());
            assert forall|i: int| 0 <= i < b.len() implies s.contains(#[trigger] b[i]) by {
                if i < a.len() {
                    assert(b[i] == a[i]);
                }
            }
        }
    }
}

/// Ring keys name one execution each.
pub proof fn lemma_log_key_injective(a: Seq<char>, b: Seq<char>)
    requires
        log_key(a) == log_key(b),
    ensures
        a == b,
{
    reveal_strlit("exec:");
    assert(a =~= log_key(a).subrange(5, log_key(a).len() as int));
    assert(b =~= log_key(b).subrange(5, log_key(b).len() as int));
}

/// The modulus of line numbers.
pub open spec fn seq_modulus() -> int {
    0x1_0000_0000_0000_0000
}

/// One more than a number modulo 2^64 follows from one more than any value
/// that is that number modulo 2^64.
pub proof fn lemma_mod_succ_seq(a: int, n: u64)
    requires
        a >= 0,
        a % seq_modulus() == n as int,
    ensures
        (a + 1) % seq_modulus() == (if n as int + 1 > u64::MAX { 0 } else { n as int + 1 }),
{
    let q = a / seq_modulus();
    vstd::arithmetic::div_mod::lemma_fundamental_div_mod(a, seq_modulus());
    assert(a == q * seq_modulus() + n) by (nonlinear_arith)
        requires a == seq_modulus() * q + a % seq_modulus(), a % seq_modulus() == n as int;
    assert(q >= 0) by (nonlinear_arith)
        requires a == q * seq_modulus() + n, a >= 0, n < seq_modulus(), seq_modulus() > 0;
    if n as int + 1 > u64::MAX {
        assert((a + 1) % seq_modulus() == 0) by (nonlinear_arith)
            requires a == q * seq_modulus() + n, n as int == seq_modulus() - 1, q >= 0;
    } else {
        assert((a + 1) % seq_modulus() == n as int + 1) by (nonlinear_arith)
            requires a == q * seq_modulus() + n, n as int + 1 < seq_modulus(), n >= 0, q >= 0;
    }
}

/// In a consecutively numbered ring whose numbering has not wrapped within
/// its lines (`next_seq` at least the number of lines), the line `d` places
/// from the end has number exactly `next_seq - d`, so numbers strictly
/// increase from oldest to newest.
pub proof fn lemma_numbered_increasing(r: WasmLogRing)
    requires
        r.numbered(),
        r.next_seq as int >= r.buf@.len(),
    ensures
        forall|i: int| 0 <= i < r.buf@.len() ==> #[trigger] r.buf@[i].seq as int == r.next_seq as int - (r.buf@.len() - i),
        forall|i: int, j: int| 0 <= i < j < r.buf@.len() ==> #[trigger] r.buf@[i].seq < #[trigger] r.buf@[j].seq,
{
    assert forall|i: int| 0 <= i < r.buf@.len() implies #[trigger] r.buf@[i].seq as int == r.next_seq as int - (
    r.buf@.len() - i) by {
        let a = r.buf@[i].seq as int + (r.buf@.len() - i);
        let n = r.next_seq as int;
        assert(a % seq_modulus() == n);
        let q = a / seq_modulus();
        vstd::arithmetic::div_mod::lemma_fundamental_div_mod(a, seq_modulus());
        assert(a == q * seq_modulus() + n) by (nonlinear_arith)
            requires a == seq_modulus() * q + a % seq_modulus(), a % seq_modulus() == n;
        assert(q == 0) by (nonlinear_arith)
            requires a == q * seq_modulus() + n, n >= 0, a >= 0, a - n <= seq_modulus() - 1 + r.buf@.len() - n,
                r.buf@.len() <= n, n < seq_modulus();
    }
}

/// A ring of the latest log lines of one execution.
#[derive(Debug)]
pub struct WasmLogRing {
    pub cap: usize,
    pub next_seq: u64,
    pub buf: VecDeque<WasmLogEntry>,
}

impl WasmLogRing {
    /// The ring holds at least one line and never more than its capacity.
    pub open spec fn wf(&self) -> bool {
        self.cap >= 1 && self.buf@.len() <= self.cap
    }

    /// The lines are numbered consecutively up to the number before
    /// `next_seq`, counting modulo 2^64: the line `d` places from the end
    /// has number `next_seq - d`.
    pub open spec fn numbered(&self) -> bool {
        forall|i: int|
            0 <= i < self.buf@.len() ==> (#[trigger] self.buf@[i].seq as int + (self.buf@.len() - i)) % seq_modulus()
                == self.next_seq as int
    }

    /// An empty ring of capacity `cap` (at least one); numbering starts at 1.
    pub fn new(cap: usize) -> (r: Self)
        ensures
            r.wf(),
            r.cap == (if cap >= 1 { cap } else { 1 }),
            r.next_seq == 1,
            r.buf@.len() == 0,
            r.numbered(),
    {
        WasmLogRing { cap: if cap >= 1 { cap } else { 1 }, next_seq: 1, buf: VecDeque::new() }
    }

    /// Appends a line numbered with the next sequence number, dropping the
    /// oldest lines beyond the capacity; returns the number given.
    pub fn push(
        &mut self,
        ts_ms: u64,
        level: String,
        execution_id: Option<String>,
        task_id: Option<String>,
        instance_id: Option<String>,
        message: String,
    ) -> (r: u64)
        ensures
            r == old(self).next_seq,
            final(self).next_seq == old(self).next_seq.wrapping_add(1),
            final(self).cap == old(self).cap,
            final(self).buf@ == last_n(
                old(self).buf@.push(
                    WasmLogEntry { seq: old(self).next_seq, ts_ms, level, execution_id, task_id, instance_id, message },
                ),
                old(self).cap as nat,
            ),
            old(self).wf() ==> final(self).wf(),
            old(self).numbered() ==> final(self).numbered(),
    {
        let seq = self.next_seq;
        self.next_seq = self.next_seq.wrapping_add(1);
        let ghost s = self.buf@.push(
            WasmLogEntry { seq, ts_ms, level, execution_id, task_id, instance_id, message },
        );
        self.buf.push_back(WasmLogEntry { seq, ts_ms, level, execution_id, task_id, instance_id, message });
        let ghost mut k: int = 0;
        while self.buf.len() > self.cap
            invariant
                0 <= k <= s.len(),
                self.buf@ == s.subrange(k, s.len() as int),
                self.cap == old(self).cap,
                self.next_seq == old(self).next_seq.wrapping_add(1),
                k == 0 || self.buf@.len() >= self.cap,
            decreases self.buf@.len(),
        {
            let _ = self.buf.pop_front();
            proof {
                k = k + 1;
            }
            assert(self.buf@ =~= s.subrange(k, s.len() as int));
        }
        proof {
            if k == 0 {
                assert(self.buf@ =~= s);
            } else {
                assert(self.buf@.len() == self.cap);
            }
            if old(self).numbered() {
                let ob = old(self).buf@;
                assert forall|i: int| 0 <= i < s.len() implies (#[trigger] s[i].seq as int + (s.len() - i)) % seq_modulus()
                    == self.next_seq as int by {
                    if i < ob.len() {
                        assert(s[i] == ob[i]);
                        assert((ob[i].seq as int + (ob.len() - i)) % seq_modulus() == old(self).next_seq as int);
                        lemma_mod_succ_seq(ob[i].seq as int + (ob.len() - i), old(self).next_seq);
                    } else {
                        assert(s[i].seq == old(self).next_seq);
                        assert(old(self).next_seq as int % seq_modulus() == old(self).next_seq as int);
                        lemma_mod_succ_seq(old(self).next_seq as int, old(self).next_seq);
                    }
                }
                assert forall|i: int| 0 <= i < self.buf@.len() implies (#[trigger] self.buf@[i].seq as int + (
                self.buf@.len() - i)) % seq_modulus() == self.next_seq as int by {
                    assert(self.buf@[i] == s[i + k]);
                    assert(s[i + k].seq as int + (s.len() - (i + k)) == self.buf@[i].seq as int + (self.buf@.len() - i));
                }
            }
        }
        seq
    }

    /// The lines newer than `since_seq`, oldest first, at most `limit` of
    /// them and never more than the capacity (a limit of 0 counts as 1).
    pub fn read(&self, since_seq: Option<u64>, limit: usize) -> (r: Vec<WasmLogEntry>)
        requires
            self.wf(),
        ensures
            entry_views(r@) == first_n(
                lines_after(entry_views(self.buf@), since_seq),
                read_limit(limit, self.cap) as nat,
            ),
    {
        let lim = if limit < 1 { 1 } else { limit };
        let lim = if lim > self.cap { self.cap } else { lim };
        let ghost all = entry_views(self.buf@);
        let mut out: Vec<WasmLogEntry> = Vec::new();
        let mut i: usize = 0;
        while i < self.buf.len()
            invariant
                0 <= i <= self.buf@.len(),
                all == entry_views(self.buf@),
                lim == read_limit(limit, self.cap),
                lim >= 1,
                entry_views(out@) == lines_after(all.take(i as int), since_seq),
                out@.len() < lim,
            decreases self.buf@.len() - i,
        {
            let keep = match since_seq {
                Some(s) => self.buf[i].seq > s,
                None => true,
            };
            proof {
                assert(all.take(i + 1).drop_last() =~= all.take(i as int));
                assert(all.take(i + 1).last() == all[i as int]);
                assert(all[i as int] == self.buf@[i as int]@);
            }
            if keep {
                let c = self.buf[i].duplicate();
                out.push(c);
                proof {
                    assert(entry_views(out@) =~= entry_views(out@.drop_last()).push(c@));
                }
            }
            i = i + 1;
            if out.len() >= lim {
                proof {
                    lemma_lines_after_prefix(all, since_seq, i as int, all.len() as int);
                    assert(all.take(all.len() as int) =~= all);
                    assert(entry_views(out@).len() == out@.len());
                    let full = lines_after(all, since_seq);
                    if full.len() == lim {
                        assert(full.take(lim as int) =~= full);
                    }
                }
                return out;
            }
        }
        proof {
            assert(all.take(i as int) =~= all);
            assert(entry_views(out@).len() == out@.len());
        }
        out
    }
}

/// The number of lines a read returns at most: `limit`, at least 1, at most
/// the capacity.
pub open spec fn read_limit(limit: usize, cap: usize) -> usize {
    let l = if limit < 1 { 1 } else { limit };
    if l > cap { cap } else { l }
}

/// The key of the ring of an execution.
pub open spec fn log_key(execution_id: Seq<char>) -> Seq<char> {
    "exec:"@ + execution_id
}

fn log_key_of(execution_id: &str) -> (r: String)
    ensures
        r@ == log_key(execution_id@),
{
    String::from_str("exec:").concat(execution_id)
}

/// Capacity of the ring an execution's first line creates.
pub const WASM_LOG_RING_CAPACITY: usize = 2048;

/// The number the next line of `execution_id` gets.
pub open spec fn next_log_seq(m: Map<Seq<char>, WasmLogRing>, execution_id: Seq<char>) -> u64 {
    let k = log_key(execution_id);
    if m.contains_key(k) { m[k].next_seq } else { 1 }
}

/// `m2` is `m1` after a line was appended to the ring of `execution_id`
/// (a fresh ring when it had none), numbered with the ring's next number.
pub open spec fn log_appended(
    m1: Map<Seq<char>, WasmLogRing>,
    m2: Map<Seq<char>, WasmLogRing>,
    execution_id: Seq<char>,
    ts_ms: u64,
    level: Seq<char>,
    task_id: Option<Seq<char>>,
    instance_id: Option<Seq<char>>,
    message: Seq<char>,
) -> bool {
    let k = log_key(execution_id);
    let fresh = !m1.contains_key(k);
    let cap: usize = if fresh { WASM_LOG_RING_CAPACITY } else { m1[k].cap };
    let next: u64 = next_log_seq(m1, execution_id);
    let lines = if fresh { Seq::empty() } else { entry_views(m1[k].buf@) };
    let after = m2[k];
    &&& m2.dom() == m1.dom().insert(k)
    &&& forall|j: Seq<char>| j != k && #[trigger] m1.contains_key(j) ==> m2[j] == m1[j]
    &&& after.cap == cap
    &&& after.next_seq == next.wrapping_add(1)
    &&& entry_views(after.buf@) == last_n(
        lines.push(WasmLogEntryView {
            seq: next,
            ts_ms,
            level,
            execution_id: Some(execution_id),
            task_id,
            instance_id,
            message,
        }),
        cap as nat,
    )
}

/// Whether `r` is a well-formed ring filed under key `k`: it has the
/// capacity of an execution's ring, holds no more lines than that, numbers
/// its lines consecutively, and holds only lines of the execution whose key
/// is `k`.
pub open spec fn ring_of_execution(r: WasmLogRing, k: Seq<char>) -> bool {
    &&& r.wf()
    &&& r.cap == WASM_LOG_RING_CAPACITY
    &&& r.numbered()
    &&& forall|i: int|
        0 <= i < r.buf@.len() ==> (#[trigger] r.buf@[i].execution_id matches Some(x) && log_key(x@) == k)
}

/// The log rings of all executions.
pub struct WasmLogStore {
    rings: DashMap<String, WasmLogRing>,
}

impl WasmLogStore {
    /// The rings by key.
    pub closed spec fn spec_rings(&self) -> Map<Seq<char>, WasmLogRing> {
        log_map_contents(self.rings)
    }

    /// Every ring is well formed (see [`ring_of_execution`]).
    pub open spec fn wf(&self) -> bool {
        forall|k: Seq<char>| #[trigger] self.spec_rings().contains_key(k) ==> ring_of_execution(self.spec_rings()[k], k)
    }

    /// A store without rings.
    pub fn new() -> (r: Self)
        ensures
            r.wf(),
            r.spec_rings() == Map::<Seq<char>, WasmLogRing>::empty(),
    {
        let r = WasmLogStore { rings: log_map_new() };
        assert(r.spec_rings() =~= Map::<Seq<char>, WasmLogRing>::empty());
        r
    }

    /// Appends a line to the ring of `execution_id`, creating the ring on the
    /// first line; returns the line's number.
    pub fn append(
        &mut self,
        execution_id: &str,
        ts_ms: u64,
        level: String,
        task_id: Option<String>,
        instance_id: Option<String>,
        message: String,
    ) -> (r: u64)
        requires
            old(self).wf(),
        ensures
            final(self).wf(),
            r == next_log_seq(old(self).spec_rings(), execution_id@),
            log_appended(
                old(self).spec_rings(),
                final(self).spec_rings(),
                execution_id@,
                ts_ms,
                level@,
                opt_text(task_id),
                opt_text(instance_id),
                message@,
            ),
    {
        let key = log_key_of(execution_id);
        let ghost k = key@;
        let mut ring = match log_map_remove(&mut self.rings, key.as_str()) {
            Some(r) => r,
            None => WasmLogRing::new(WASM_LOG_RING_CAPACITY),
        };
        let ghost before = ring;
        assert(entry_views(before.buf@) == (if !old(self).spec_rings().contains_key(k) { Seq::empty() } else { entry_views(old(self).spec_rings()[k].buf@) }));
        let eid = String::from_str(execution_id);
        let ghost e = WasmLogEntry {
            seq: before.next_seq,
            ts_ms,
            level,
            execution_id: Some(eid),
            task_id,
            instance_id,
            message,
        };
        let seq = ring.push(ts_ms, level, Some(eid), task_id, instance_id, message);
        proof {
            assert(entry_views(before.buf@.push(e)) =~= entry_views(before.buf@).push(e@));
            let s = before.buf@.push(e);
            if s.len() > before.cap {
                assert(entry_views(s.subrange(s.len() - before.cap, s.len() as int)) =~= entry_views(s).subrange(
                    s.len() - before.cap,
                    s.len() as int,
                ));
            }
        }
        log_map_insert(&mut self.rings, key, ring);
        proof {
            assert(self.spec_rings().dom() =~= old(self).spec_rings().dom().insert(k));
        }
        seq
    }

    /// The lines of `execution_id` newer than `since_seq`, at most `limit`;
    /// none for an execution without lines.
    pub fn read(&mut self, execution_id: &str, since_seq: Option<u64>, limit: usize) -> (r: Vec<WasmLogEntry>)
        requires
            old(self).wf(),
        ensures
            final(self).spec_rings() == old(self).spec_rings(),
            final(self).wf(),
            ({
                let k = log_key(execution_id@);
                if old(self).spec_rings().contains_key(k) {
                    let ring = old(self).spec_rings()[k];
                    entry_views(r@) == first_n(
                        lines_after(entry_views(ring.buf@), since_seq),
                        read_limit(limit, ring.cap) as nat,
                    )
                } else {
                    r@.len() == 0
                }
            }),
            ({
                let k = log_key(execution_id@);
                old(self).spec_rings().contains_key(k) ==> {
                    let ring = old(self).spec_rings()[k];
                    &&& ring.cap == WASM_LOG_RING_CAPACITY
                    &&& forall|i: int| 0 <= i < r@.len() ==> (#[trigger] r@[i])@.execution_id == Some(execution_id@)
                    &&& ring.next_seq as int >= ring.buf@.len() ==> seqs_increasing(entry_views(r@))
                }
            }),
    {
        let key = log_key_of(execution_id);
        let ghost m = self.spec_rings();
        match log_map_remove(&mut self.rings, key.as_str()) {
            Some(ring) => {
                let out = ring.read(since_seq, limit);
                proof {
                    let k = log_key(execution_id@);
                    assert(ring_of_execution(ring, k));
                    let all = entry_views(ring.buf@);
                    let la = lines_after(all, since_seq);
                    lemma_lines_after_subset(all, since_seq);
                    let n = read_limit(limit, ring.cap) as nat;
                    assert(entry_views(out@) == first_n(la, n));
                    assert forall|i: int| 0 <= i < out@.len() implies (#[trigger] out@[i])@.execution_id == Some(
                    execution_id@) by {
                        assert(entry_views(out@)[i] == out@[i]@);
                        assert(first_n(la, n)[i] == la[i]);
                        assert(la.contains(la[i]));
                        let j = choose|j: int| 0 <= j < all.len() && all[j] == la[i];
                        assert(all[j] == ring.buf@[j]@);
                        let x = ring.buf@[j].execution_id.unwrap();
                        lemma_log_key_injective(x@, execution_id@);
                    }
                    if ring.next_seq as int >= ring.buf@.len() {
                        lemma_numbered_increasing(ring);
                        assert(seqs_increasing(all)) by {
                            assert forall|i: int, j: int| 0 <= i < j < all.len() implies #[trigger] all[i].seq
                                < #[trigger] all[j].seq by {
                                assert(all[i] == ring.buf@[i]@ && all[j] == ring.buf@[j]@);
                                assert(ring.buf@[i].seq < ring.buf@[j].seq);
                            }
                        }
                        assert(seqs_increasing(first_n(la, n))) by {
                            assert forall|i: int, j: int| 0 <= i < j < first_n(la, n).len() implies #[trigger] first_n(
                                la,
                                n,
                            )[i].seq < #[trigger] first_n(la, n)[j].seq by {
                                assert(first_n(la, n)[i] == la[i] && first_n(la, n)[j] == la[j]);
                            }
                        }
                    }
                }
                log_map_insert(&mut self.rings, key, ring);
                assert(self.spec_rings() =~= m);
                out
            },
            None => {
                assert(self.spec_rings() =~= m);
                Vec::new()
            },
        }
    }

    /// Drops the lines of `execution_id`.
    pub fn clear(&mut self, execution_id: &str)
        requires
            old(self).wf(),
        ensures
            final(self).wf(),
            final(self).spec_rings() == old(self).spec_rings().remove(log_key(execution_id@)),
    {
        let key = log_key_of(execution_id);
        let _ = log_map_remove(&mut self.rings, key.as_str());
    }
}

impl DefaultHostApi {
    /// Records a guest log line at `now_ms` in the ring of the running
    /// execution (its own, else `current_execution_id`). Only guests of an
    /// instance keep lines; without an execution nothing is kept.
    pub fn wasm_log_write(
        &self,
        store: &mut WasmLogStore,
        level: &str,
        message: &str,
        now_ms: u64,
        current_execution_id: Option<&str>,
    )
        requires
            old(store).wf(),
        ensures
            final(store).wf(),
            ({
                let exec = match self.execution_id {
                    Some(x) => Some(x@),
                    None => match current_execution_id {
                        Some(c) => Some(c@),
                        None => None,
                    },
                };
                if self.instance_id is None || exec is None {
                    final(store).spec_rings() == old(store).spec_rings()
                } else {
                    log_appended(
                        old(store).spec_rings(),
                        final(store).spec_rings(),
                        exec.unwrap(),
                        now_ms,
                        level@,
                        opt_text(self.task_id),
                        opt_text(self.instance_id),
                        message@,
                    )
                }
            }),
    {
        let instance_id = match &self.instance_id {
            Some(i) => i,
            None => { return; },
        };
        let exec: Option<&str> = match &self.execution_id {
            Some(x) => Some(x.as_str()),
            None => current_execution_id,
        };
        if let Some(execution_id) = exec {
            let inst = Some(instance_id.clone());
            let _ = store.append(
                execution_id,
                now_ms,
                String::from_str(level),
                clone_opt_string(&self.task_id),
                inst,
                String::from_str(message),
            );
        }
    }
}

/// The lines of `execution_id` newer than `since_seq`, at most `limit`
/// (at least one, at most the ring capacity of 2048), oldest first; every
/// line returned is one of that execution, and while the numbering has not
/// wrapped the numbers strictly increase.
pub fn get_wasm_logs_by_execution(store: &mut WasmLogStore, execution_id: &str, since_seq: Option<u64>, limit: usize) -> (r: Vec<WasmLogEntry>)
    requires
        old(store).wf(),
    ensures
        final(store).spec_rings() == old(store).spec_rings(),
        final(store).wf(),
        ({
            let k = log_key(execution_id@);
            if old(store).spec_rings().contains_key(k) {
                let ring = old(store).spec_rings()[k];
                entry_views(r@) == first_n(
                    lines_after(entry_views(ring.buf@), since_seq),
                    read_limit(limit, ring.cap) as nat,
                )
            } else {
                r@.len() == 0
            }
        }),
        ({
            let k = log_key(execution_id@);
            old(store).spec_rings().contains_key(k) ==> {
                let ring = old(store).spec_rings()[k];
                &&& ring.cap == WASM_LOG_RING_CAPACITY
                &&& forall|i: int| 0 <= i < r@.len() ==> (#[trigger] r@[i])@.execution_id == Some(execution_id@)
                &&& ring.next_seq as int >= ring.buf@.len() ==> seqs_increasing(entry_views(r@))
            }
        }),
{
    store.read(execution_id, since_seq, limit)
}

/// Drops the lines of `execution_id`.
pub fn clear_wasm_logs_by_execution(store: &mut WasmLogStore, execution_id: &str)
    requires
        old(store).wf(),
    ensures
        final(store).wf(),
        final(store).spec_rings() == old(store).spec_rings().remove(log_key(execution_id@)),
{
    store.clear(execution_id)
}

} // verus!

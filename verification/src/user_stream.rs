//! User streams: frames between a WebSocket peer and the guest, grouped per
//! execution into a hub of channels. Guest descriptors attached to a
//! channel follow its readiness; control descriptors receive 8-byte events
//! (stream connected, session closed).
use vstd::prelude::*;
use std::collections::HashSet;
use dashmap::DashMap;
use crate::errno::{SPEAR_EINVAL, SPEAR_ENOSPC, SPEAR_ENOTCONN};
use crate::poll::PollEvents;
use crate::types::{FdEntry, FdInner, UserStreamChannel, UserStreamConnState, lemma_frames_bytes_push, lemma_frames_bytes_drop_first};
use crate::fd_table::{FdTable, table_after_store, lemma_store_back, set_to_vec};
use crate::rtasr::sat_add;
use crate::termination::opt_text;
use crate::tables::{stream_map_contents, stream_map_new, stream_map_insert, stream_map_remove, stream_map_keys, hub_map_contents, hub_map_new, hub_map_insert, hub_map_remove};

verus! {

/// Control event: a stream of the session connected.
pub const CTL_EVENT_STREAM_CONNECTED: u32 = 1;
/// Control event: the session closed.
pub const CTL_EVENT_SESSION_CLOSED: u32 = 2;

/// The readiness of entry `e` against channel `c`: readable with inbound
/// frames (reading direction), writable while connected, below the outbound
/// limit and open (writing direction), error and hang-up from the channel
/// state; nothing for an entry that is not a user stream.
pub open spec fn user_stream_mask(e: FdEntry, c: UserStreamChannel) -> u32 {
    match e.inner {
        FdInner::UserStream(st) => {
            let m1: u32 = if st.direction.spec_allows_read() && c.inbound@.len() > 0 { 0u32 | 1u32 } else { 0u32 };
            let writable = st.direction.spec_allows_write() && c.conn_state == UserStreamConnState::Connected
                && c.outbound_bytes < c.max_outbound_bytes && !e.closed;
            let m2: u32 = if writable { m1 | 4u32 } else { m1 };
            let m3: u32 = if c.conn_state == UserStreamConnState::Error { m2 | 8u32 } else { m2 };
            if e.closed || c.conn_state == UserStreamConnState::Closed { m3 | 16u32 } else { m3 }
        },
        _ => 0,
    }
}

/// The table after descriptor `fd` took its readiness from channel `c`
/// (watchers notified on a change).
pub open spec fn sync_step(m: Map<i32, FdEntry>, fd: i32, c: UserStreamChannel) -> Map<i32, FdEntry> {
    if m.contains_key(fd) {
        table_after_store(m, fd, FdEntry { poll_mask: PollEvents(user_stream_mask(m[fd], c)), ..m[fd] }, m[fd].poll_mask.0)
    } else {
        m
    }
}

/// The table after the descriptors `v`, in order, took their readiness from
/// channel `c`.
pub open spec fn sync_fold(m: Map<i32, FdEntry>, v: Seq<i32>, c: UserStreamChannel) -> Map<i32, FdEntry>
    decreases v.len(),
{
    if v.len() == 0 {
        m
    } else {
        sync_step(sync_fold(m, v.drop_last(), c), v.last(), c)
    }
}

/// `m2` is `m1` after the descriptors of `s`, in some order, took their
/// readiness from channel `c`.
pub open spec fn synced(m1: Map<i32, FdEntry>, m2: Map<i32, FdEntry>, s: Set<i32>, c: UserStreamChannel) -> bool {
    exists|v: Seq<i32>| v.to_set() == s && v.no_duplicates() && m2 == #[trigger] sync_fold(m1, v, c)
}

/// The readiness of a control descriptor: hang-up once closed, readable
/// with pending events; nothing for other entries.
pub open spec fn ctl_mask(e: FdEntry) -> u32 {
    match e.inner {
        FdInner::UserStreamCtl(st) => if e.closed {
            16
        } else if st.pending@.len() > 0 {
            0u32 | 1u32
        } else {
            0
        },
        _ => 0,
    }
}

/// The pending events that remain when one more is queued: the oldest
/// gives way when the queue is full.
pub open spec fn pending_kept(p: Seq<[u8; 8]>, max_pending: usize) -> Seq<[u8; 8]> {
    if p.len() >= max_pending && p.len() > 0 { p.drop_first() } else { p }
}

/// `p2` is `p` with event `ev` queued.
pub open spec fn pending_after(p: Seq<[u8; 8]>, max_pending: usize, ev: Seq<u8>, p2: Seq<[u8; 8]>) -> bool {
    let kept = pending_kept(p, max_pending);
    &&& p2.len() == kept.len() + 1
    &&& p2.subrange(0, kept.len() as int) == kept
    &&& p2.last()@ == ev
}

/// Entry `e2` is `e` after control event `ev` reached it: queued on a
/// control descriptor, and the readiness recomputed.
pub open spec fn ctl_after(e: FdEntry, ev: Seq<u8>, e2: FdEntry) -> bool {
    &&& e2.kind == e.kind
    &&& e2.flags == e.flags
    &&& e2.watchers == e.watchers
    &&& e2.closed == e.closed
    &&& match e.inner {
        FdInner::UserStreamCtl(st) => e2.inner matches FdInner::UserStreamCtl(st2) && st2.execution_id
            == st.execution_id && st2.max_pending == st.max_pending && pending_after(
            st.pending@,
            st.max_pending,
            ev,
            st2.pending@,
        ),
        _ => e2.inner == e.inner,
    }
    &&& e2.poll_mask.0 == ctl_mask(e2)
}

/// `m2` is `m1` after control event `ev` reached descriptor `fd`.
pub open spec fn ctl_step(m1: Map<i32, FdEntry>, fd: i32, ev: Seq<u8>, m2: Map<i32, FdEntry>) -> bool {
    if m1.contains_key(fd) {
        exists|e2: FdEntry| ctl_after(m1[fd], ev, e2) && m2 == #[trigger] table_after_store(m1, fd, e2, m1[fd].poll_mask.0)
    } else {
        m2 == m1
    }
}

/// The tables `ms` are the stages of control event `ev` reaching the
/// descriptors `v` in order: `ms[i + 1]` follows from `ms[i]` at `v[i]`.
pub open spec fn ctl_chain(ms: Seq<Map<i32, FdEntry>>, v: Seq<i32>, ev: Seq<u8>) -> bool {
    &&& ms.len() == v.len() + 1
    &&& forall|i: int| 0 <= i < v.len() ==> #[trigger] ctl_step(ms[i], v[i], ev, ms[i + 1])
}

/// `m2` is `m1` after control event `ev` reached the descriptors of `s` in
/// some order.
pub open spec fn ctl_notified(m1: Map<i32, FdEntry>, m2: Map<i32, FdEntry>, s: Set<i32>, ev: Seq<u8>) -> bool {
    exists|v: Seq<i32>, ms: Seq<Map<i32, FdEntry>>|
        v.to_set() == s && v.no_duplicates() && #[trigger] ctl_chain(ms, v, ev) && ms[0] == m1 && ms.last() == m2
}

/// The little-endian bytes of `x`.
pub open spec fn le32(x: u32) -> Seq<u8> {
    seq![(x % 256) as u8, ((x / 256) % 256) as u8, ((x / 65536) % 256) as u8, ((x / 16777216) % 256) as u8]
}

/// A control event: the stream id, then the event kind, each as 4
/// little-endian bytes.
pub open spec fn ctl_event_bytes(stream_id: u32, kind: u32) -> Seq<u8> {
    le32(stream_id) + le32(kind)
}

/// Encodes a control event.
pub fn encode_ctl_event(stream_id: u32, kind: u32) -> (r: [u8; 8])
    ensures
        r@ == ctl_event_bytes(stream_id, kind),
{
    let r: [u8; 8] = [
        (stream_id % 256) as u8,
        ((stream_id / 256) % 256) as u8,
        ((stream_id / 65536) % 256) as u8,
        ((stream_id / 16777216) % 256) as u8,
        (kind % 256) as u8,
        ((kind / 256) % 256) as u8,
        ((kind / 65536) % 256) as u8,
        ((kind / 16777216) % 256) as u8,
    ];
    assert(r@ =~= ctl_event_bytes(stream_id, kind));
    r
}

/// The readiness of a user stream entry against its channel.
pub fn compute_user_stream_poll_mask(e: &FdEntry, c: &UserStreamChannel) -> (r: PollEvents)
    ensures
        r.0 == user_stream_mask(*e, *c),
{
    let st = match &e.inner {
        FdInner::UserStream(st) => st,
        _ => { return PollEvents::EMPTY(); },
    };
    let dir = st.direction;
    let mut mask = PollEvents::EMPTY();
    if dir.allows_read() && c.inbound.len() > 0 {
        mask.insert(PollEvents::IN());
    }
    let writable = dir.allows_write() && c.conn_state == UserStreamConnState::Connected
        && c.outbound_bytes < c.max_outbound_bytes && !e.closed;
    if writable {
        mask.insert(PollEvents::OUT());
    }
    if c.conn_state == UserStreamConnState::Error {
        mask.insert(PollEvents::ERR());
    }
    if e.closed || c.conn_state == UserStreamConnState::Closed {
        mask.insert(PollEvents::HUP());
    }
    mask
}

/// The readiness of a control entry.
pub fn compute_user_stream_ctl_poll_mask(e: &FdEntry) -> (r: PollEvents)
    ensures
        r.0 == ctl_mask(*e),
{
    let st = match &e.inner {
        FdInner::UserStreamCtl(st) => st,
        _ => { return PollEvents::EMPTY(); },
    };
    if e.closed {
        return PollEvents::HUP();
    }
    let mut mask = PollEvents::EMPTY();
    if st.pending.len() > 0 {
        mask.insert(PollEvents::IN());
    }
    mask
}

/// The descriptors attached to channel `c` take their readiness from it.
pub fn recompute_and_notify_attached_fds(table: &mut FdTable, c: &UserStreamChannel)
    ensures
        final(table).spec_next_fd() == old(table).spec_next_fd(),
        synced(old(table).spec_entries(), final(table).spec_entries(), c.attached_fds@, *c),
{
    let fds = set_to_vec(&c.attached_fds);
    let ghost m0 = table.spec_entries();
    let mut i: usize = 0;
    while i < fds.len()
        invariant
            0 <= i <= fds@.len(),
            table.spec_next_fd() == old(table).spec_next_fd(),
            m0 == old(table).spec_entries(),
            table.spec_entries() == sync_fold(m0, fds@.take(i as int), *c),
        decreases fds@.len() - i,
    {
        let fd = fds[i];
        let ghost mi = table.spec_entries();
        proof {
            assert(fds@.take(i + 1).drop_last() =~= fds@.take(i as int));
            assert(fds@.take(i + 1).last() == fd);
        }
        match table.take(fd) {
            None => {
                assert(table.spec_entries() =~= mi);
            },
            Some(mut e) => {
                let old_mask = e.poll_mask;
                e.poll_mask = compute_user_stream_poll_mask(&e, c);
                let ghost en = e;
                table.store_entry(fd, e, old_mask);
                proof {
                    lemma_store_back(mi, fd, en, old_mask.0);
                }
            },
        }
        i = i + 1;
    }
    proof {
        assert(fds@.take(fds@.len() as int) =~= fds@);
        assert(sync_fold(m0, fds@, *c) == table.spec_entries());
    }
}

/// Control event `ev` reaches the control descriptors `fds`.
pub fn notify_ctl_fds(table: &mut FdTable, fds: &HashSet<i32>, ev: [u8; 8])
    ensures
        final(table).spec_next_fd() == old(table).spec_next_fd(),
        ctl_notified(old(table).spec_entries(), final(table).spec_entries(), fds@, ev@),
{
    let v = set_to_vec(fds);
    let ghost m0 = table.spec_entries();
    let ghost mut ms: Seq<Map<i32, FdEntry>> = seq![m0];
    let mut i: usize = 0;
    while i < v.len()
        invariant
            0 <= i <= v@.len(),
            table.spec_next_fd() == old(table).spec_next_fd(),
            m0 == old(table).spec_entries(),
            ctl_chain(ms, v@.take(i as int), ev@),
            ms[0] == m0,
            ms.last() == table.spec_entries(),
        decreases v@.len() - i,
    {
        let fd = v[i];
        let ghost mi = table.spec_entries();
        match table.take(fd) {
            None => {
                assert(table.spec_entries() =~= mi);
                assert(ctl_step(mi, fd, ev@, table.spec_entries()));
            },
            Some(mut e) => {
                let old_mask = e.poll_mask;
                if let FdInner::UserStreamCtl(st) = &mut e.inner {
                    if st.pending.len() >= st.max_pending {
                        let _ = st.pending.pop_front();
                    }
                    st.pending.push_back(ev);
                }
                e.poll_mask = compute_user_stream_ctl_poll_mask(&e);
                let ghost en = e;
                proof {
                    let e0 = mi[fd];
                    match e0.inner {
                        FdInner::UserStreamCtl(st0) => {
                            let p0 = st0.pending@;
                            assert(p0.len() >= st0.max_pending && p0.len() > 0 ==> p0.drop_first() =~= p0.subrange(1, p0.len() as int));
                            match en.inner {
                                FdInner::UserStreamCtl(st2) => {
                                    let kept = pending_kept(p0, st0.max_pending);
                                    assert(st2.pending@.subrange(0, kept.len() as int) =~= kept);
                                },
                                _ => {},
                            }
                        },
                        _ => {},
                    }
                }
                table.store_entry(fd, e, old_mask);
                proof {
                    lemma_store_back(mi, fd, en, old_mask.0);
                    assert(ctl_after(mi[fd], ev@, en));
                    assert(ctl_step(mi, fd, ev@, table.spec_entries()));
                }
            },
        }
        proof {
            let ms0 = ms;
            ms = ms.push(table.spec_entries());
            let vt = v@.take(i + 1);
            assert forall|j: int| 0 <= j < vt.len() implies #[trigger] ctl_step(ms[j], vt[j], ev@, ms[j + 1]) by {
                if j < i {
                    assert(vt[j] == v@.take(i as int)[j]);
                    assert(ms[j] == ms0[j]);
                    assert(ms[j + 1] == ms0[j + 1]);
                } else {
                    assert(vt[j] == fd);
                    assert(ms[j] == mi);
                }
            }
        }
        i = i + 1;
    }
    proof {
        assert(v@.take(v@.len() as int) =~= v@);
    }
}

/// Whether `c` is a channel as [`UserStreamChannel::new`] makes it for
/// `stream_id`, in state `state`.
pub open spec fn fresh_channel(c: UserStreamChannel, stream_id: u32, state: UserStreamConnState) -> bool {
    &&& fresh_fields(c, stream_id, state)
    &&& c.attached_fds@ == Set::<i32>::empty()
}

/// Whether `c` has the queues, limits and state of a fresh channel for
/// `stream_id` in state `state`.
pub open spec fn fresh_fields(c: UserStreamChannel, stream_id: u32, state: UserStreamConnState) -> bool {
    &&& c.stream_id == stream_id
    &&& c.conn_state == state
    &&& c.inbound@.len() == 0
    &&& c.inbound_bytes == 0
    &&& c.outbound@.len() == 0
    &&& c.outbound_bytes == 0
    &&& c.max_inbound_bytes == 8 * 1024 * 1024
    &&& c.max_outbound_bytes == 8 * 1024 * 1024
    &&& c.max_frame_bytes == 256 * 1024
    &&& c.last_error is None
}

/// The channels of one execution, whether a descriptor table is attached,
/// its control descriptors, and whether its WebSocket session has closed
/// (a closed hub keeps its channels for the descriptors that still use
/// them, but takes no more frames).
#[derive(Debug)]
pub struct UserStreamHub {
    pub streams: DashMap<u32, UserStreamChannel>,
    pub table_attached: bool,
    pub ctl_fds: HashSet<i32>,
    pub session_closed: bool,
    pub generation: u64,
}

impl UserStreamHub {
    /// The channels by stream id.
    pub open spec fn spec_streams(&self) -> Map<u32, UserStreamChannel> {
        stream_map_contents(self.streams)
    }

    /// Each channel is filed under its own id and its counters match its
    /// queues.
    pub open spec fn wf(&self) -> bool {
        forall|k: u32| #[trigger] self.spec_streams().contains_key(k) ==> self.spec_streams()[k].wf()
            && self.spec_streams()[k].stream_id == k
    }

    /// A hub without channels, table or control descriptors.
    pub fn new() -> (r: Self)
        ensures
            r.wf(),
            r.spec_streams() == Map::<u32, UserStreamChannel>::empty(),
            !r.table_attached,
            r.ctl_fds@ == Set::<i32>::empty(),
            !r.session_closed,
            r.generation == 0,
    {
        let r = UserStreamHub {
            streams: stream_map_new(),
            table_attached: false,
            ctl_fds: HashSet::new(),
            session_closed: false,
            generation: 0,
        };
        assert(r.spec_streams() =~= Map::<u32, UserStreamChannel>::empty());
        r
    }

    /// Takes channel `stream_id` out of the hub, or a fresh one.
    pub(crate) fn take_channel(&mut self, stream_id: u32) -> (r: UserStreamChannel)
        ensures
            final(self).spec_streams() == old(self).spec_streams().remove(stream_id),
            final(self).table_attached == old(self).table_attached,
            final(self).ctl_fds == old(self).ctl_fds,
            final(self).session_closed == old(self).session_closed,
            final(self).generation == old(self).generation,
            old(self).spec_streams().contains_key(stream_id) ==> r == old(self).spec_streams()[stream_id],
            !old(self).spec_streams().contains_key(stream_id) ==> fresh_channel(r, stream_id, UserStreamConnState::Init),
            old(self).wf() ==> r.wf() && r.stream_id == stream_id,
            old(self).wf() ==> final(self).wf(),
    {
        match stream_map_remove(&mut self.streams, stream_id) {
            Some(c) => c,
            None => UserStreamChannel::new(stream_id),
        }
    }

    /// Marks stream `stream_id` connected (creating its channel), updates
    /// the readiness of its descriptors and tells the control descriptors,
    /// where a descriptor table is attached.
    pub fn mark_connected(&mut self, table: &mut FdTable, stream_id: u32)
        requires
            old(self).wf(),
        ensures
            final(self).wf(),
            final(self).table_attached == old(self).table_attached,
            final(self).ctl_fds == old(self).ctl_fds,
            final(table).spec_next_fd() == old(table).spec_next_fd(),
            connected_rel(*old(self), old(table).spec_entries(), stream_id, *final(self), final(table).spec_entries()),
    {
        let mut ch = self.take_channel(stream_id);
        ch.conn_state = UserStreamConnState::Connected;
        let ghost m0 = table.spec_entries();
        if self.table_attached {
            recompute_and_notify_attached_fds(table, &ch);
        }
        let ghost mid = table.spec_entries();
        let ghost c1 = ch;
        stream_map_insert(&mut self.streams, stream_id, ch);
        if self.table_attached {
            let ev = encode_ctl_event(stream_id, CTL_EVENT_STREAM_CONNECTED);
            notify_ctl_fds(table, &self.ctl_fds, ev);
            assert(synced(m0, mid, c1.attached_fds@, c1));
        }
        assert(self.spec_streams().dom() =~= old(self).spec_streams().dom().insert(stream_id));
    }

    /// Queues inbound frame `frame` on stream `stream_id` (creating its
    /// channel): a frame over the frame limit puts the channel in error with
    /// `-EINVAL`, one that overflows the inbound queue with `-ENOSPC`;
    /// otherwise it is queued and 0 returned. The stream's descriptors then
    /// take their readiness from the channel, where a table is attached.
    pub fn push_inbound_frame(&mut self, table: &mut FdTable, stream_id: u32, frame: Vec<u8>) -> (r: i32)
        requires
            old(self).wf(),
        ensures
            final(self).wf(),
            final(self).table_attached == old(self).table_attached,
            final(self).ctl_fds == old(self).ctl_fds,
            final(table).spec_next_fd() == old(table).spec_next_fd(),
            inbound_rel(*old(self), old(table).spec_entries(), stream_id, frame@, *final(self), final(table).spec_entries(), r),
    {
        let mut ch = self.take_channel(stream_id);
        let ghost c0 = ch;
        proof {
            if !old(self).spec_streams().contains_key(stream_id) {
                assert(c0.outbound@ =~= Seq::<Vec<u8>>::empty());
                assert(c0.inbound@ =~= Seq::<Vec<u8>>::empty());
            }
        }
        let n = frame.len();
        let rc = if n > ch.max_frame_bytes {
            ch.last_error = Some(String::from_str("frame_too_large"));
            ch.conn_state = UserStreamConnState::Error;
            -SPEAR_EINVAL
        } else if ch.inbound_bytes.saturating_add(n) > ch.max_inbound_bytes {
            ch.last_error = Some(String::from_str("inbound_queue_full"));
            ch.conn_state = UserStreamConnState::Error;
            -SPEAR_ENOSPC
        } else {
            proof {
                lemma_frames_bytes_push(ch.inbound@, frame);
            }
            ch.inbound_bytes = ch.inbound_bytes.saturating_add(n);
            ch.inbound.push_back(frame);
            assert(ch.inbound@.subrange(0, c0.inbound@.len() as int) =~= c0.inbound@);
            0
        };
        if self.table_attached {
            recompute_and_notify_attached_fds(table, &ch);
        }
        let ghost c1 = ch;
        stream_map_insert(&mut self.streams, stream_id, ch);
        assert(self.spec_streams().dom() =~= old(self).spec_streams().dom().insert(stream_id));
        rc
    }

    /// Takes the first outbound frame of some stream that has one, with the
    /// stream's id; `None` when no stream has outbound frames. The stream's
    /// descriptors then take their readiness from the channel, where a table
    /// is attached.
    pub fn pop_outbound_frame_any(&mut self, table: &mut FdTable) -> (r: Option<(u32, Vec<u8>)>)
        requires
            old(self).wf(),
        ensures
            final(self).wf(),
            final(self).table_attached == old(self).table_attached,
            final(self).ctl_fds == old(self).ctl_fds,
            final(table).spec_next_fd() == old(table).spec_next_fd(),
            outbound_rel(*old(self), old(table).spec_entries(), *final(self), final(table).spec_entries(), r),
    {
        let keys = stream_map_keys(&self.streams);
        let ghost s0 = self.spec_streams();
        let mut i: usize = 0;
        while i < keys.len()
            invariant
                0 <= i <= keys@.len(),
                keys@.to_set() == s0.dom(),
                self.spec_streams() == s0,
                s0 == old(self).spec_streams(),
                self.table_attached == old(self).table_attached,
                self.ctl_fds == old(self).ctl_fds,
                self.session_closed == old(self).session_closed,
                self.generation == old(self).generation,
                table.spec_entries() == old(table).spec_entries(),
                table.spec_next_fd() == old(table).spec_next_fd(),
                old(self).wf(),
                forall|j: int| 0 <= j < i ==> s0[#[trigger] keys@[j]].outbound@.len() == 0,
            decreases keys@.len() - i,
        {
            let sid = keys[i];
            proof {
                assert(keys@.to_set().contains(sid));
            }
            let mut ch = self.take_channel(sid);
            let ghost c0 = ch;
            if ch.outbound.len() > 0 {
                let f = match ch.outbound.pop_front() {
                    Some(f) => f,
                    None => Vec::new(),
                };
                proof {
                    lemma_frames_bytes_drop_first(c0.outbound@);
                }
                assert(ch.outbound@ =~= c0.outbound@.drop_first());
                ch.outbound_bytes = ch.outbound_bytes.saturating_sub(f.len());
                if self.table_attached {
                    recompute_and_notify_attached_fds(table, &ch);
                }
                let ghost c1 = ch;
                stream_map_insert(&mut self.streams, sid, ch);
                assert(self.spec_streams() =~= s0.insert(sid, c1));
                return Some((sid, f));
            }
            stream_map_insert(&mut self.streams, sid, ch);
            assert(self.spec_streams() =~= s0);
            i = i + 1;
        }
        proof {
            assert forall|k: u32| #[trigger] s0.contains_key(k) implies s0[k].outbound@.len() == 0 by {
                assert(keys@.to_set().contains(k));
                let j = choose|j: int| 0 <= j < keys@.len() && keys@[j] == k;
            }
        }
        None
    }

    /// Closes every channel; their descriptors take their readiness from
    /// them and the control descriptors are told the session closed, where a
    /// table is attached.
    pub fn mark_closed_all(&mut self, table: &mut FdTable)
        requires
            old(self).wf(),
        ensures
            final(self).wf(),
            final(self).table_attached == old(self).table_attached,
            final(self).ctl_fds == old(self).ctl_fds,
            final(self).session_closed == old(self).session_closed,
            final(self).generation == old(self).generation,
            final(self).spec_streams() == closed_channels(old(self).spec_streams()),
            final(table).spec_next_fd() == old(table).spec_next_fd(),
            closed_all_table(*old(self), old(table).spec_entries(), final(table).spec_entries()),
    {
        let keys = stream_map_keys(&self.streams);
        let ghost s0 = self.spec_streams();
        let ghost chans = closed_channels(s0);
        let ghost m0 = table.spec_entries();
        let ghost mut ts: Seq<Map<i32, FdEntry>> = seq![m0];
        let mut i: usize = 0;
        while i < keys.len()
            invariant
                0 <= i <= keys@.len(),
                keys@.to_set() == s0.dom(),
                keys@.no_duplicates(),
                s0 == old(self).spec_streams(),
                chans == closed_channels(s0),
                old(self).wf(),
                self.wf(),
                self.spec_streams().dom() == s0.dom(),
                forall|k: u32| #[trigger] s0.contains_key(k) ==> self.spec_streams()[k] == (if keys@.take(i as int).contains(k) {
                    chans[k]
                } else {
                    s0[k]
                }),
                self.table_attached == old(self).table_attached,
                self.ctl_fds == old(self).ctl_fds,
                self.session_closed == old(self).session_closed,
                self.generation == old(self).generation,
                table.spec_next_fd() == old(table).spec_next_fd(),
                m0 == old(table).spec_entries(),
                self.table_attached ==> channels_chain(ts, keys@.take(i as int), chans) && ts[0] == m0 && ts.last() == table.spec_entries(),
                !self.table_attached ==> table.spec_entries() == m0,
            decreases keys@.len() - i,
        {
            let sid = keys[i];
            proof {
                assert(keys@.to_set().contains(sid));
                assert(!keys@.take(i as int).contains(sid)) by {
                    if keys@.take(i as int).contains(sid) {
                        let j = choose|j: int| 0 <= j < i && keys@.take(i as int)[j] == sid;
                        assert(keys@[j] == keys@[i as int]);
                    }
                }
            }
            let ghost mi = table.spec_entries();
            let mut ch = self.take_channel(sid);
            ch.conn_state = UserStreamConnState::Closed;
            assert(ch == chans[sid]);
            if self.table_attached {
                recompute_and_notify_attached_fds(table, &ch);
            }
            stream_map_insert(&mut self.streams, sid, ch);
            proof {
                let kt = keys@.take(i + 1);
                assert(kt =~= keys@.take(i as int).push(sid));
                assert forall|k: u32| #[trigger] s0.contains_key(k) implies self.spec_streams()[k] == (if kt.contains(k) {
                    chans[k]
                } else {
                    s0[k]
                }) by {
                    if k != sid {
                        assert(kt.contains(k) == keys@.take(i as int).contains(k)) by {
                            if kt.contains(k) {
                                let j = choose|j: int| 0 <= j < kt.len() && kt[j] == k;
                                assert(keys@.take(i as int)[j] == k);
                            }
                        }
                    } else {
                        assert(kt[i as int] == sid);
                    }
                }
                assert(self.spec_streams().dom() =~= s0.dom());
                if self.table_attached {
                    let ts0 = ts;
                    ts = ts.push(table.spec_entries());
                    assert forall|j: int| 0 <= j < kt.len() implies #[trigger] synced(ts[j], ts[j + 1], chans[kt[j]].attached_fds@, chans[kt[j]]) by {
                        if j < i {
                            assert(kt[j] == keys@.take(i as int)[j]);
                            assert(ts[j] == ts0[j]);
                            assert(ts[j + 1] == ts0[j + 1]);
                        } else {
                            assert(kt[j] == sid);
                            assert(ts[j] == mi);
                        }
                    }
                }
            }
            i = i + 1;
        }
        let ghost mc = table.spec_entries();
        if self.table_attached {
            let ev = encode_ctl_event(0, CTL_EVENT_SESSION_CLOSED);
            notify_ctl_fds(table, &self.ctl_fds, ev);
        }
        proof {
            assert(keys@.take(keys@.len() as int) =~= keys@);
            assert(self.spec_streams() =~= chans) by {
                assert forall|k: u32| #[trigger] s0.contains_key(k) implies keys@.contains(k) by {
                    assert(keys@.to_set().contains(k));
                }
            }
        }
    }
}

/// Hub `h2` and table `m2` follow from `h1` and `m1` when stream
/// `stream_id` connects: its channel (a fresh one if it had none) is
/// connected, its descriptors take their readiness from it and the control
/// descriptors are told, where a table is attached.
pub open spec fn connected_rel(h1: UserStreamHub, m1: Map<i32, FdEntry>, stream_id: u32, h2: UserStreamHub, m2: Map<i32, FdEntry>) -> bool {
    let c1 = h2.spec_streams()[stream_id];
    &&& h2.table_attached == h1.table_attached
    &&& h2.ctl_fds == h1.ctl_fds
    &&& h2.session_closed == h1.session_closed
    &&& h2.generation == h1.generation
    &&& h2.spec_streams().dom() == h1.spec_streams().dom().insert(stream_id)
    &&& forall|k: u32| k != stream_id && #[trigger] h1.spec_streams().contains_key(k) ==> h2.spec_streams()[k] == h1.spec_streams()[k]
    &&& c1.conn_state == UserStreamConnState::Connected
    &&& h1.spec_streams().contains_key(stream_id) ==> c1 == (UserStreamChannel {
        conn_state: UserStreamConnState::Connected,
        ..h1.spec_streams()[stream_id]
    })
    &&& !h1.spec_streams().contains_key(stream_id) ==> fresh_channel(c1, stream_id, UserStreamConnState::Connected)
    &&& if h1.table_attached {
        exists|mid: Map<i32, FdEntry>| #[trigger] synced(m1, mid, c1.attached_fds@, c1) && ctl_notified(
            mid,
            m2,
            h1.ctl_fds@,
            ctl_event_bytes(stream_id, CTL_EVENT_STREAM_CONNECTED),
        )
    } else {
        m2 == m1
    }
}

/// Hub `h2` and table `m2` follow from `h1` and `m1` when inbound frame
/// `frame` arrives on stream `stream_id` with result `r`.
pub open spec fn inbound_rel(h1: UserStreamHub, m1: Map<i32, FdEntry>, stream_id: u32, frame: Seq<u8>, h2: UserStreamHub, m2: Map<i32, FdEntry>, r: i32) -> bool {
    let c1 = h2.spec_streams()[stream_id];
    &&& h2.table_attached == h1.table_attached
    &&& h2.ctl_fds == h1.ctl_fds
    &&& h2.session_closed == h1.session_closed
    &&& h2.generation == h1.generation
    &&& h2.spec_streams().dom() == h1.spec_streams().dom().insert(stream_id)
    &&& forall|k: u32| k != stream_id && #[trigger] h1.spec_streams().contains_key(k) ==> h2.spec_streams()[k] == h1.spec_streams()[k]
    &&& inbound_pushed(h1.spec_streams().contains_key(stream_id), h1.spec_streams()[stream_id], stream_id, frame, c1, r)
    &&& if h1.table_attached {
        synced(m1, m2, c1.attached_fds@, c1)
    } else {
        m2 == m1
    }
}

/// Hub `h2` and table `m2` follow from `h1` and `m1` when the first
/// outbound frame of some stream is taken (`r`), or none is left.
pub open spec fn outbound_rel(h1: UserStreamHub, m1: Map<i32, FdEntry>, h2: UserStreamHub, m2: Map<i32, FdEntry>, r: Option<(u32, Vec<u8>)>) -> bool {
    &&& h2.table_attached == h1.table_attached
    &&& h2.ctl_fds == h1.ctl_fds
    &&& h2.session_closed == h1.session_closed
    &&& h2.generation == h1.generation
    &&& match r {
        None => {
            &&& forall|k: u32| #[trigger] h1.spec_streams().contains_key(k) ==> h1.spec_streams()[k].outbound@.len() == 0
            &&& h2.spec_streams() == h1.spec_streams()
            &&& m2 == m1
        },
        Some((sid, f)) => {
            let c0 = h1.spec_streams()[sid];
            let c1 = h2.spec_streams()[sid];
            &&& h1.spec_streams().contains_key(sid)
            &&& c0.outbound@.len() > 0
            &&& f@ == c0.outbound@[0]@
            &&& outbound_popped(c0, c1)
            &&& h2.spec_streams() == h1.spec_streams().insert(sid, c1)
            &&& if h1.table_attached {
                synced(m1, m2, c1.attached_fds@, c1)
            } else {
                m2 == m1
            }
        },
    }
}

/// Channel `c` closed.
pub open spec fn closed_channel(c: UserStreamChannel) -> UserStreamChannel {
    UserStreamChannel { conn_state: UserStreamConnState::Closed, ..c }
}

/// Every channel of `s` closed.
pub open spec fn closed_channels(s: Map<u32, UserStreamChannel>) -> Map<u32, UserStreamChannel> {
    Map::new(|k: u32| s.contains_key(k), |k: u32| closed_channel(s[k]))
}

/// The tables `ts` are the stages of the channels `ks` of `chans`, in
/// order, passing their readiness to their descriptors.
pub open spec fn channels_chain(ts: Seq<Map<i32, FdEntry>>, ks: Seq<u32>, chans: Map<u32, UserStreamChannel>) -> bool {
    &&& ts.len() == ks.len() + 1
    &&& forall|i: int| 0 <= i < ks.len() ==> #[trigger] synced(ts[i], ts[i + 1], chans[ks[i]].attached_fds@, chans[ks[i]])
}

/// Table `m2` follows from `m1` when every channel of hub `h` closes: each
/// channel's descriptors take their readiness from the closed channel, in
/// some order, then the control descriptors are told the session closed,
/// where a table is attached.
pub open spec fn closed_all_table(h: UserStreamHub, m1: Map<i32, FdEntry>, m2: Map<i32, FdEntry>) -> bool {
    if h.table_attached {
        let chans = closed_channels(h.spec_streams());
        exists|ks: Seq<u32>, ts: Seq<Map<i32, FdEntry>>|
            ks.to_set() == h.spec_streams().dom() && ks.no_duplicates() && #[trigger] channels_chain(ts, ks, chans) && ts[0] == m1
                && ctl_notified(ts.last(), m2, h.ctl_fds@, ctl_event_bytes(0, CTL_EVENT_SESSION_CLOSED))
    } else {
        m2 == m1
    }
}

/// Channel `c1` is `c0` (or a fresh channel for `stream_id` when `present`
/// is false) after inbound frame `frame` arrived, with result `r`.
pub open spec fn inbound_pushed(
    present: bool,
    c_old: UserStreamChannel,
    stream_id: u32,
    frame: Seq<u8>,
    c1: UserStreamChannel,
    r: i32,
) -> bool {
    &&& c1.stream_id == stream_id
    &&& c1.max_frame_bytes == (if present { c_old.max_frame_bytes } else { 262144usize })
    &&& c1.max_inbound_bytes == (if present { c_old.max_inbound_bytes } else { 8388608usize })
    &&& c1.max_outbound_bytes == (if present { c_old.max_outbound_bytes } else { 8388608usize })
    &&& c1.outbound@ == (if present { c_old.outbound@ } else { Seq::empty() })
    &&& c1.outbound_bytes == (if present { c_old.outbound_bytes } else { 0 })
    &&& c1.attached_fds@ == (if present { c_old.attached_fds@ } else { Set::empty() })
    &&& {
        let inb = if present { c_old.inbound@ } else { Seq::empty() };
        let inb_bytes: usize = if present { c_old.inbound_bytes } else { 0 };
        let state = if present { c_old.conn_state } else { UserStreamConnState::Init };
        let err = if present { opt_text(c_old.last_error) } else { None };
        if frame.len() > c1.max_frame_bytes {
            &&& r == -SPEAR_EINVAL
            &&& c1.conn_state == UserStreamConnState::Error
            &&& opt_text(c1.last_error) == Some("frame_too_large"@)
            &&& c1.inbound@ == inb && c1.inbound_bytes == inb_bytes
        } else if sat_add(inb_bytes, frame.len() as int) > c1.max_inbound_bytes {
            &&& r == -SPEAR_ENOSPC
            &&& c1.conn_state == UserStreamConnState::Error
            &&& opt_text(c1.last_error) == Some("inbound_queue_full"@)
            &&& c1.inbound@ == inb && c1.inbound_bytes == inb_bytes
        } else {
            &&& r == 0
            &&& c1.conn_state == state
            &&& opt_text(c1.last_error) == err
            &&& c1.inbound@.len() == inb.len() + 1
            &&& c1.inbound@.subrange(0, inb.len() as int) == inb
            &&& c1.inbound@.last()@ == frame
            &&& c1.inbound_bytes == sat_add(inb_bytes, frame.len() as int)
        }
    }
}

/// Channel `c1` is `c0` with its first outbound frame taken.
pub open spec fn outbound_popped(c0: UserStreamChannel, c1: UserStreamChannel) -> bool {
    &&& c1.outbound@ == c0.outbound@.drop_first()
    &&& c1.outbound_bytes == (if c0.outbound_bytes >= c0.outbound@[0]@.len() {
        c0.outbound_bytes - c0.outbound@[0]@.len()
    } else {
        0
    })
    &&& c1 == (UserStreamChannel { outbound: c1.outbound, outbound_bytes: c1.outbound_bytes, ..c0 })
}

/// The user stream hubs: those of open sessions by execution id, and the
/// hubs of closed sessions, kept for the descriptors that still use their
/// channels. Each hub has a generation number of its own; a descriptor
/// names the generation of the hub it was opened on.
pub struct UserStreamHubs {
    pub hubs: DashMap<String, UserStreamHub>,
    pub retired: Vec<UserStreamHub>,
    pub next_generation: u64,
}

/// `b` keeps the closed sessions' hubs and the generation counter of `a`.
pub open spec fn same_retired(a: UserStreamHubs, b: UserStreamHubs) -> bool {
    &&& b.retired@ == a.retired@
    &&& b.next_generation == a.next_generation
}

/// Whether `h` is a hub as [`UserStreamHub::new`] makes it.
pub open spec fn fresh_hub(h: UserStreamHub) -> bool {
    &&& h.spec_streams() == Map::<u32, UserStreamChannel>::empty()
    &&& !h.table_attached
    &&& h.ctl_fds@ == Set::<i32>::empty()
    &&& !h.session_closed
}

impl UserStreamHubs {
    /// The hubs by execution id.
    pub open spec fn spec_hubs(&self) -> Map<Seq<char>, UserStreamHub> {
        hub_map_contents(self.hubs)
    }

    /// Every hub is well formed.
    pub open spec fn wf(&self) -> bool {
        &&& forall|k: Seq<char>| #[trigger] self.spec_hubs().contains_key(k) ==> self.spec_hubs()[k].wf()
        &&& forall|i: int| 0 <= i < self.retired@.len() ==> (#[trigger] self.retired@[i]).wf()
    }

    /// No hubs.
    pub fn new() -> (r: Self)
        ensures
            r.wf(),
            r.spec_hubs() == Map::<Seq<char>, UserStreamHub>::empty(),
            r.retired@.len() == 0,
            r.next_generation == 1,
    {
        let r = UserStreamHubs { hubs: hub_map_new(), retired: Vec::new(), next_generation: 1 };
        assert(r.spec_hubs() =~= Map::<Seq<char>, UserStreamHub>::empty());
        r
    }

    /// Whether execution `execution_id` has a hub whose session is open.
    pub open spec fn has_live_hub(&self, execution_id: Seq<char>) -> bool {
        self.spec_hubs().contains_key(execution_id) && !self.spec_hubs()[execution_id].session_closed
    }

    /// Takes the hub of `execution_id` out, where its session is open.
    pub(crate) fn take_live(&mut self, execution_id: &str) -> (r: Option<UserStreamHub>)
        requires
            old(self).wf(),
        ensures
            final(self).wf(),
            same_retired(*old(self), *final(self)),
            match r {
                Some(h) => old(self).has_live_hub(execution_id@) && h == old(self).spec_hubs()[execution_id@]
                    && final(self).spec_hubs() == old(self).spec_hubs().remove(execution_id@) && h.wf(),
                None => !old(self).has_live_hub(execution_id@) && final(self).spec_hubs() == old(self).spec_hubs(),
            },
    {
        let removed = hub_map_remove(&mut self.hubs, execution_id);
        proof {
            assert forall|k: Seq<char>| #[trigger] self.spec_hubs().contains_key(k) implies self.spec_hubs()[k].wf() by {
                assert(old(self).spec_hubs().contains_key(k));
            }
        }
        match removed {
            Some(h) => {
                if h.session_closed {
                    hub_map_insert(&mut self.hubs, String::from_str(execution_id), h);
                    assert(self.spec_hubs() =~= old(self).spec_hubs());
                    None
                } else {
                    Some(h)
                }
            },
            None => None,
        }
    }

    /// Takes the hub of `execution_id` out: its own while its session is
    /// open, a fresh one otherwise.
    pub(crate) fn take_or_create(&mut self, execution_id: &str) -> (r: UserStreamHub)
        requires
            old(self).wf(),
        ensures
            final(self).wf(),
            final(self).spec_hubs() == old(self).spec_hubs().remove(execution_id@),
            final(self).retired@ == old(self).retired@,
            r.wf(),
            old(self).has_live_hub(execution_id@) ==> r == old(self).spec_hubs()[execution_id@]
                && final(self).next_generation == old(self).next_generation,
            !old(self).has_live_hub(execution_id@) ==> fresh_hub(r) && r.generation == old(self).next_generation
                && final(self).next_generation == old(self).next_generation.wrapping_add(1),
    {
        let removed = hub_map_remove(&mut self.hubs, execution_id);
        proof {
            assert forall|k: Seq<char>| #[trigger] self.spec_hubs().contains_key(k) implies self.spec_hubs()[k].wf() by {
                assert(old(self).spec_hubs().contains_key(k));
            }
        }
        let r = match removed {
            Some(h) => {
                if h.session_closed {
                    self.fresh_hub()
                } else {
                    h
                }
            },
            None => self.fresh_hub(),
        };
        proof {
            assert forall|k: Seq<char>| #[trigger] self.spec_hubs().contains_key(k) implies self.spec_hubs()[k].wf() by {
                assert(old(self).spec_hubs().contains_key(k));
            }
            assert forall|i: int| 0 <= i < self.retired@.len() implies (#[trigger] self.retired@[i]).wf() by {
                assert(self.retired@[i] == old(self).retired@[i]);
            }
        }
        r
    }

    /// A fresh hub with the next generation number.
    fn fresh_hub(&mut self) -> (r: UserStreamHub)
        ensures
            fresh_hub(r),
            r.wf(),
            r.generation == old(self).next_generation,
            final(self).next_generation == old(self).next_generation.wrapping_add(1),
            final(self).retired == old(self).retired,
            final(self).hubs == old(self).hubs,
    {
        let mut h = UserStreamHub::new();
        h.generation = self.next_generation;
        self.next_generation = self.next_generation.wrapping_add(1);
        h
    }

    /// Files hub `h` under `execution_id`.
    pub(crate) fn put(&mut self, execution_id: &str, h: UserStreamHub)
        requires
            old(self).wf(),
            h.wf(),
        ensures
            final(self).wf(),
            final(self).spec_hubs() == old(self).spec_hubs().insert(execution_id@, h),
            same_retired(*old(self), *final(self)),
    {
        hub_map_insert(&mut self.hubs, String::from_str(execution_id), h);
        proof {
            assert forall|k: Seq<char>| #[trigger] self.spec_hubs().contains_key(k) implies self.spec_hubs()[k].wf() by {
                if k != execution_id@ {
                    assert(old(self).spec_hubs().contains_key(k));
                }
            }
            assert forall|i: int| 0 <= i < self.retired@.len() implies (#[trigger] self.retired@[i]).wf() by {
                assert(self.retired@[i] == old(self).retired@[i]);
            }
        }
    }
}

/// The WebSocket session of `execution_id` closed: every channel of its hub
/// closes (see [`UserStreamHub::mark_closed_all`]), and the hub leaves the
/// open sessions, so the execution has no session until a new one opens; it
/// is kept among the closed sessions' hubs for the descriptors opened on
/// it. Nothing happens without an open session.
pub fn map_ws_close_to_channels(hubs: &mut UserStreamHubs, table: &mut FdTable, execution_id: &str)
    requires
        old(hubs).wf(),
    ensures
        final(hubs).wf(),
        final(hubs).next_generation == old(hubs).next_generation,
        final(table).spec_next_fd() == old(table).spec_next_fd(),
        ({
            let k = execution_id@;
            if old(hubs).has_live_hub(k) {
                let h0 = old(hubs).spec_hubs()[k];
                let h1 = final(hubs).retired@.last();
                &&& final(hubs).spec_hubs() == old(hubs).spec_hubs().remove(k)
                &&& final(hubs).retired@.len() == old(hubs).retired@.len() + 1
                &&& final(hubs).retired@.drop_last() == old(hubs).retired@
                &&& h1.session_closed
                &&& h1.generation == h0.generation
                &&& h1.table_attached == h0.table_attached
                &&& h1.ctl_fds == h0.ctl_fds
                &&& h1.spec_streams() == closed_channels(h0.spec_streams())
                &&& closed_all_table(h0, old(table).spec_entries(), final(table).spec_entries())
            } else {
                &&& final(hubs).spec_hubs() == old(hubs).spec_hubs()
                &&& final(hubs).retired@ == old(hubs).retired@
                &&& final(table).spec_entries() == old(table).spec_entries()
            }
        }),
{
    match hubs.take_live(execution_id) {
        Some(mut h) => {
            h.mark_closed_all(table);
            h.session_closed = true;
            let ghost r0 = hubs.retired@;
            hubs.retired.push(h);
            proof {
                assert(hubs.retired@.drop_last() =~= r0);
                assert forall|i: int| 0 <= i < hubs.retired@.len() implies (#[trigger] hubs.retired@[i]).wf() by {
                    if i < r0.len() {
                        assert(hubs.retired@[i] == r0[i]);
                    }
                }
            }
        },
        None => {},
    }
}

/// A frame from the WebSocket peer of `execution_id`. `header` is the
/// stream id and message type read from the frame's header, or the error
/// reading it gave, which is returned. Without an open session the result
/// is `-ENOTCONN`; otherwise the frame's stream is marked connected (see
/// [`UserStreamHub::mark_connected`]) and the frame queued on it (see
/// [`UserStreamHub::push_inbound_frame`]), whose result is returned.
pub fn ws_push_frame(
    hubs: &mut UserStreamHubs,
    table: &mut FdTable,
    execution_id: &str,
    header: Result<(u32, u16), i32>,
    frame: Vec<u8>,
) -> (r: i32)
    requires
        old(hubs).wf(),
    ensures
        final(hubs).wf(),
        same_retired(*old(hubs), *final(hubs)),
        final(table).spec_next_fd() == old(table).spec_next_fd(),
        ({
            let k = execution_id@;
            match header {
                Err(e) => r == e && final(hubs).spec_hubs() == old(hubs).spec_hubs() && final(table).spec_entries()
                    == old(table).spec_entries(),
                Ok((sid, _)) => if !old(hubs).has_live_hub(k) {
                    &&& r == -SPEAR_ENOTCONN
                    &&& final(hubs).spec_hubs() == old(hubs).spec_hubs()
                    &&& final(table).spec_entries() == old(table).spec_entries()
                } else {
                    &&& final(hubs).spec_hubs().dom() == old(hubs).spec_hubs().dom()
                    &&& forall|j: Seq<char>| j != k && #[trigger] old(hubs).spec_hubs().contains_key(j)
                        ==> final(hubs).spec_hubs()[j] == old(hubs).spec_hubs()[j]
                    &&& exists|h_mid: UserStreamHub, m_mid: Map<i32, FdEntry>|
                        #[trigger] connected_rel(old(hubs).spec_hubs()[k], old(table).spec_entries(), sid, h_mid, m_mid)
                            && inbound_rel(h_mid, m_mid, sid, frame@, final(hubs).spec_hubs()[k], final(table).spec_entries(), r)
                },
            }
        }),
{
    let (stream_id, _msg_type) = match header {
        Ok(v) => v,
        Err(e) => { return e; },
    };
    let mut h = match hubs.take_live(execution_id) {
        Some(h) => h,
        None => { return -SPEAR_ENOTCONN; },
    };
    h.mark_connected(table, stream_id);
    let ghost h_mid = h;
    let ghost m_mid = table.spec_entries();
    let rc = h.push_inbound_frame(table, stream_id, frame);
    hubs.put(execution_id, h);
    assert(hubs.spec_hubs().dom() =~= old(hubs).spec_hubs().dom());
    rc
}

/// The next outbound frame for the WebSocket peer of `execution_id`, from
/// some stream that has one (see [`UserStreamHub::pop_outbound_frame_any`]);
/// `None` without an open session or without outbound frames.
pub fn ws_pop_any_outbound(hubs: &mut UserStreamHubs, table: &mut FdTable, execution_id: &str) -> (r: Option<Vec<u8>>)
    requires
        old(hubs).wf(),
    ensures
        final(hubs).wf(),
        same_retired(*old(hubs), *final(hubs)),
        final(table).spec_next_fd() == old(table).spec_next_fd(),
        ({
            let k = execution_id@;
            if !old(hubs).has_live_hub(k) {
                &&& r is None
                &&& final(hubs).spec_hubs() == old(hubs).spec_hubs()
                &&& final(table).spec_entries() == old(table).spec_entries()
            } else {
                &&& final(hubs).spec_hubs().dom() == old(hubs).spec_hubs().dom()
                &&& forall|j: Seq<char>| j != k && #[trigger] old(hubs).spec_hubs().contains_key(j)
                    ==> final(hubs).spec_hubs()[j] == old(hubs).spec_hubs()[j]
                &&& exists|p: Option<(u32, Vec<u8>)>| #[trigger] outbound_rel(old(hubs).spec_hubs()[k], old(table).spec_entries(), final(hubs).spec_hubs()[k], final(table).spec_entries(), p)
                    && match p {
                        Some((_, f)) => r == Some(f),
                        None => r is None,
                    }
            }
        }),
{
    let mut h = match hubs.take_live(execution_id) {
        Some(h) => h,
        None => { return None; },
    };
    let p = h.pop_outbound_frame_any(table);
    let ghost pg = p;
    hubs.put(execution_id, h);
    assert(hubs.spec_hubs().dom() =~= old(hubs).spec_hubs().dom());
    match p {
        Some((_, f)) => Some(f),
        None => None,
    }
}

} // verus!
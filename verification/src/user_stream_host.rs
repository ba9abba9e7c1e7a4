//! The guest side of user streams: opening stream and control descriptors,
//! reading and writing frames, and closing.
use vstd::prelude::*;
use std::collections::{HashSet, VecDeque};
use crate::errno::{SPEAR_EAGAIN, SPEAR_EBADF, SPEAR_EINVAL, SPEAR_ENOTCONN, SPEAR_EPIPE};
use crate::poll::{FdFlags, FdKind, PollEvents};
use crate::types::{FdEntry, FdInner, UserStreamChannel, UserStreamConnState, UserStreamCtlState, UserStreamDirection, UserStreamState, lemma_frames_bytes_push, lemma_frames_bytes_drop_first, direction_of, bytes_to_vec};
use crate::fd_table::{FdTable, table_after_store, lemma_store_back, FD_CTL_GET_METRICS};
use crate::fd_ctl::{FdCtlReply, fd_ctl_spec};
use crate::json::JsonValue;
use crate::host::DefaultHostApi;
use crate::rtasr::sat_add;
use crate::user_stream::{UserStreamHub, UserStreamHubs, fresh_fields, user_stream_mask, compute_user_stream_poll_mask, same_retired};
use crate::tables::{stream_map_insert, stream_map_remove, stream_map_contains, hub_map_insert, hub_map_remove};

verus! {

/// The execution the running guest belongs to: the host API's own, else
/// `current`.
pub open spec fn running_execution(own: Option<String>, current: Option<&str>) -> Option<Seq<char>> {
    match own {
        Some(x) => Some(x@),
        None => match current {
            Some(c) => Some(c@),
            None => None,
        },
    }
}

/// Hub `h2` is `h1` with channel `sid` replaced by `c`.
pub open spec fn hub_with_channel(h1: UserStreamHub, h2: UserStreamHub, sid: u32, c: UserStreamChannel) -> bool {
    &&& h2.spec_streams() == h1.spec_streams().insert(sid, c)
    &&& h2.table_attached == h1.table_attached
    &&& h2.ctl_fds@ == h1.ctl_fds@
    &&& h2.session_closed == h1.session_closed
    &&& h2.generation == h1.generation
}

/// The index of the first closed session's hub of generation `g`.
pub open spec fn retired_index(r: Seq<UserStreamHub>, g: u64) -> Option<int>
    decreases r.len(),
{
    if r.len() == 0 {
        None
    } else if r[0].generation == g {
        Some(0)
    } else {
        match retired_index(r.drop_first(), g) {
            Some(i) => Some(i + 1),
            None => None,
        }
    }
}

proof fn lemma_retired_index(r: Seq<UserStreamHub>, g: u64)
    ensures
        retired_index(r, g) matches Some(i) ==> 0 <= i < r.len() && r[i].generation == g && forall|k: int|
            0 <= k < i ==> (#[trigger] r[k]).generation != g,
        retired_index(r, g) is None ==> forall|j: int| 0 <= j < r.len() ==> (#[trigger] r[j]).generation != g,
    decreases r.len(),
{
    if r.len() > 0 {
        lemma_retired_index(r.drop_first(), g);
        assert forall|j: int| 1 <= j < r.len() implies r[j] == r.drop_first()[j - 1] by {}
    }
}

proof fn lemma_retired_index_first(r: Seq<UserStreamHub>, g: u64, j: int)
    requires
        0 <= j < r.len(),
        r[j].generation == g,
        forall|k: int| 0 <= k < j ==> (#[trigger] r[k]).generation != g,
    ensures
        retired_index(r, g) == Some(j),
    decreases j,
{
    if j > 0 {
        assert(r[0].generation != g);
        assert forall|k: int| 0 <= k < j - 1 implies (#[trigger] r.drop_first()[k]).generation != g by {
            assert(r.drop_first()[k] == r[k + 1]);
        }
        lemma_retired_index_first(r.drop_first(), g, j - 1);
    }
}

/// Whether descriptor state `st` is served by the open session of its
/// execution: the execution has one and it is the hub it was opened on.
pub open spec fn served_live(hs: UserStreamHubs, st: UserStreamState) -> bool {
    hs.spec_hubs().contains_key(st.execution_id@) && hs.spec_hubs()[st.execution_id@].generation == st.hub_generation
}

/// The hub descriptor state `st` was opened on: the open session's hub of
/// its execution where that is the one, else the closed session's hub of
/// its generation, if it is still kept.
pub open spec fn descriptor_hub(hs: UserStreamHubs, st: UserStreamState) -> Option<UserStreamHub> {
    if served_live(hs, st) {
        Some(hs.spec_hubs()[st.execution_id@])
    } else {
        match retired_index(hs.retired@, st.hub_generation) {
            Some(i) => Some(hs.retired@[i]),
            None => None,
        }
    }
}

/// The channel of user stream state `st`: its stream's channel in the hub
/// it was opened on, where both exist.
pub open spec fn channel_of(hs: UserStreamHubs, st: UserStreamState) -> Option<UserStreamChannel> {
    match descriptor_hub(hs, st) {
        Some(h) => if h.spec_streams().contains_key(st.stream_id) {
            Some(h.spec_streams()[st.stream_id])
        } else {
            None
        },
        None => None,
    }
}

/// `b` has the hubs of `a`.
pub open spec fn same_hubs(a: UserStreamHubs, b: UserStreamHubs) -> bool {
    &&& b.spec_hubs() == a.spec_hubs()
    &&& b.retired@ == a.retired@
    &&& b.next_generation == a.next_generation
}

/// The user stream state of entry `e`.
pub open spec fn us_state(e: FdEntry) -> UserStreamState {
    match e.inner {
        FdInner::UserStream(b) => *b,
        _ => arbitrary(),
    }
}

/// The hubs after channel `c` of state `st` was stored back in the hub it
/// was opened on; nothing else changes.
pub open spec fn hubs_with_channel(h1: UserStreamHubs, h2: UserStreamHubs, st: UserStreamState, c: UserStreamChannel) -> bool {
    &&& h2.next_generation == h1.next_generation
    &&& if served_live(h1, st) {
        &&& h2.retired@ == h1.retired@
        &&& h2.spec_hubs().dom() == h1.spec_hubs().dom()
        &&& forall|j: Seq<char>| j != st.execution_id@ && #[trigger] h1.spec_hubs().contains_key(j) ==> h2.spec_hubs()[j]
            == h1.spec_hubs()[j]
        &&& hub_with_channel(h1.spec_hubs()[st.execution_id@], h2.spec_hubs()[st.execution_id@], st.stream_id, c)
    } else {
        match retired_index(h1.retired@, st.hub_generation) {
            Some(i) => {
                &&& h2.spec_hubs() == h1.spec_hubs()
                &&& h2.retired@.len() == h1.retired@.len()
                &&& forall|j: int| 0 <= j < h1.retired@.len() && j != i ==> #[trigger] h2.retired@[j] == h1.retired@[j]
                &&& hub_with_channel(h1.retired@[i], h2.retired@[i], st.stream_id, c)
            },
            None => false,
        }
    }
}

/// Channel `c1` is `c0` with its first inbound frame taken.
pub open spec fn inbound_popped(c0: UserStreamChannel, c1: UserStreamChannel) -> bool {
    &&& c1.inbound@ == c0.inbound@.drop_first()
    &&& c1.inbound_bytes == (if c0.inbound_bytes >= c0.inbound@[0]@.len() {
        c0.inbound_bytes - c0.inbound@[0]@.len()
    } else {
        0
    })
    &&& c1 == (UserStreamChannel { inbound: c1.inbound, inbound_bytes: c1.inbound_bytes, ..c0 })
}

/// Channel `c1` is `c0` with outbound frame `b` queued.
pub open spec fn outbound_pushed(c0: UserStreamChannel, b: Seq<u8>, c1: UserStreamChannel) -> bool {
    &&& c1.outbound@.len() == c0.outbound@.len() + 1
    &&& c1.outbound@.subrange(0, c0.outbound@.len() as int) == c0.outbound@
    &&& c1.outbound@.last()@ == b
    &&& c1.outbound_bytes == sat_add(c0.outbound_bytes, b.len() as int)
    &&& c1 == (UserStreamChannel { outbound: c1.outbound, outbound_bytes: c1.outbound_bytes, ..c0 })
}

/// The result of writing `b` to a channel in `c`: `-ENOTCONN` before it
/// connects, `-EPIPE` once closed or failed, `-EINVAL` for an oversized
/// frame, `-EAGAIN` when the outbound queue is full, else 0.
pub open spec fn write_result(c: UserStreamChannel, b: Seq<u8>) -> i32 {
    match c.conn_state {
        UserStreamConnState::Init => -SPEAR_ENOTCONN as i32,
        UserStreamConnState::Closed => -SPEAR_EPIPE as i32,
        UserStreamConnState::Error => -SPEAR_EPIPE as i32,
        UserStreamConnState::Connected => if b.len() > c.max_frame_bytes {
            -SPEAR_EINVAL as i32
        } else if sat_add(c.outbound_bytes, b.len() as int) > c.max_outbound_bytes {
            -SPEAR_EAGAIN as i32
        } else {
            0
        },
    }
}

/// The table after entry `fd` (entry `e`) took its readiness from `c`.
pub open spec fn entry_synced(m: Map<i32, FdEntry>, fd: i32, e: FdEntry, c: UserStreamChannel) -> Map<i32, FdEntry> {
    table_after_store(m, fd, FdEntry { poll_mask: PollEvents(user_stream_mask(e, c)), ..e }, e.poll_mask.0)
}

/// What taking the channel of `st` out of `h0` left: `h1` without the
/// channel, and the hub `h` it was taken from without it, from the open
/// session (`slot` is `None`) or the closed session's hub at index `slot`.
pub open spec fn channel_taken(
    h0: UserStreamHubs,
    h1: UserStreamHubs,
    st: UserStreamState,
    slot: Option<usize>,
    h: UserStreamHub,
) -> bool {
    let hub = descriptor_hub(h0, st)->0;
    &&& descriptor_hub(h0, st) is Some
    &&& h.spec_streams() == hub.spec_streams().remove(st.stream_id)
    &&& h.table_attached == hub.table_attached
    &&& h.ctl_fds == hub.ctl_fds
    &&& h.session_closed == hub.session_closed
    &&& h.generation == hub.generation
    &&& h1.next_generation == h0.next_generation
    &&& match slot {
        None => served_live(h0, st) && h1.spec_hubs() == h0.spec_hubs().remove(st.execution_id@) && h1.retired@
            == h0.retired@,
        Some(i) => !served_live(h0, st) && retired_index(h0.retired@, st.hub_generation) == Some(i as int)
            && h1.spec_hubs() == h0.spec_hubs() && h1.retired@ == h0.retired@.remove(i as int),
    }
}

/// Takes the channel of `st` out of the hub it was opened on, with the hub.
fn take_channel_of(hubs: &mut UserStreamHubs, st: &UserStreamState) -> (r: Option<(Option<usize>, UserStreamHub, UserStreamChannel)>)
    requires
        old(hubs).wf(),
    ensures
        final(hubs).wf(),
        match r {
            None => channel_of(*old(hubs), *st) is None && same_hubs(*old(hubs), *final(hubs)),
            Some((slot, h, c)) => {
                &&& channel_of(*old(hubs), *st) == Some(c)
                &&& channel_taken(*old(hubs), *final(hubs), *st, slot, h)
                &&& h.wf()
                &&& c.wf()
                &&& c.stream_id == st.stream_id
                &&& slot matches Some(i) ==> i <= final(hubs).retired@.len()
            },
        },
{
    let ghost h0 = *hubs;
    proof {
        lemma_retired_index(h0.retired@, st.hub_generation);
    }
    match hub_map_remove(&mut hubs.hubs, st.execution_id.as_str()) {
        Some(h) => {
            if h.generation == st.hub_generation {
                let mut h = h;
                let ghost hub0 = h;
                if !stream_map_contains(&h.streams, st.stream_id) {
                    hub_map_insert(&mut hubs.hubs, st.execution_id.clone(), h);
                    assert(hubs.spec_hubs() =~= h0.spec_hubs());
                    return None;
                }
                let c = match stream_map_remove(&mut h.streams, st.stream_id) {
                    Some(c) => c,
                    None => { return None; },
                };
                proof {
                    assert(hub0.spec_streams().contains_key(st.stream_id));
                    assert forall|k: Seq<char>| #[trigger] hubs.spec_hubs().contains_key(k) implies hubs.spec_hubs()[k].wf() by {
                        assert(h0.spec_hubs().contains_key(k));
                    }
                    assert forall|k: u32| #[trigger] h.spec_streams().contains_key(k) implies h.spec_streams()[k].wf()
                        && h.spec_streams()[k].stream_id == k by {
                        assert(hub0.spec_streams().contains_key(k));
                    }
                    assert forall|i: int| 0 <= i < hubs.retired@.len() implies (#[trigger] hubs.retired@[i]).wf() by {
                        assert(hubs.retired@[i] == h0.retired@[i]);
                    }
                }
                return Some((None, h, c));
            }
            hub_map_insert(&mut hubs.hubs, st.execution_id.clone(), h);
            assert(hubs.spec_hubs() =~= h0.spec_hubs());
        },
        None => {
            assert(hubs.spec_hubs() =~= h0.spec_hubs());
        },
    }
    assert(!served_live(h0, *st));
    let mut i: usize = 0;
    while i < hubs.retired.len()
        invariant
            0 <= i <= hubs.retired@.len(),
            hubs.retired@ == h0.retired@,
            hubs.spec_hubs() == h0.spec_hubs(),
            hubs.next_generation == h0.next_generation,
            hubs.wf(),
            !served_live(h0, *st),
            h0 == *old(hubs),
            forall|k: int| 0 <= k < i ==> hubs.retired@[k].generation != st.hub_generation,
        decreases hubs.retired@.len() - i,
    {
        if hubs.retired[i].generation == st.hub_generation {
            proof {
                lemma_retired_index_first(h0.retired@, st.hub_generation, i as int);
            }
            let mut h = hubs.retired.remove(i);
            let ghost hub0 = h;
            assert(hub0 == h0.retired@[i as int]);
            if !stream_map_contains(&h.streams, st.stream_id) {
                hubs.retired.insert(i, h);
                assert(hubs.retired@ =~= h0.retired@);
                assert(hubs.spec_hubs() == h0.spec_hubs());
                assert(hubs.next_generation == h0.next_generation);
                assert(descriptor_hub(h0, *st) == Some(hub0));
                assert(channel_of(h0, *st) is None);
                assert forall|j: int| 0 <= j < hubs.retired@.len() implies (#[trigger] hubs.retired@[j]).wf() by {
                    assert(hubs.retired@[j] == h0.retired@[j]);
                }
                return None;
            }
            let c = match stream_map_remove(&mut h.streams, st.stream_id) {
                Some(c) => c,
                None => { return None; },
            };
            proof {
                assert(hub0.wf());
                assert(hub0.spec_streams().contains_key(st.stream_id));
                assert forall|k: u32| #[trigger] h.spec_streams().contains_key(k) implies h.spec_streams()[k].wf()
                    && h.spec_streams()[k].stream_id == k by {
                    assert(hub0.spec_streams().contains_key(k));
                }
                assert forall|j: int| 0 <= j < hubs.retired@.len() implies (#[trigger] hubs.retired@[j]).wf() by {
                    if j < i {
                        assert(hubs.retired@[j] == h0.retired@[j]);
                    } else {
                        assert(hubs.retired@[j] == h0.retired@[j + 1]);
                    }
                }
            }
            assert(descriptor_hub(h0, *st) == Some(hub0));
            assert(channel_of(h0, *st) == Some(c));
            assert(hubs.retired@ =~= h0.retired@.remove(i as int));
            assert(channel_taken(h0, *hubs, *st, Some(i), h));
            assert(c.wf() && c.stream_id == st.stream_id);
            assert(h.wf());
            assert(hubs.wf());
            return Some((Some(i), h, c));
        }
        i = i + 1;
    }
    proof {
        lemma_retired_index(h0.retired@, st.hub_generation);
    }
    None
}

/// Files channel `c` back into hub `h`, and the hub back where it was
/// taken from (see [`channel_taken`]).
fn put_channel(hubs: &mut UserStreamHubs, st: &UserStreamState, slot: Option<usize>, h: UserStreamHub, c: UserStreamChannel)
    requires
        old(hubs).wf(),
        h.wf(),
        c.wf(),
        slot matches Some(i) ==> i <= old(hubs).retired@.len(),
    ensures
        final(hubs).wf(),
        final(hubs).next_generation == old(hubs).next_generation,
        match slot {
            None => {
                &&& final(hubs).retired@ == old(hubs).retired@
                &&& final(hubs).spec_hubs().contains_key(st.execution_id@)
                &&& final(hubs).spec_hubs() == old(hubs).spec_hubs().insert(
                    st.execution_id@,
                    final(hubs).spec_hubs()[st.execution_id@],
                )
                &&& hub_with_channel(h, final(hubs).spec_hubs()[st.execution_id@], c.stream_id, c)
            },
            Some(i) => {
                &&& final(hubs).spec_hubs() == old(hubs).spec_hubs()
                &&& final(hubs).retired@.len() == old(hubs).retired@.len() + 1
                &&& final(hubs).retired@ == old(hubs).retired@.insert(i as int, final(hubs).retired@[i as int])
                &&& hub_with_channel(h, final(hubs).retired@[i as int], c.stream_id, c)
            },
        },
{
    let mut h = h;
    let ghost h0 = h;
    let sid = c.stream_id;
    stream_map_insert(&mut h.streams, sid, c);
    proof {
        assert forall|k: u32| #[trigger] h.spec_streams().contains_key(k) implies h.spec_streams()[k].wf()
            && h.spec_streams()[k].stream_id == k by {
            if k != sid {
                assert(h0.spec_streams().contains_key(k));
            }
        }
    }
    let ghost r0 = hubs.retired@;
    match slot {
        None => {
            hubs.put(st.execution_id.as_str(), h);
        },
        Some(i) => {
            let ghost hn = h;
            hubs.retired.insert(i, h);
            proof {
                assert(hubs.retired@ =~= r0.insert(i as int, hn));
                assert forall|k: Seq<char>| #[trigger] hubs.spec_hubs().contains_key(k) implies hubs.spec_hubs()[k].wf() by {
                    assert(old(hubs).spec_hubs().contains_key(k));
                }
                assert forall|j: int| 0 <= j < hubs.retired@.len() implies (#[trigger] hubs.retired@[j]).wf() by {
                    if j < i {
                        assert(hubs.retired@[j] == r0[j]);
                    } else if j > i {
                        assert(hubs.retired@[j] == r0[j - 1]);
                    }
                }
            }
        },
    }
}

/// Files channel `c` into hub `h` and the hub under `execution_id` among
/// the open sessions.
fn put_live_channel(hubs: &mut UserStreamHubs, execution_id: &String, h: UserStreamHub, c: UserStreamChannel)
    requires
        old(hubs).wf(),
        h.wf(),
        c.wf(),
    ensures
        final(hubs).wf(),
        same_retired(*old(hubs), *final(hubs)),
        final(hubs).spec_hubs().contains_key(execution_id@),
        final(hubs).spec_hubs() == old(hubs).spec_hubs().insert(execution_id@, final(hubs).spec_hubs()[execution_id@]),
        hub_with_channel(h, final(hubs).spec_hubs()[execution_id@], c.stream_id, c),
{
    let mut h = h;
    let ghost h0 = h;
    let sid = c.stream_id;
    stream_map_insert(&mut h.streams, sid, c);
    proof {
        assert forall|k: u32| #[trigger] h.spec_streams().contains_key(k) implies h.spec_streams()[k].wf()
            && h.spec_streams()[k].stream_id == k by {
            if k != sid {
                assert(h0.spec_streams().contains_key(k));
            }
        }
    }
    hubs.put(execution_id.as_str(), h);
}

/// Taking the channel of `st` out and putting `c` back stores `c` in the
/// hub `st` was opened on and changes nothing else.
proof fn lemma_take_put(
    h0: UserStreamHubs,
    h1: UserStreamHubs,
    h2: UserStreamHubs,
    st: UserStreamState,
    slot: Option<usize>,
    h: UserStreamHub,
    c: UserStreamChannel,
)
    requires
        channel_taken(h0, h1, st, slot, h),
        channel_of(h0, st) is Some,
        c.stream_id == st.stream_id,
        h2.next_generation == h1.next_generation,
        match slot {
            None => {
                &&& h2.retired@ == h1.retired@
                &&& h2.spec_hubs().contains_key(st.execution_id@)
                &&& h2.spec_hubs() == h1.spec_hubs().insert(st.execution_id@, h2.spec_hubs()[st.execution_id@])
                &&& hub_with_channel(h, h2.spec_hubs()[st.execution_id@], c.stream_id, c)
            },
            Some(i) => {
                &&& h2.spec_hubs() == h1.spec_hubs()
                &&& h2.retired@.len() == h1.retired@.len() + 1
                &&& h2.retired@ == h1.retired@.insert(i as int, h2.retired@[i as int])
                &&& hub_with_channel(h, h2.retired@[i as int], c.stream_id, c)
            },
        },
    ensures
        hubs_with_channel(h0, h2, st, c),
        channel_of(h2, st) == Some(c),
{
    let hub = descriptor_hub(h0, st)->0;
    assert(hub.spec_streams().remove(st.stream_id).insert(st.stream_id, c) =~= hub.spec_streams().insert(st.stream_id, c));
    match slot {
        None => {
            assert(h2.spec_hubs().dom() =~= h0.spec_hubs().dom());
            assert(served_live(h2, st));
        },
        Some(i) => {
            lemma_take_put_retired(h0, h1, h2, st, i as int);
        },
    }
}

proof fn lemma_take_put_retired(h0: UserStreamHubs, h1: UserStreamHubs, h2: UserStreamHubs, st: UserStreamState, ii: int)
    requires
        !served_live(h0, st),
        retired_index(h0.retired@, st.hub_generation) == Some(ii),
        h1.spec_hubs() == h0.spec_hubs(),
        h1.retired@ == h0.retired@.remove(ii),
        h2.spec_hubs() == h1.spec_hubs(),
        h2.retired@.len() == h1.retired@.len() + 1,
        h2.retired@ == h1.retired@.insert(ii, h2.retired@[ii]),
        h2.retired@[ii].generation == h0.retired@[ii].generation,
    ensures
        h2.retired@.len() == h0.retired@.len(),
        forall|j: int| 0 <= j < h0.retired@.len() && j != ii ==> #[trigger] h2.retired@[j] == h0.retired@[j],
        !served_live(h2, st),
        retired_index(h2.retired@, st.hub_generation) == Some(ii),
{
    lemma_retired_index(h0.retired@, st.hub_generation);
    assert forall|j: int| 0 <= j < h0.retired@.len() && j != ii implies #[trigger] h2.retired@[j] == h0.retired@[j] by {
        if j < ii {
            assert(h2.retired@[j] == h1.retired@[j]);
        } else {
            assert(h2.retired@[j] == h1.retired@[j - 1]);
        }
    }
    assert forall|k: int| 0 <= k < ii implies (#[trigger] h2.retired@[k]).generation != st.hub_generation by {
        assert(h2.retired@[k] == h0.retired@[k]);
    }
    lemma_retired_index_first(h2.retired@, st.hub_generation, ii);
}

/// The outcome of reading user stream descriptor `fd`.
pub open spec fn us_read_spec(
    m: Map<i32, FdEntry>,
    h: UserStreamHubs,
    fd: i32,
    m2: Map<i32, FdEntry>,
    h2: UserStreamHubs,
    r: Result<Vec<u8>, i32>,
) -> bool {
    if !m.contains_key(fd) || m[fd].closed || !(m[fd].inner is UserStream) {
        r matches Err(x) && x == -SPEAR_EBADF && m2 == m && same_hubs(h, h2)
    } else if !us_state(m[fd]).direction.spec_allows_read() {
        r matches Err(x) && x == -SPEAR_EINVAL && m2 == m && same_hubs(h, h2)
    } else {
        match channel_of(h, us_state(m[fd])) {
            None => r matches Err(x) && x == -SPEAR_EAGAIN && m2 == m && same_hubs(h, h2),
            Some(c0) => if c0.inbound@.len() == 0 {
                &&& r matches Err(x) && x == -SPEAR_EAGAIN
                &&& hubs_with_channel(h, h2, us_state(m[fd]), c0)
                &&& m2 == entry_synced(m, fd, m[fd], c0)
            } else {
                exists|c1: UserStreamChannel| {
                    &&& #[trigger] inbound_popped(c0, c1)
                    &&& r matches Ok(p) && p@ == c0.inbound@[0]@
                    &&& hubs_with_channel(h, h2, us_state(m[fd]), c1)
                    &&& m2 == entry_synced(m, fd, m[fd], c1)
                }
            },
        }
    }
}

impl DefaultHostApi {
    /// Reads the next inbound frame of user stream descriptor `fd` (see
    /// [`us_read_spec`]); the descriptor takes its readiness from the
    /// channel afterwards.
    pub fn user_stream_read(&mut self, hubs: &mut UserStreamHubs, fd: i32) -> (r: Result<Vec<u8>, i32>)
        requires
            old(hubs).wf(),
        ensures
            final(hubs).wf(),
            final(self).fd_table.spec_next_fd() == old(self).fd_table.spec_next_fd(),
            us_read_spec(
                old(self).fd_table.spec_entries(),
                *old(hubs),
                fd,
                final(self).fd_table.spec_entries(),
                *final(hubs),
                r,
            ),
    {
        let ghost m = self.fd_table.spec_entries();
        let mut e = match self.fd_table.take(fd) {
            None => {
                assert(self.fd_table.spec_entries() =~= m);
                return Err(-SPEAR_EBADF);
            },
            Some(e) => e,
        };
        let st = match &e.inner {
            FdInner::UserStream(st) => if e.closed { None } else { Some(st) },
            _ => None,
        };
        let ok_read = match st {
            Some(st) => if st.direction.allows_read() { 0 } else { -SPEAR_EINVAL },
            None => -SPEAR_EBADF,
        };
        if ok_read != 0 {
            self.fd_table.put(fd, e);
            assert(self.fd_table.spec_entries() =~= m);
            return Err(ok_read);
        }
        let st = match &e.inner {
            FdInner::UserStream(st) => st,
            _ => { return Err(-SPEAR_EBADF); },
        };
        let ghost hs0 = *hubs;
        let (slot, h, mut c) = match take_channel_of(hubs, st) {
            None => {
                self.fd_table.put(fd, e);
                assert(self.fd_table.spec_entries() =~= m);
                return Err(-SPEAR_EAGAIN);
            },
            Some(hc) => hc,
        };
        let ghost hs1 = *hubs;
        let ghost hh = h;
        let ghost c0 = c;
        let payload = if c.inbound.len() > 0 {
            let p = match c.inbound.pop_front() {
                Some(p) => p,
                None => Vec::new(),
            };
            proof {
                lemma_frames_bytes_drop_first(c0.inbound@);
            }
            assert(c.inbound@ =~= c0.inbound@.drop_first());
            c.inbound_bytes = c.inbound_bytes.saturating_sub(p.len());
            Some(p)
        } else {
            None
        };
        let old_mask = e.poll_mask;
        let ghost e0 = e;
        e.poll_mask = compute_user_stream_poll_mask(&e, &c);
        let ghost c1 = c;
        put_channel(hubs, st, slot, h, c);
        let ghost en = e;
        self.fd_table.store_entry(fd, e, old_mask);
        proof {
            lemma_store_back(m, fd, en, old_mask.0);
            lemma_take_put(hs0, hs1, *hubs, **st, slot, hh, c1);
            if payload is Some {
                assert(inbound_popped(c0, c1));
            }
        }
        match payload {
            Some(p) => Ok(p),
            None => Err(-SPEAR_EAGAIN),
        }
    }
}

/// The outcome of writing frame `b` (header `header`) to user stream
/// descriptor `fd`.
pub open spec fn us_write_spec(
    m: Map<i32, FdEntry>,
    h: UserStreamHubs,
    fd: i32,
    b: Seq<u8>,
    header: Result<(u32, u16), i32>,
    m2: Map<i32, FdEntry>,
    h2: UserStreamHubs,
    r: i32,
) -> bool {
    if !m.contains_key(fd) {
        r == -SPEAR_EBADF && m2 == m && same_hubs(h, h2)
    } else if header is Err {
        r == header->Err_0 && m2 == m && same_hubs(h, h2)
    } else if m[fd].closed || !(m[fd].inner is UserStream) {
        r == -SPEAR_EBADF && m2 == m && same_hubs(h, h2)
    } else if !us_state(m[fd]).direction.spec_allows_write() || us_state(m[fd]).stream_id != header->Ok_0.0 {
        r == -SPEAR_EINVAL && m2 == m && same_hubs(h, h2)
    } else {
        match channel_of(h, us_state(m[fd])) {
            None => r == -SPEAR_EPIPE && m2 == m && same_hubs(h, h2),
            Some(c0) => {
                &&& r == write_result(c0, b)
                &&& if r == 0 {
                    exists|c1: UserStreamChannel| #[trigger] outbound_pushed(c0, b, c1) && hubs_with_channel(
                        h,
                        h2,
                        us_state(m[fd]),
                        c1,
                    ) && m2 == entry_synced(m, fd, m[fd], c1)
                } else {
                    hubs_with_channel(h, h2, us_state(m[fd]), c0) && m2 == entry_synced(m, fd, m[fd], c0)
                }
            },
        }
    }
}

fn write_channel(c: &mut UserStreamChannel, bytes: &[u8]) -> (r: i32)
    requires
        old(c).wf(),
    ensures
        r == write_result(*old(c), bytes@),
        r == 0 ==> outbound_pushed(*old(c), bytes@, *final(c)),
        r != 0 ==> *final(c) == *old(c),
        final(c).wf(),
{
    match c.conn_state {
        UserStreamConnState::Connected => {},
        UserStreamConnState::Init => { return -SPEAR_ENOTCONN; },
        _ => { return -SPEAR_EPIPE; },
    }
    let n = bytes.len();
    if n > c.max_frame_bytes {
        return -SPEAR_EINVAL;
    }
    if c.outbound_bytes.saturating_add(n) > c.max_outbound_bytes {
        return -SPEAR_EAGAIN;
    }
    let v = bytes_to_vec(bytes);
    proof {
        lemma_frames_bytes_push(c.outbound@, v);
    }
    let ghost o0 = c.outbound@;
    c.outbound_bytes = c.outbound_bytes.saturating_add(n);
    c.outbound.push_back(v);
    assert(c.outbound@.subrange(0, o0.len() as int) =~= o0);
    0
}

impl DefaultHostApi {
    /// Writes frame `bytes` to user stream descriptor `fd` (see
    /// [`us_write_spec`]); `header` is what reading the frame's header gave.
    /// The descriptor takes its readiness from the channel afterwards.
    pub fn user_stream_write(
        &mut self,
        hubs: &mut UserStreamHubs,
        fd: i32,
        bytes: &[u8],
        header: Result<(u32, u16), i32>,
    ) -> (r: i32)
        requires
            old(hubs).wf(),
        ensures
            final(hubs).wf(),
            final(self).fd_table.spec_next_fd() == old(self).fd_table.spec_next_fd(),
            us_write_spec(
                old(self).fd_table.spec_entries(),
                *old(hubs),
                fd,
                bytes@,
                header,
                final(self).fd_table.spec_entries(),
                *final(hubs),
                r,
            ),
    {
        let ghost m = self.fd_table.spec_entries();
        let mut e = match self.fd_table.take(fd) {
            None => {
                assert(self.fd_table.spec_entries() =~= m);
                return -SPEAR_EBADF;
            },
            Some(e) => e,
        };
        let frame_sid = match header {
            Ok((sid, _)) => sid,
            Err(x) => {
                self.fd_table.put(fd, e);
                assert(self.fd_table.spec_entries() =~= m);
                return x;
            },
        };
        let chk = match &e.inner {
            FdInner::UserStream(st) => if e.closed {
                -SPEAR_EBADF
            } else if !st.direction.allows_write() || st.stream_id != frame_sid {
                -SPEAR_EINVAL
            } else {
                0
            },
            _ => -SPEAR_EBADF,
        };
        if chk != 0 {
            self.fd_table.put(fd, e);
            assert(self.fd_table.spec_entries() =~= m);
            return chk;
        }
        let st = match &e.inner {
            FdInner::UserStream(st) => st,
            _ => { return -SPEAR_EBADF; },
        };
        let ghost hs0 = *hubs;
        let (slot, h, mut c) = match take_channel_of(hubs, st) {
            None => {
                self.fd_table.put(fd, e);
                assert(self.fd_table.spec_entries() =~= m);
                return -SPEAR_EPIPE;
            },
            Some(hc) => hc,
        };
        let ghost hs1 = *hubs;
        let ghost hh = h;
        let ghost c0 = c;
        let rc = write_channel(&mut c, bytes);
        let old_mask = e.poll_mask;
        e.poll_mask = compute_user_stream_poll_mask(&e, &c);
        let ghost c1 = c;
        put_channel(hubs, st, slot, h, c);
        let ghost en = e;
        self.fd_table.store_entry(fd, e, old_mask);
        proof {
            lemma_store_back(m, fd, en, old_mask.0);
            lemma_take_put(hs0, hs1, *hubs, **st, slot, hh, c1);
        }
        rc
    }

    /// Opens a descriptor on stream `stream_id` of the running execution
    /// (the host API's own, else `current_execution_id`) in direction
    /// `direction` (1 in, 2 out, 3 both). `-ENOTCONN` without an execution,
    /// `-EINVAL` for a negative stream id or an unknown direction. The
    /// execution's hub (a fresh one unless its session is open) gets the
    /// table attached and the stream's channel (a fresh one if it had none)
    /// the new descriptor, whose readiness follows the channel. The
    /// descriptor names the generation of that hub, so it keeps to that
    /// hub's channel after the session closes (see [`channel_of`]).
    pub fn user_stream_open(
        &mut self,
        hubs: &mut UserStreamHubs,
        current_execution_id: Option<&str>,
        stream_id: i32,
        direction: i32,
    ) -> (r: i32)
        requires
            old(hubs).wf(),
        ensures
            final(hubs).wf(),
            ({
                let exec = running_execution(old(self).execution_id, current_execution_id);
                let m = old(self).fd_table.spec_entries();
                if exec is None {
                    r == -SPEAR_ENOTCONN && final(self).fd_table == old(self).fd_table && same_hubs(*old(hubs), *final(hubs))
                } else if stream_id < 0 || direction_of(direction) is None {
                    r == -SPEAR_EINVAL && final(self).fd_table == old(self).fd_table && same_hubs(*old(hubs), *final(hubs))
                } else {
                    let k = exec.unwrap();
                    let sid = stream_id as u32;
                    let h0 = old(hubs).spec_hubs()[k];
                    let live = old(hubs).has_live_hub(k);
                    let h1 = final(hubs).spec_hubs()[k];
                    let c1 = h1.spec_streams()[sid];
                    let e = final(self).fd_table.spec_entries()[r];
                    &&& r == old(self).fd_table.spec_next_fd()
                    &&& final(self).fd_table.spec_next_fd() == old(self).fd_table.spec_next_fd().wrapping_add(1)
                    &&& final(self).fd_table.spec_entries() == m.insert(r, e)
                    &&& e.kind == FdKind::UserStream
                    &&& e.flags.0 == 0
                    &&& e.watchers@ == Set::<i32>::empty()
                    &&& !e.closed
                    &&& e.inner is UserStream
                    &&& us_state(e).execution_id@ == k
                    &&& us_state(e).stream_id == sid
                    &&& us_state(e).hub_generation == h1.generation
                    &&& Some(us_state(e).direction) == direction_of(direction)
                    &&& e.poll_mask.0 == user_stream_mask(e, c1)
                    &&& final(hubs).spec_hubs() == old(hubs).spec_hubs().insert(k, h1)
                    &&& final(hubs).retired@ == old(hubs).retired@
                    &&& h1.generation == (if live { h0.generation } else { old(hubs).next_generation })
                    &&& final(hubs).next_generation == (if live {
                        old(hubs).next_generation
                    } else {
                        old(hubs).next_generation.wrapping_add(1)
                    })
                    &&& h1.table_attached
                    &&& !h1.session_closed
                    &&& h1.ctl_fds@ == (if live { h0.ctl_fds@ } else { Set::empty() })
                    &&& h1.spec_streams().dom() == (if live { h0.spec_streams().dom() } else { Set::empty() }).insert(sid)
                    &&& forall|j: u32| j != sid && live && #[trigger] h0.spec_streams().contains_key(j)
                        ==> h1.spec_streams()[j] == h0.spec_streams()[j]
                    &&& c1.attached_fds@ == (if live && h0.spec_streams().contains_key(sid) {
                        h0.spec_streams()[sid].attached_fds@
                    } else {
                        Set::empty()
                    }).insert(r)
                    &&& live && h0.spec_streams().contains_key(sid) ==> c1 == (UserStreamChannel {
                        attached_fds: c1.attached_fds,
                        ..h0.spec_streams()[sid]
                    })
                    &&& !(live && h0.spec_streams().contains_key(sid)) ==> fresh_fields(c1, sid, UserStreamConnState::Init)
                }
            }),
    {
        let exec: String = match &self.execution_id {
            Some(x) => x.clone(),
            None => match current_execution_id {
                Some(c) => String::from_str(c),
                None => { return -SPEAR_ENOTCONN; },
            },
        };
        if stream_id < 0 {
            return -SPEAR_EINVAL;
        }
        let sid = stream_id as u32;
        let dir = match UserStreamDirection::from_i32(direction) {
            Some(d) => d,
            None => { return -SPEAR_EINVAL; },
        };
        let mut h = hubs.take_or_create(exec.as_str());
        h.table_attached = true;
        let ghost ha = h;
        let mut c = h.take_channel(sid);
        let ghost c0 = c;
        let entry = FdEntry {
            kind: FdKind::UserStream,
            flags: FdFlags::default(),
            poll_mask: PollEvents::EMPTY(),
            watchers: HashSet::new(),
            closed: false,
            inner: FdInner::UserStream(
                Box::new(UserStreamState { execution_id: exec.clone(), hub_generation: h.generation, stream_id: sid, direction: dir }),
            ),
        };
        let fd = self.fd_table.allocate(entry);
        c.attached_fds.insert(fd);
        let ghost m1 = self.fd_table.spec_entries();
        let mut e = match self.fd_table.take(fd) {
            Some(e) => e,
            None => { return fd; },
        };
        e.poll_mask = compute_user_stream_poll_mask(&e, &c);
        self.fd_table.put(fd, e);
        let ghost c1 = c;
        put_live_channel(hubs, &exec, h, c);
        proof {
            assert(self.fd_table.spec_entries() =~= old(self).fd_table.spec_entries().insert(fd, self.fd_table.spec_entries()[fd]));
        }
        fd
    }
}

/// The control state of entry `e`.
pub open spec fn ctl_state(e: FdEntry) -> UserStreamCtlState {
    match e.inner {
        FdInner::UserStreamCtl(b) => *b,
        _ => arbitrary(),
    }
}

impl DefaultHostApi {
    /// Opens a control descriptor for the running execution (the host
    /// API's own, else `current_execution_id`); `-ENOTCONN` without one. The
    /// execution's hub (a fresh one unless its session is open) gets the
    /// table attached and the descriptor registered; it starts with no
    /// pending events and room for 1024.
    pub fn user_stream_ctl_open(&mut self, hubs: &mut UserStreamHubs, current_execution_id: Option<&str>) -> (r: i32)
        requires
            old(hubs).wf(),
        ensures
            final(hubs).wf(),
            ({
                let exec = running_execution(old(self).execution_id, current_execution_id);
                if exec is None {
                    r == -SPEAR_ENOTCONN && final(self).fd_table == old(self).fd_table && same_hubs(*old(hubs), *final(hubs))
                } else {
                    let k = exec.unwrap();
                    let h0 = old(hubs).spec_hubs()[k];
                    let live = old(hubs).has_live_hub(k);
                    let h1 = final(hubs).spec_hubs()[k];
                    let e = final(self).fd_table.spec_entries()[r];
                    &&& r == old(self).fd_table.spec_next_fd()
                    &&& final(self).fd_table.spec_next_fd() == old(self).fd_table.spec_next_fd().wrapping_add(1)
                    &&& final(self).fd_table.spec_entries() == old(self).fd_table.spec_entries().insert(r, e)
                    &&& e.kind == FdKind::UserStreamCtl
                    &&& e.flags.0 == 0
                    &&& e.poll_mask.0 == 0
                    &&& e.watchers@ == Set::<i32>::empty()
                    &&& !e.closed
                    &&& e.inner is UserStreamCtl
                    &&& ctl_state(e).execution_id@ == k
                    &&& ctl_state(e).pending@.len() == 0
                    &&& ctl_state(e).max_pending == 1024
                    &&& final(hubs).spec_hubs() == old(hubs).spec_hubs().insert(k, h1)
                    &&& final(hubs).retired@ == old(hubs).retired@
                    &&& h1.generation == (if live { h0.generation } else { old(hubs).next_generation })
                    &&& h1.table_attached
                    &&& !h1.session_closed
                    &&& h1.spec_streams() == (if live { h0.spec_streams() } else { Map::empty() })
                    &&& h1.ctl_fds@ == (if live { h0.ctl_fds@ } else { Set::empty() }).insert(r)
                }
            }),
    {
        let exec: String = match &self.execution_id {
            Some(x) => x.clone(),
            None => match current_execution_id {
                Some(c) => String::from_str(c),
                None => { return -SPEAR_ENOTCONN; },
            },
        };
        let mut h = hubs.take_or_create(exec.as_str());
        h.table_attached = true;
        let entry = FdEntry {
            kind: FdKind::UserStreamCtl,
            flags: FdFlags::default(),
            poll_mask: PollEvents::EMPTY(),
            watchers: HashSet::new(),
            closed: false,
            inner: FdInner::UserStreamCtl(Box::new(UserStreamCtlState {
                execution_id: exec.clone(),
                pending: VecDeque::new(),
                max_pending: 1024,
            })),
        };
        let fd = self.fd_table.allocate(entry);
        h.ctl_fds.insert(fd);
        hubs.put(exec.as_str(), h);
        fd
    }

    /// Takes the next pending event of control descriptor `fd`: `-EBADF`
    /// for a missing, closed or foreign descriptor, `-EAGAIN` with none
    /// pending. The descriptor stays readable while events remain.
    pub fn user_stream_ctl_read(&mut self, fd: i32) -> (r: Result<[u8; 8], i32>)
        ensures
            final(self).fd_table.spec_next_fd() == old(self).fd_table.spec_next_fd(),
            ({
                let m = old(self).fd_table.spec_entries();
                let m2 = final(self).fd_table.spec_entries();
                if !m.contains_key(fd) || m[fd].closed || !(m[fd].inner is UserStreamCtl) {
                    r matches Err(x) && x == -SPEAR_EBADF && m2 == m
                } else {
                    let st = ctl_state(m[fd]);
                    let e2 = m2[fd];
                    &&& m2.contains_key(fd)
                    &&& m2 == table_after_store(m, fd, e2, m[fd].poll_mask.0)
                    &&& e2.kind == m[fd].kind && e2.flags == m[fd].flags && e2.watchers == m[fd].watchers && !e2.closed
                    &&& e2.inner is UserStreamCtl
                    &&& ctl_state(e2).execution_id == st.execution_id
                    &&& ctl_state(e2).max_pending == st.max_pending
                    &&& if st.pending@.len() == 0 {
                        r matches Err(x) && x == -SPEAR_EAGAIN && ctl_state(e2).pending@ == st.pending@
                    } else {
                        r == Ok::<[u8; 8], i32>(st.pending@[0]) && ctl_state(e2).pending@ == st.pending@.drop_first()
                    }
                    &&& e2.poll_mask.0 == (if ctl_state(e2).pending@.len() > 0 { 1u32 } else { 0u32 })
                }
            }),
    {
        let ghost m = self.fd_table.spec_entries();
        let mut e = match self.fd_table.take(fd) {
            None => {
                assert(self.fd_table.spec_entries() =~= m);
                return Err(-SPEAR_EBADF);
            },
            Some(e) => e,
        };
        if e.closed || !matches!(e.inner, FdInner::UserStreamCtl(_)) {
            self.fd_table.put(fd, e);
            assert(self.fd_table.spec_entries() =~= m);
            return Err(-SPEAR_EBADF);
        }
        let old_mask = e.poll_mask;
        let (payload, readable) = match &mut e.inner {
            FdInner::UserStreamCtl(st) => {
                let ghost p0 = st.pending@;
                let p = st.pending.pop_front();
                proof {
                    if p0.len() > 0 {
                        assert(st.pending@ =~= p0.drop_first());
                    }
                }
                (p, st.pending.len() > 0)
            },
            _ => (None, false),
        };
        let mut mask = PollEvents::EMPTY();
        if readable {
            mask.insert(PollEvents::IN());
        }
        e.poll_mask = mask;
        let ghost en = e;
        self.fd_table.store_entry(fd, e, old_mask);
        proof {
            lemma_store_back(m, fd, en, old_mask.0);
            assert(0u32 | 1u32 == 1u32) by (bit_vector);
        }
        match payload {
            Some(p) => Ok(p),
            None => Err(-SPEAR_EAGAIN),
        }
    }

    /// Closes descriptor `fd` (see [`FdTable::close`]). A user stream
    /// descriptor first leaves its channel's attached set; a control
    /// descriptor leaves its execution's hub (a fresh hub stands in for one
    /// whose session closed or that is gone).
    pub fn user_stream_close(&mut self, hubs: &mut UserStreamHubs, fd: i32) -> (r: i32)
        requires
            old(hubs).wf(),
        ensures
            final(hubs).wf(),
            final(self).fd_table.spec_next_fd() == old(self).fd_table.spec_next_fd(),
            ({
                let m = old(self).fd_table.spec_entries();
                let m2 = final(self).fd_table.spec_entries();
                &&& !m.contains_key(fd) ==> r == -SPEAR_EBADF && m2 == m
                &&& m.contains_key(fd) && m[fd].closed ==> r == 0 && m2 == m
                &&& m.contains_key(fd) && !m[fd].closed ==> r == 0 && FdTable::closed_table_ok(m, fd, m2)
            }),
            ({
                let m = old(self).fd_table.spec_entries();
                let h = old(hubs).spec_hubs();
                let h2 = final(hubs).spec_hubs();
                if m.contains_key(fd) && m[fd].inner is UserStream {
                    match channel_of(*old(hubs), us_state(m[fd])) {
                        Some(c) => exists|c2: UserStreamChannel|
                            #![trigger hubs_with_channel(*old(hubs), *final(hubs), us_state(m[fd]), c2)]
                            hubs_with_channel(*old(hubs), *final(hubs), us_state(m[fd]), c2) && c2 == (UserStreamChannel {
                                attached_fds: c2.attached_fds,
                                ..c
                            }) && c2.attached_fds@ == c.attached_fds@.remove(fd),
                        None => same_hubs(*old(hubs), *final(hubs)),
                    }
                } else if m.contains_key(fd) && m[fd].inner is UserStreamCtl {
                    let k = ctl_state(m[fd]).execution_id@;
                    let live = old(hubs).has_live_hub(k);
                    let h1 = h2[k];
                    &&& h2 == h.insert(k, h1)
                    &&& final(hubs).retired@ == old(hubs).retired@
                    &&& h1.ctl_fds@ == (if live { h[k].ctl_fds@ } else { Set::empty() }).remove(fd)
                    &&& h1.spec_streams() == (if live { h[k].spec_streams() } else { Map::empty() })
                    &&& h1.table_attached == (live && h[k].table_attached)
                    &&& !h1.session_closed
                } else {
                    same_hubs(*old(hubs), *final(hubs))
                }
            }),
    {
        let ghost m = self.fd_table.spec_entries();
        match self.fd_table.take(fd) {
            None => {
                assert(self.fd_table.spec_entries() =~= m);
            },
            Some(e) => {
                match &e.inner {
                    FdInner::UserStream(st) => {
                        let ghost hs0 = *hubs;
                        match take_channel_of(hubs, st) {
                            Some((slot, h, mut c)) => {
                                let ghost hs1 = *hubs;
                                let ghost hh = h;
                                let ghost c0 = c;
                                c.attached_fds.remove(&fd);
                                let ghost c1 = c;
                                put_channel(hubs, st, slot, h, c);
                                proof {
                                    lemma_take_put(hs0, hs1, *hubs, **st, slot, hh, c1);
                                    assert(c1 == (UserStreamChannel { attached_fds: c1.attached_fds, ..c0 }));
                                }
                            },
                            None => {},
                        }
                    },
                    FdInner::UserStreamCtl(st) => {
                        let mut h = hubs.take_or_create(st.execution_id.as_str());
                        h.ctl_fds.remove(&fd);
                        hubs.put(st.execution_id.as_str(), h);
                        proof {
                            assert(hubs.spec_hubs() =~= old(hubs).spec_hubs().insert(st.execution_id@, hubs.spec_hubs()[st.execution_id@]));
                        }
                    },
                    _ => {},
                }
                self.fd_table.put(fd, e);
                assert(self.fd_table.spec_entries() =~= m);
            },
        }
        self.fd_table.close(fd)
    }
}

impl DefaultHostApi {
    /// Descriptor control with the user-stream sessions at hand: the
    /// metrics of a user stream descriptor are read from its channel (see
    /// [`FdTable::fd_ctl`]); `-EBADF` where its channel is no longer
    /// there. The sessions keep their contents.
    pub fn spear_fd_ctl_with_streams(
        &mut self,
        hubs: &mut UserStreamHubs,
        fd: i32,
        cmd: i32,
        payload: Option<&JsonValue>,
    ) -> (r: Result<Option<FdCtlReply>, i32>)
        requires
            old(hubs).wf(),
        ensures
            final(hubs).wf(),
            final(self).fd_table.spec_next_fd() == old(self).fd_table.spec_next_fd(),
            ({
                let m = old(self).fd_table.spec_entries();
                let m2 = final(self).fd_table.spec_entries();
                let p = match payload {
                    Some(x) => Some(*x),
                    None => None,
                };
                if cmd == FD_CTL_GET_METRICS && m.contains_key(fd) && m[fd].inner is UserStream {
                    match channel_of(*old(hubs), us_state(m[fd])) {
                        None => (r matches Err(x) && x == -SPEAR_EBADF) && m2 == m && same_hubs(*old(hubs), *final(hubs)),
                        Some(c) => fd_ctl_spec(m, fd, cmd, p, Some(c), m2, r) && hubs_with_channel(
                            *old(hubs),
                            *final(hubs),
                            us_state(m[fd]),
                            c,
                        ),
                    }
                } else {
                    fd_ctl_spec(m, fd, cmd, p, None, m2, r) && same_hubs(*old(hubs), *final(hubs))
                }
            }),
    {
        let ghost m = self.fd_table.spec_entries();
        if cmd == FD_CTL_GET_METRICS {
            match self.fd_table.take(fd) {
                None => {
                    assert(self.fd_table.spec_entries() =~= m);
                },
                Some(e) => {
                    let st = match &e.inner {
                        FdInner::UserStream(b) => Some(UserStreamState {
                            execution_id: b.execution_id.clone(),
                            hub_generation: b.hub_generation,
                            stream_id: b.stream_id,
                            direction: b.direction,
                        }),
                        _ => None,
                    };
                    self.fd_table.put(fd, e);
                    assert(self.fd_table.spec_entries() =~= m);
                    if let Some(st) = st {
                        assert(st == us_state(m[fd]));
                        let ghost hs0 = *hubs;
                        match take_channel_of(hubs, &st) {
                            None => {
                                return Err(-SPEAR_EBADF);
                            },
                            Some((slot, h, c)) => {
                                let ghost hs1 = *hubs;
                                let ghost hh = h;
                                let r = self.fd_table.fd_ctl(fd, cmd, payload, Some(&c));
                                let ghost cc = c;
                                put_channel(hubs, &st, slot, h, c);
                                proof {
                                    lemma_take_put(hs0, hs1, *hubs, st, slot, hh, cc);
                                }
                                return r;
                            },
                        }
                    }
                },
            }
        }
        self.fd_table.fd_ctl(fd, cmd, payload, None)
    }
}

} // verus!

//! The descriptor table: allocation, closing, watcher bookkeeping and the
//! epoll operations.
use vstd::prelude::*;
use dashmap::DashMap;
use std::collections::HashSet;
use vstd::std_specs::iter::IteratorSpec;
use crate::errno::{EBADF, EINVAL};
use crate::poll::{FdFlags, FdKind, PollEvents, poll_hup};
use crate::types::{EpollState, FdEntry, FdInner};
use crate::tables::{fd_map_contents, fd_map_new, fd_map_insert, fd_map_remove, fd_map_contains, fd_map_keys};

verus! {

broadcast use vstd::std_specs::hash::group_hash_axioms;

/// `ep_ctl` operation: add a descriptor to the interest list.
pub const EP_CTL_ADD: i32 = 1;
/// `ep_ctl` operation: change the interest of a descriptor.
pub const EP_CTL_MOD: i32 = 2;
/// `ep_ctl` operation: remove a descriptor from the interest list.
pub const EP_CTL_DEL: i32 = 3;

/// `fd_ctl` command: set or clear flags.
pub const FD_CTL_SET_FLAGS: i32 = 1;
/// `fd_ctl` command: read the flags.
pub const FD_CTL_GET_FLAGS: i32 = 2;
/// `fd_ctl` command: read the kind.
pub const FD_CTL_GET_KIND: i32 = 3;
/// `fd_ctl` command: read kind, flags, readiness and closed state.
pub const FD_CTL_GET_STATUS: i32 = 4;
/// `fd_ctl` command: read kind-specific metrics.
pub const FD_CTL_GET_METRICS: i32 = 5;

/// The entry with its epoll change counter bumped (other entries unchanged).
pub open spec fn bump_epoll(e: FdEntry) -> FdEntry {
    match e.inner {
        FdInner::Epoll(st) => FdEntry {
            inner: FdInner::Epoll(EpollState { seq: st.seq.wrapping_add(1), ..st }),
            ..e
        },
        _ => e,
    }
}

/// The entry with its epoll state marked closed.
pub open spec fn mark_epoll_closed(e: FdEntry) -> FdEntry {
    match e.inner {
        FdInner::Epoll(st) => FdEntry {
            inner: FdInner::Epoll(EpollState { closed: true, seq: st.seq.wrapping_add(1), ..st }),
            ..e
        },
        _ => e,
    }
}

/// The entry as closing leaves it: closed, hang-up raised, and a microphone
/// stopped with its generation advanced.
pub open spec fn closed_entry(e: FdEntry) -> FdEntry {
    FdEntry {
        closed: true,
        poll_mask: PollEvents(e.poll_mask.0 | poll_hup()),
        inner: if e.kind == FdKind::Mic {
            match e.inner {
                FdInner::Mic(st) => FdInner::Mic(
                    crate::types::MicState { running: false, generation: st.generation.wrapping_add(1), ..st },
                ),
                _ => e.inner,
            }
        } else {
            e.inner
        },
        ..e
    }
}

/// Two entries that agree on everything but their watcher sets.
pub open spec fn same_but_watchers(a: FdEntry, b: FdEntry) -> bool {
    &&& a.kind == b.kind
    &&& a.flags == b.flags
    &&& a.poll_mask == b.poll_mask
    &&& a.closed == b.closed
    &&& a.inner == b.inner
}

/// The descriptors an epoll entry watches (none for other entries).
pub open spec fn epoll_watched(e: FdEntry) -> Set<i32> {
    if e.kind == FdKind::Epoll {
        match e.inner {
            FdInner::Epoll(st) => st.watch@.dom(),
            _ => Set::empty(),
        }
    } else {
        Set::empty()
    }
}

/// What closing `fd` makes of entry `k`, before watcher sets are updated:
/// `fd` itself is closed; every epoll entry watching `fd` is notified; a
/// closed epoll entry is marked closed.
pub open spec fn close_core(m: Map<i32, FdEntry>, fd: i32, k: i32) -> FdEntry {
    let e = m[fd];
    let a = if k == fd { closed_entry(e) } else { m[k] };
    let b = if e.watchers@.contains(k) { bump_epoll(a) } else { a };
    if k == fd && e.kind == FdKind::Epoll { mark_epoll_closed(b) } else { b }
}

/// The table after the epoll entries listed in `ws` are notified once each.
pub open spec fn notified(m: Map<i32, FdEntry>, ws: Set<i32>) -> Map<i32, FdEntry> {
    Map::new(|k: i32| m.contains_key(k), |k: i32| if ws.contains(k) { bump_epoll(m[k]) } else { m[k] })
}

/// The descriptor table.
#[derive(Debug)]
pub struct FdTable {
    next_fd: i32,
    entries: DashMap<i32, FdEntry>,
}

impl FdTable {
    /// The entries by descriptor number.
    pub closed spec fn spec_entries(&self) -> Map<i32, FdEntry> {
        fd_map_contents(self.entries)
    }

    /// The next descriptor number that `allocate` hands out.
    pub closed spec fn spec_next_fd(&self) -> i32 {
        self.next_fd
    }

    /// Every descriptor in use is below the next one to be handed out.
    pub open spec fn wf(&self) -> bool {
        forall|k: i32| #[trigger] self.spec_entries().contains_key(k) ==> k < self.spec_next_fd()
    }

    /// An empty table whose first descriptor will be `start_fd`.
    pub fn new(start_fd: i32) -> (r: Self)
        ensures
            r.spec_entries() == Map::<i32, FdEntry>::empty(),
            r.spec_next_fd() == start_fd,
            r.wf(),
    {
        let entries = fd_map_new();
        let r = FdTable { next_fd: start_fd, entries };
        assert(r.spec_entries() =~= Map::<i32, FdEntry>::empty());
        r
    }

    /// Registers `entry` under the next descriptor number, which it returns.
    pub fn allocate(&mut self, entry: FdEntry) -> (r: i32)
        ensures
            r == old(self).spec_next_fd(),
            final(self).spec_next_fd() == old(self).spec_next_fd().wrapping_add(1),
            final(self).spec_entries() == old(self).spec_entries().insert(r, entry),
            old(self).wf() && old(self).spec_next_fd() < i32::MAX ==> !old(self).spec_entries().contains_key(r)
                && final(self).wf(),
    {
        let fd = self.next_fd;
        self.next_fd = self.next_fd.wrapping_add(1);
        let _ = fd_map_insert(&mut self.entries, fd, entry);
        fd
    }

    /// Whether `fd` is in the table.
    pub fn contains(&self, fd: i32) -> (r: bool)
        ensures
            r == self.spec_entries().contains_key(fd),
    {
        fd_map_contains(&self.entries, fd)
    }

    /// Takes the entry of `fd` out of the table.
    pub(crate) fn take(&mut self, fd: i32) -> (r: Option<FdEntry>)
        ensures
            final(self).spec_next_fd() == old(self).spec_next_fd(),
            final(self).spec_entries() == old(self).spec_entries().remove(fd),
            match r {
                Some(e) => old(self).spec_entries().contains_key(fd) && e == old(self).spec_entries()[fd],
                None => !old(self).spec_entries().contains_key(fd),
            },
    {
        match fd_map_remove(&mut self.entries, fd) {
            Some((_, e)) => Some(e),
            None => None,
        }
    }

    /// Puts an entry (back) under `fd`.
    pub(crate) fn put(&mut self, fd: i32, e: FdEntry)
        ensures
            final(self).spec_next_fd() == old(self).spec_next_fd(),
            final(self).spec_entries() == old(self).spec_entries().insert(fd, e),
    {
        let _ = fd_map_insert(&mut self.entries, fd, e);
    }

    /// The epoll descriptors watching `fd`, each once; `None` when `fd` is
    /// not in the table.
    pub fn watchers_of(&mut self, fd: i32) -> (r: Option<Vec<i32>>)
        ensures
            final(self).spec_next_fd() == old(self).spec_next_fd(),
            final(self).spec_entries() == old(self).spec_entries(),
            match r {
                Some(v) => old(self).spec_entries().contains_key(fd) && v@.to_set() == old(
                    self,
                ).spec_entries()[fd].watchers@ && v@.no_duplicates(),
                None => !old(self).spec_entries().contains_key(fd),
            },
    {
        let ghost m = self.spec_entries();
        match self.take(fd) {
            None => {
                assert(self.spec_entries() =~= m);
                None
            },
            Some(e) => {
                let v = set_to_vec(&e.watchers);
                self.put(fd, e);
                assert(self.spec_entries() =~= m);
                Some(v)
            },
        }
    }

    /// The descriptors in the table, each once.
    pub fn list_fds(&self) -> (r: Vec<i32>)
        ensures
            r@.to_set() == self.spec_entries().dom(),
            r@.no_duplicates(),
    {
        fd_map_keys(&self.entries)
    }

    /// Signals the epoll descriptor `epfd` that readiness may have changed.
    pub fn notify_epoll(&mut self, epfd: i32)
        ensures
            final(self).spec_next_fd() == old(self).spec_next_fd(),
            final(self).spec_entries() == (if old(self).spec_entries().contains_key(epfd) {
                old(self).spec_entries().insert(epfd, bump_epoll(old(self).spec_entries()[epfd]))
            } else {
                old(self).spec_entries()
            }),
    {
        if let Some(mut e) = self.take(epfd) {
            let ghost e0 = e;
            if let FdInner::Epoll(st) = &mut e.inner {
                st.notify();
            }
            assert(e == bump_epoll(e0));
            self.put(epfd, e);
            assert(self.spec_entries() =~= old(self).spec_entries().insert(epfd, bump_epoll(e0)));
        }
    }

    /// Notifies each epoll descriptor of `ws` once.
    fn notify_all(&mut self, ws: &Vec<i32>)
        requires
            ws@.no_duplicates(),
        ensures
            final(self).spec_next_fd() == old(self).spec_next_fd(),
            final(self).spec_entries() == notified(old(self).spec_entries(), ws@.to_set()),
    {
        let ghost m0 = self.spec_entries();
        let mut i: usize = 0;
        while i < ws.len()
            invariant
                0 <= i <= ws.len(),
                ws@.no_duplicates(),
                self.spec_next_fd() == old(self).spec_next_fd(),
                m0 == old(self).spec_entries(),
                self.spec_entries() == notified(m0, ws@.subrange(0, i as int).to_set()),
            decreases ws.len() - i,
        {
            let ghost before = self.spec_entries();
            let epfd = ws[i];
            self.notify_epoll(epfd);
            proof {
                let pre = ws@.subrange(0, i as int);
                let post = ws@.subrange(0, i + 1);
                assert(post =~= pre.push(epfd));
                assert(!pre.contains(epfd)) by {
                    if pre.contains(epfd) {
                        let j = choose|j: int| 0 <= j < pre.len() && pre[j] == epfd;
                        assert(ws@[j] == ws@[i as int]);
                    }
                }
                assert(post.to_set() =~= pre.to_set().insert(epfd)) by {
                    assert forall|x: i32| post.to_set().contains(x) <==> pre.to_set().insert(epfd).contains(x) by {
                        if post.to_set().contains(x) {
                            let j = choose|j: int| 0 <= j < post.len() && post[j] == x;
                            if j < pre.len() { assert(pre[j] == x); }
                        }
                        if pre.to_set().contains(x) {
                            let j = choose|j: int| 0 <= j < pre.len() && pre[j] == x;
                            assert(post[j] == x);
                        }
                        if x == epfd { assert(post[i as int] == x); }
                    }
                }
                assert(self.spec_entries() =~= notified(m0, post.to_set()));
            }
            i = i + 1;
        }
        assert(ws@.subrange(0, ws.len() as int) =~= ws@);
    }

    /// Notifies every epoll descriptor that watches `fd`.
    pub fn notify_watchers(&mut self, fd: i32)
        ensures
            final(self).spec_next_fd() == old(self).spec_next_fd(),
            final(self).spec_entries() == (if old(self).spec_entries().contains_key(fd) {
                notified(old(self).spec_entries(), old(self).spec_entries()[fd].watchers@)
            } else {
                old(self).spec_entries()
            }),
    {
        match self.take(fd) {
            None => {},
            Some(e) => {
                let ws = set_to_vec(&e.watchers);
                self.put(fd, e);
                assert(self.spec_entries() =~= old(self).spec_entries());
                self.notify_all(&ws);
            },
        }
    }

    /// Records that epoll descriptor `epfd` watches `fd`.
    pub fn register_watcher(&mut self, fd: i32, epfd: i32) -> (r: i32)
        ensures
            final(self).spec_next_fd() == old(self).spec_next_fd(),
            old(self).spec_entries().contains_key(fd) ==> r == 0 && final(self).spec_entries().dom()
                == old(self).spec_entries().dom() && same_but_watchers(
                final(self).spec_entries()[fd],
                old(self).spec_entries()[fd],
            ) && final(self).spec_entries()[fd].watchers@ == old(self).spec_entries()[fd].watchers@.insert(
                epfd,
            ) && forall|k: i32| k != fd ==> #[trigger] final(self).spec_entries().contains_key(k) ==> final(self).spec_entries()[k]
                == old(self).spec_entries()[k],
            !old(self).spec_entries().contains_key(fd) ==> r == -EBADF && final(self).spec_entries()
                == old(self).spec_entries(),
    {
        match self.take(fd) {
            None => -EBADF,
            Some(mut e) => {
                e.watchers.insert(epfd);
                self.put(fd, e);
                assert(self.spec_entries().dom() =~= old(self).spec_entries().dom());
                0
            },
        }
    }

    /// Records that epoll descriptor `epfd` no longer watches `fd`.
    pub fn unregister_watcher(&mut self, fd: i32, epfd: i32)
        ensures
            final(self).spec_next_fd() == old(self).spec_next_fd(),
            final(self).spec_entries().dom() == old(self).spec_entries().dom(),
            old(self).spec_entries().contains_key(fd) ==> same_but_watchers(
                final(self).spec_entries()[fd],
                old(self).spec_entries()[fd],
            ) && final(self).spec_entries()[fd].watchers@ == old(self).spec_entries()[fd].watchers@.remove(
                epfd,
            ),
            forall|k: i32| k != fd ==> #[trigger] final(self).spec_entries().contains_key(k) ==> final(self).spec_entries()[k]
                == old(self).spec_entries()[k],
    {
        match self.take(fd) {
            None => {},
            Some(mut e) => {
                e.watchers.remove(&epfd);
                self.put(fd, e);
                assert(self.spec_entries().dom() =~= old(self).spec_entries().dom());
            },
        }
    }
}

impl FdTable {
    /// The table after closing `fd` (which is present and open): entry `k`
    /// is `close_core(m, fd, k)` except that, when `fd` is an epoll
    /// descriptor, the descriptors it watched no longer list it as a watcher.
    pub open spec fn closed_table_ok(m: Map<i32, FdEntry>, fd: i32, m2: Map<i32, FdEntry>) -> bool {
        &&& m2.dom() == m.dom()
        &&& forall|k: i32| #[trigger] m.contains_key(k) ==> {
            &&& same_but_watchers(m2[k], close_core(m, fd, k))
            &&& m2[k].watchers@ == (if epoll_watched(m[fd]).contains(k) {
                close_core(m, fd, k).watchers@.remove(fd)
            } else {
                close_core(m, fd, k).watchers@
            })
        }
    }

    /// Closes `fd`: marks it closed with hang-up raised (stopping a
    /// microphone), notifies the epoll descriptors watching it, and when it is
    /// an epoll descriptor marks its state closed and removes it from the
    /// watcher sets of the descriptors it watched. Closing a closed
    /// descriptor does nothing. Entries stay in the table.
    pub fn close(&mut self, fd: i32) -> (r: i32)
        ensures
            final(self).spec_next_fd() == old(self).spec_next_fd(),
            !old(self).spec_entries().contains_key(fd) ==> r == -EBADF && final(self).spec_entries()
                == old(self).spec_entries(),
            old(self).spec_entries().contains_key(fd) && old(self).spec_entries()[fd].closed ==> r == 0
                && final(self).spec_entries() == old(self).spec_entries(),
            old(self).spec_entries().contains_key(fd) && !old(self).spec_entries()[fd].closed ==> r == 0
                && Self::closed_table_ok(old(self).spec_entries(), fd, final(self).spec_entries()),
    {
        let ghost m0 = self.spec_entries();
        let e0 = match self.take(fd) {
            None => { return -EBADF; },
            Some(e) => e,
        };
        if e0.closed {
            self.put(fd, e0);
            assert(self.spec_entries() =~= m0);
            return 0;
        }
        let mut e = e0;
        e.closed = true;
        e.poll_mask.insert(PollEvents::HUP());
        if e.kind == FdKind::Mic {
            if let FdInner::Mic(st) = &mut e.inner {
                st.running = false;
                st.generation = st.generation.wrapping_add(1);
            }
        }
        assert(e == closed_entry(m0[fd]));
        let kind = e.kind;
        let ws = set_to_vec(&e.watchers);
        self.put(fd, e);
        self.notify_all(&ws);
        let ghost m1 = self.spec_entries();
        assert(m1.dom() =~= m0.dom());
        let mut watched: Vec<i32> = Vec::new();
        if kind == FdKind::Epoll {
            let mut e2 = match self.take(fd) {
                Some(x) => x,
                None => { assert(false); return 0; },
            };
            if let FdInner::Epoll(st) = &mut e2.inner {
                st.mark_closed();
                watched = st.list_watched_fds();
            }
            self.put(fd, e2);
        }
        let ghost m2 = self.spec_entries();
        assert forall|k: i32| #[trigger] m0.contains_key(k) implies m2.contains_key(k) && m2[k] == close_core(m0, fd, k) by {
        }
        assert(m2.dom() =~= m0.dom());
        assert(watched@.to_set() == epoll_watched(m0[fd]));
        let mut i: usize = 0;
        while i < watched.len()
            invariant
                0 <= i <= watched.len(),
                watched@.no_duplicates(),
                self.spec_next_fd() == old(self).spec_next_fd(),
                self.spec_entries().dom() == m0.dom(),
                forall|k: i32| #[trigger] m0.contains_key(k) ==> {
                    &&& same_but_watchers(self.spec_entries()[k], close_core(m0, fd, k))
                    &&& self.spec_entries()[k].watchers@ == (if watched@.subrange(0, i as int).contains(k) {
                        close_core(m0, fd, k).watchers@.remove(fd)
                    } else {
                        close_core(m0, fd, k).watchers@
                    })
                },
            decreases watched.len() - i,
        {
            let wfd = watched[i];
            let ghost before = self.spec_entries();
            self.unregister_watcher(wfd, fd);
            proof {
                let pre = watched@.subrange(0, i as int);
                let post = watched@.subrange(0, i + 1);
                assert(post =~= pre.push(wfd));
                assert(!pre.contains(wfd)) by {
                    if pre.contains(wfd) {
                        let j = choose|j: int| 0 <= j < pre.len() && pre[j] == wfd;
                        assert(watched@[j] == watched@[i as int]);
                    }
                }
                assert forall|k: i32| #[trigger] m0.contains_key(k) implies {
                    &&& same_but_watchers(self.spec_entries()[k], close_core(m0, fd, k))
                    &&& self.spec_entries()[k].watchers@ == (if post.contains(k) {
                        close_core(m0, fd, k).watchers@.remove(fd)
                    } else {
                        close_core(m0, fd, k).watchers@
                    })
                } by {
                    if k == wfd {
                        assert(post[i as int] == wfd);
                        assert(post.contains(k));
                    } else {
                        assert(post.contains(k) == pre.contains(k)) by {
                            if post.contains(k) {
                                let j = choose|j: int| 0 <= j < post.len() && post[j] == k;
                                assert(j < pre.len());
                                assert(pre[j] == k);
                            }
                            if pre.contains(k) {
                                let j = choose|j: int| 0 <= j < pre.len() && pre[j] == k;
                                assert(post[j] == k);
                            }
                        }
                    }
                }
            }
            i = i + 1;
        }
        proof {
            assert(watched@.subrange(0, watched.len() as int) =~= watched@);
            assert forall|k: i32| #[trigger] m0.contains_key(k) implies (watched@.contains(k) == epoll_watched(m0[fd]).contains(k)) by {
                assert(watched@.to_set().contains(k) == watched@.contains(k));
            }
        }
        0
    }

    /// Closes every descriptor of the table.
    pub fn close_all(&mut self)
        ensures
            final(self).spec_next_fd() == old(self).spec_next_fd(),
            final(self).spec_entries().dom() == old(self).spec_entries().dom(),
            forall|k: i32| #[trigger] final(self).spec_entries().contains_key(k) ==> final(self).spec_entries()[k].closed,
    {
        let fds = self.list_fds();
        let mut i: usize = 0;
        while i < fds.len()
            invariant
                0 <= i <= fds.len(),
                fds@.to_set() == old(self).spec_entries().dom(),
                self.spec_next_fd() == old(self).spec_next_fd(),
                self.spec_entries().dom() == old(self).spec_entries().dom(),
                forall|j: int| 0 <= j < i ==> self.spec_entries()[#[trigger] fds@[j]].closed,
            decreases fds.len() - i,
        {
            let ghost before = self.spec_entries();
            assert(fds@.to_set().contains(fds@[i as int]));
            let _ = self.close(fds[i]);
            proof {
                assert forall|j: int| 0 <= j < i + 1 implies self.spec_entries()[#[trigger] fds@[j]].closed by {
                    let k = fds@[j];
                    assert(fds@.to_set().contains(k));
                    assert(before.contains_key(k));
                    if before[fds@[i as int]].closed {
                    } else {
                        assert(same_but_watchers(self.spec_entries()[k], close_core(before, fds@[i as int], k)));
                    }
                }
                assert(self.spec_entries().dom() =~= old(self).spec_entries().dom());
            }
            i = i + 1;
        }
        proof {
            assert forall|k: i32| #[trigger] self.spec_entries().contains_key(k) implies self.spec_entries()[k].closed by {
                assert(fds@.to_set().contains(k));
                let j = choose|j: int| 0 <= j < fds@.len() && fds@[j] == k;
            }
        }
    }
}

/// Whether `m[epfd]` is an open epoll descriptor.
pub open spec fn is_open_epoll(m: Map<i32, FdEntry>, epfd: i32) -> bool {
    &&& m.contains_key(epfd)
    &&& m[epfd].kind == FdKind::Epoll
    &&& !m[epfd].closed
    &&& m[epfd].inner is Epoll
}

/// The interest list of the epoll entry `e`.
pub open spec fn interest_list(e: FdEntry) -> Map<i32, PollEvents> {
    match e.inner {
        FdInner::Epoll(st) => st.watch@,
        _ => Map::empty(),
    }
}

/// `b` is the epoll entry `a` with interest list `w` and its counter bumped.
pub open spec fn epoll_updated(a: FdEntry, b: FdEntry, w: Map<i32, PollEvents>) -> bool {
    &&& b.kind == a.kind
    &&& b.flags == a.flags
    &&& b.poll_mask == a.poll_mask
    &&& b.watchers@ == a.watchers@
    &&& b.closed == a.closed
    &&& match (a.inner, b.inner) {
        (FdInner::Epoll(sa), FdInner::Epoll(sb)) => sb.watch@ == w && sb.seq == sa.seq.wrapping_add(1)
            && sb.closed == sa.closed,
        _ => false,
    }
}

/// The outcome of `ep_ctl(epfd, op, fd, events)` on table `m`: `-EINVAL`
/// for an epoll descriptor watching itself or another epoll descriptor, or
/// an unknown operation; `-EBADF` unless both exist and `epfd` is an open
/// epoll descriptor; else the interest list and the watcher set change.
pub open spec fn ep_ctl_spec(m: Map<i32, FdEntry>, epfd: i32, op: i32, fd: i32, events: PollEvents, m2: Map<i32, FdEntry>, r: i32) -> bool {
    if epfd == fd {
        r == -EINVAL && m2 == m
    } else if !m.contains_key(epfd) || !m.contains_key(fd) || !is_open_epoll(m, epfd) {
        r == -EBADF && m2 == m
    } else if m[fd].kind == FdKind::Epoll {
        r == -EINVAL && m2 == m
    } else if op == EP_CTL_ADD || op == EP_CTL_MOD || op == EP_CTL_DEL {
        &&& r == 0
        &&& m2.dom() == m.dom()
        &&& epoll_updated(m[epfd], m2[epfd], if op == EP_CTL_DEL {
            interest_list(m[epfd]).remove(fd)
        } else {
            interest_list(m[epfd]).insert(fd, events)
        })
        &&& same_but_watchers(m2[fd], m[fd])
        &&& m2[fd].watchers@ == (if op == EP_CTL_ADD {
            m[fd].watchers@.insert(epfd)
        } else if op == EP_CTL_DEL {
            m[fd].watchers@.remove(epfd)
        } else {
            m[fd].watchers@
        })
        &&& forall|k: i32| k != fd && k != epfd ==> #[trigger] m.contains_key(k) ==> m2[k] == m[k]
    } else {
        r == -EINVAL && m2 == m
    }
}

/// The events of `fd` that the epoll descriptor `epfd` reports: the
/// effective readiness of `fd` restricted to the interest in it.
pub open spec fn ready_bits(m: Map<i32, FdEntry>, epfd: i32, fd: i32) -> u32 {
    m[fd].spec_effective_poll_mask() & interest_list(m[epfd])[fd].0
}

/// Whether `fd` is reported ready by `epfd`.
pub open spec fn is_ready(m: Map<i32, FdEntry>, epfd: i32, fd: i32) -> bool {
    &&& interest_list(m[epfd]).contains_key(fd)
    &&& m.contains_key(fd)
    &&& ready_bits(m, epfd, fd) != 0
}

/// `r` lists exactly the ready descriptors of `epfd` with their events,
/// ordered by descriptor.
pub open spec fn ready_list_ok(m: Map<i32, FdEntry>, epfd: i32, r: Seq<(i32, i32)>) -> bool {
    &&& forall|i: int, j: int| 0 <= i < j < r.len() ==> r[i].0 < r[j].0
    &&& forall|i: int| 0 <= i < r.len() ==> is_ready(m, epfd, #[trigger] r[i].0) && r[i].1 == ready_bits(m, epfd, r[i].0) as i32
    &&& forall|fd: i32| is_ready(m, epfd, fd) ==> exists|i: int| 0 <= i < r.len() && #[trigger] r[i].0 == fd
}

/// Inserts `x` into a list kept ordered by descriptor.
fn insert_by_fd(v: &mut Vec<(i32, i32)>, x: (i32, i32))
    requires
        forall|i: int, j: int| 0 <= i < j < old(v).len() ==> old(v)@[i].0 < old(v)@[j].0,
        forall|i: int| 0 <= i < old(v).len() ==> old(v)@[i].0 != x.0,
    ensures
        forall|i: int, j: int| 0 <= i < j < final(v).len() ==> final(v)@[i].0 < final(v)@[j].0,
        forall|y: (i32, i32)| final(v)@.contains(y) <==> (old(v)@.contains(y) || y == x),
        final(v)@.len() == old(v)@.len() + 1,
{
    let mut p: usize = 0;
    while p < v.len() && v[p].0 < x.0
        invariant
            0 <= p <= v.len(),
            forall|i: int| 0 <= i < p ==> v@[i].0 < x.0,
        decreases v.len() - p,
    {
        p = p + 1;
    }
    let ghost old_v = v@;
    v.insert(p, x);
    proof {
        assert(v@ == old_v.insert(p as int, x));
        assert forall|y: (i32, i32)| v@.contains(y) <==> (old_v.contains(y) || y == x) by {
            if v@.contains(y) {
                let j = choose|j: int| 0 <= j < v@.len() && v@[j] == y;
                if j < p { assert(old_v[j] == y); } else if j > p { assert(old_v[j - 1] == y); }
            }
            if old_v.contains(y) {
                let j = choose|j: int| 0 <= j < old_v.len() && old_v[j] == y;
                if j < p { assert(v@[j] == y); } else { assert(v@[j + 1] == y); }
            }
            if y == x { assert(v@[p as int] == y); }
        }
    }
}

impl FdTable {
    /// Creates an open epoll descriptor with an empty interest list.
    pub fn ep_create(&mut self) -> (r: i32)
        ensures
            r == old(self).spec_next_fd(),
            final(self).spec_next_fd() == old(self).spec_next_fd().wrapping_add(1),
            final(self).spec_entries().dom() == old(self).spec_entries().dom().insert(r),
            forall|k: i32| k != r ==> #[trigger] old(self).spec_entries().contains_key(k) ==> final(self).spec_entries()[k]
                == old(self).spec_entries()[k],
            is_open_epoll(final(self).spec_entries(), r),
            interest_list(final(self).spec_entries()[r]) == Map::<i32, PollEvents>::empty(),
            final(self).spec_entries()[r].watchers@ == Set::<i32>::empty(),
            final(self).spec_entries()[r].poll_mask.0 == 0,
            final(self).spec_entries()[r].flags.0 == 0,
    {
        let e = FdEntry {
            kind: FdKind::Epoll,
            flags: FdFlags::default(),
            poll_mask: PollEvents::default(),
            watchers: HashSet::new(),
            closed: false,
            inner: FdInner::Epoll(EpollState::new()),
        };
        let r = self.allocate(e);
        assert(self.spec_entries().dom() =~= old(self).spec_entries().dom().insert(r));
        r
    }

    /// Adds, changes or removes the interest of epoll descriptor `epfd` in
    /// `fd`, keeping the watcher set of `fd` in step. An epoll descriptor
    /// cannot watch itself or another epoll descriptor.
    pub fn ep_ctl(&mut self, epfd: i32, op: i32, fd: i32, events: PollEvents) -> (r: i32)
        ensures
            final(self).spec_next_fd() == old(self).spec_next_fd(),
            ep_ctl_spec(old(self).spec_entries(), epfd, op, fd, events, final(self).spec_entries(), r),
    {
        let ghost m = self.spec_entries();
        if epfd == fd {
            return -EINVAL;
        }
        if !self.contains(epfd) || !self.contains(fd) {
            return -EBADF;
        }
        let mut ep = match self.take(epfd) {
            Some(x) => x,
            None => { return -EBADF; },
        };
        if ep.kind != FdKind::Epoll || ep.closed {
            self.put(epfd, ep);
            assert(self.spec_entries() =~= m);
            return -EBADF;
        }
        if !(matches!(ep.inner, FdInner::Epoll(_))) {
            self.put(epfd, ep);
            assert(self.spec_entries() =~= m);
            return -EBADF;
        }
        let target = match self.take(fd) {
            Some(x) => x,
            None => { self.put(epfd, ep); return -EBADF; },
        };
        let target_is_epoll = target.kind == FdKind::Epoll;
        self.put(fd, target);
        if target_is_epoll {
            self.put(epfd, ep);
            assert(self.spec_entries() =~= m);
            return -EINVAL;
        }
        if op != EP_CTL_ADD && op != EP_CTL_MOD && op != EP_CTL_DEL {
            self.put(epfd, ep);
            assert(self.spec_entries() =~= m);
            return -EINVAL;
        }
        if let FdInner::Epoll(st) = &mut ep.inner {
            if op == EP_CTL_DEL {
                st.ctl_del(fd);
            } else if op == EP_CTL_ADD {
                st.ctl_add(fd, events);
            } else {
                st.ctl_mod(fd, events);
            }
        }
        self.put(epfd, ep);
        let ghost m1 = self.spec_entries();
        assert(m1.dom() =~= m.dom());
        if op == EP_CTL_ADD {
            let rc = self.register_watcher(fd, epfd);
            assert(self.spec_entries().dom() =~= m.dom());
            rc
        } else if op == EP_CTL_DEL {
            self.unregister_watcher(fd, epfd);
            0
        } else {
            0
        }
    }

    /// The ready descriptors of epoll descriptor `epfd` with the events each
    /// reports, ordered by descriptor; `-EBADF` unless `epfd` is an open
    /// epoll descriptor.
    pub fn ep_ready_events(&mut self, epfd: i32) -> (r: Result<Vec<(i32, i32)>, i32>)
        ensures
            final(self).spec_next_fd() == old(self).spec_next_fd(),
            final(self).spec_entries() == old(self).spec_entries(),
            match r {
                Ok(v) => is_open_epoll(old(self).spec_entries(), epfd) && ready_list_ok(
                    old(self).spec_entries(),
                    epfd,
                    v@,
                ),
                Err(e) => e == -EBADF && !is_open_epoll(old(self).spec_entries(), epfd),
            },
    {
        let ghost m = self.spec_entries();
        let ep = match self.take(epfd) {
            Some(x) => x,
            None => { return Err(-EBADF); },
        };
        if ep.kind != FdKind::Epoll || ep.closed {
            self.put(epfd, ep);
            assert(self.spec_entries() =~= m);
            return Err(-EBADF);
        }
        let watch = match &ep.inner {
            FdInner::Epoll(st) => st.snapshot_watch(),
            _ => {
                self.put(epfd, ep);
                assert(self.spec_entries() =~= m);
                return Err(-EBADF);
            },
        };
        self.put(epfd, ep);
        assert(self.spec_entries() =~= m);
        let ghost w = interest_list(m[epfd]);
        assert(watch@ == w);
        let fds = list_map_keys(&watch);
        let mut out: Vec<(i32, i32)> = Vec::new();
        let mut i: usize = 0;
        while i < fds.len()
            invariant
                0 <= i <= fds.len(),
                self.spec_entries() == m,
                self.spec_next_fd() == old(self).spec_next_fd(),
                is_open_epoll(m, epfd),
                w == interest_list(m[epfd]),
                watch@ == w,
                fds@.to_set() == w.dom(),
                fds@.no_duplicates(),
                forall|a: int, b: int| 0 <= a < b < out@.len() ==> out@[a].0 < out@[b].0,
                forall|a: int| 0 <= a < out@.len() ==> is_ready(m, epfd, #[trigger] out@[a].0) && out@[a].1
                    == ready_bits(m, epfd, out@[a].0) as i32 && fds@.subrange(0, i as int).contains(out@[a].0),
                forall|a: int| 0 <= a < i ==> is_ready(m, epfd, #[trigger] fds@[a]) ==> exists|b: int|
                    0 <= b < out@.len() && out@[b].0 == fds@[a],
            decreases fds.len() - i,
        {
            let fd = fds[i];
            assert(fds@.to_set().contains(fd));
            let interest = *watch.get(&fd).unwrap();
            let mut mask_opt: Option<u32> = None;
            if let Some(e) = self.take(fd) {
                let mask = e.effective_poll_mask().and(interest);
                self.put(fd, e);
                assert(self.spec_entries() =~= m);
                mask_opt = Some(mask.bits());
            }
            let ghost before = out@;
            match mask_opt {
                Some(bits) => {
                    if bits != 0 {
                        assert forall|a: int| 0 <= a < out@.len() implies out@[a].0 != fd by {
                            let p = fds@.subrange(0, i as int);
                            if out@[a].0 == fd {
                                let j = choose|j: int| 0 <= j < p.len() && p[j] == fd;
                                assert(fds@[j] == fds@[i as int]);
                            }
                        }
                        assert(bits == ready_bits(m, epfd, fd));
                        insert_by_fd(&mut out, (fd, bits as i32));
                    }
                },
                None => {},
            }
            proof {
                let p = fds@.subrange(0, i as int);
                let q = fds@.subrange(0, i + 1);
                assert(q =~= p.push(fd));
                assert forall|a: int| 0 <= a < out@.len() implies is_ready(m, epfd, #[trigger] out@[a].0) && out@[a].1
                    == ready_bits(m, epfd, out@[a].0) as i32 && q.contains(out@[a].0) by {
                    let y = out@[a];
                    assert(out@.contains(y));
                    if before.contains(y) {
                        let b = choose|b: int| 0 <= b < before.len() && before[b] == y;
                        let j = choose|j: int| 0 <= j < p.len() && p[j] == y.0;
                        assert(q[j] == y.0);
                    } else {
                        assert(q[i as int] == fd);
                    }
                }
                assert forall|a: int| 0 <= a < i + 1 && is_ready(m, epfd, #[trigger] fds@[a]) implies exists|b: int|
                    0 <= b < out@.len() && out@[b].0 == fds@[a] by {
                    if a < i {
                        if is_ready(m, epfd, fds@[a]) {
                            let b = choose|b: int| 0 <= b < before.len() && before[b].0 == fds@[a];
                            assert(before.contains(before[b]));
                            assert(out@.contains(before[b]));
                            let c = choose|c: int| 0 <= c < out@.len() && out@[c] == before[b];
                        }
                    } else {
                        if is_ready(m, epfd, fds@[a]) {
                            let y = (fd, ready_bits(m, epfd, fd) as i32);
                            assert(out@.contains(y));
                            let c = choose|c: int| 0 <= c < out@.len() && out@[c] == y;
                        }
                    }
                }
            }
            i = i + 1;
        }
        proof {
            assert forall|fd: i32| is_ready(m, epfd, fd) implies exists|b: int| 0 <= b < out@.len() && #[trigger] out@[b].0 == fd by {
                assert(fds@.to_set().contains(fd));
                let a = choose|a: int| 0 <= a < fds@.len() && fds@[a] == fd;
                assert(is_ready(m, epfd, fds@[a]));
            }
        }
        Ok(out)
    }

    /// Waits until an epoll descriptor reports ready descriptors or the
    /// timeout (milliseconds; negative waits without bound) passes.
    ///
    /// The table is borrowed for the whole call, so readiness cannot change
    /// while it waits: the call answers with the ready list, which is empty
    /// when nothing is ready and the timeout is not negative. With nothing
    /// ready and no bound it would never return, which the precondition
    /// leaves out.
    pub fn ep_wait_ready(&mut self, epfd: i32, timeout_ms: i32) -> (r: Result<Vec<(i32, i32)>, i32>)
        requires
            timeout_ms >= 0 || !is_open_epoll(old(self).spec_entries(), epfd) || exists|fd: i32|
                is_ready(old(self).spec_entries(), epfd, fd),
        ensures
            final(self).spec_next_fd() == old(self).spec_next_fd(),
            final(self).spec_entries() == old(self).spec_entries(),
            match r {
                Ok(v) => is_open_epoll(old(self).spec_entries(), epfd) && ready_list_ok(
                    old(self).spec_entries(),
                    epfd,
                    v@,
                ),
                Err(e) => e == -EBADF && !is_open_epoll(old(self).spec_entries(), epfd),
            },
    {
        self.ep_ready_events(epfd)
    }
}

/// The keys of an interest list, each once.
pub fn list_map_keys(m: &std::collections::HashMap<i32, PollEvents>) -> (r: Vec<i32>)
    ensures
        r@.to_set() == m@.dom(),
        r@.no_duplicates(),
{
    let mut out: Vec<i32> = Vec::new();
    let ghost ks = vstd::std_specs::hash::spec_keys_iter(m).remaining();
    for k in it: m.keys()
        invariant
            it.seq() == ks,
            out@.len() == it.index(),
            forall|j: int| 0 <= j < it.index() ==> out@[j] == *ks[j],
    {
        out.push(*k);
    }
    proof {
        assert(out@ =~= ks.unref());
    }
    out
}

/// The table after entry `e` is stored under `fd` and, when its readiness
/// mask differs from `old_mask`, the epoll descriptors watching it are
/// notified.
pub open spec fn table_after_store(m: Map<i32, FdEntry>, fd: i32, e: FdEntry, old_mask: u32) -> Map<i32, FdEntry> {
    if e.poll_mask.0 != old_mask {
        notified(m.insert(fd, e), e.watchers@)
    } else {
        m.insert(fd, e)
    }
}

impl FdTable {
    /// Stores `e` under `fd` and notifies its watchers when its readiness
    /// changed from `old_mask`.
    pub(crate) fn store_entry(&mut self, fd: i32, e: FdEntry, old_mask: PollEvents)
        ensures
            final(self).spec_next_fd() == old(self).spec_next_fd(),
            final(self).spec_entries() == table_after_store(old(self).spec_entries(), fd, e, old_mask.0),
    {
        let changed = e.poll_mask.bits() != old_mask.bits();
        let ghost ew = e.watchers@;
        self.put(fd, e);
        if changed {
            self.notify_watchers(fd);
        }
    }
}

/// Storing an entry back after taking it out is storing it in place.
pub proof fn lemma_store_back(m: Map<i32, FdEntry>, fd: i32, e: FdEntry, old_mask: u32)
    requires
        m.contains_key(fd),
    ensures
        table_after_store(m.remove(fd), fd, e, old_mask) == table_after_store(m, fd, e, old_mask),
{
    assert(m.remove(fd).insert(fd, e) =~= m.insert(fd, e));
}

/// The elements of a set of descriptors, each once.
pub fn set_to_vec(s: &HashSet<i32>) -> (r: Vec<i32>)
    ensures
        r@.to_set() == s@,
        r@.no_duplicates(),
{
    let mut out: Vec<i32> = Vec::new();
    let ghost ks = vstd::std_specs::hash::spec_hash_keys_iter(s).remaining();
    for k in it: s.iter()
        invariant
            it.seq() == ks,
            out@.len() == it.index(),
            forall|j: int| 0 <= j < it.index() ==> out@[j] == *ks[j],
    {
        out.push(*k);
    }
    proof {
        assert(out@ =~= ks.unref());
    }
    out
}

} // verus!

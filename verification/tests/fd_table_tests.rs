use spear_exec::fd_table::{FdTable, EP_CTL_ADD, EP_CTL_DEL, EP_CTL_MOD, FD_CTL_GET_FLAGS, FD_CTL_GET_KIND, FD_CTL_SET_FLAGS};
use spear_exec::fd_ctl::FdCtlReply;
use spear_exec::errno::{EBADF, EINVAL};
use spear_exec::host::DefaultHostApi;
use spear_exec::json::JsonValue;
use spear_exec::poll::{FdFlags, FdKind, PollEvents};
use spear_exec::types::{ChatResponseState, EpollState, FdEntry, FdInner};
use std::collections::HashSet;

fn response_entry(mask: PollEvents, closed: bool) -> FdEntry {
    FdEntry {
        kind: FdKind::ChatResponse,
        flags: FdFlags::default(),
        poll_mask: mask,
        watchers: HashSet::new(),
        closed,
        inner: FdInner::ChatResponse(ChatResponseState::default()),
    }
}

#[test]
fn test_ep_wait_sorted_dedup() {
    let mut table = FdTable::new(1000);
    let epfd = table.ep_create();
    let fd1 = table.allocate(response_entry(PollEvents::IN(), false));
    let fd2 = table.allocate(response_entry(PollEvents::IN(), false));

    assert_eq!(table.ep_ctl(epfd, EP_CTL_ADD, fd2, PollEvents::IN()), 0);
    assert_eq!(table.ep_ctl(epfd, EP_CTL_ADD, fd1, PollEvents::IN()), 0);

    let ready = table.ep_wait_ready(epfd, 0).unwrap();
    assert_eq!(ready.len(), 2);
    assert!(ready[0].0 < ready[1].0);
    assert!(ready.iter().any(|(fd, _)| *fd == fd1));
    assert!(ready.iter().any(|(fd, _)| *fd == fd2));
}

#[test]
fn test_ep_wait_timeout_empty() {
    let mut table = FdTable::new(1000);
    let epfd = table.ep_create();
    let fd = table.allocate(response_entry(PollEvents::EMPTY(), false));
    assert_eq!(table.ep_ctl(epfd, EP_CTL_ADD, fd, PollEvents::IN()), 0);
    let ready = table.ep_wait_ready(epfd, 5).unwrap();
    assert!(ready.is_empty());
}

#[test]
fn test_ep_close_unregisters_watchers() {
    let mut table = FdTable::new(1000);
    let epfd = table.allocate(FdEntry {
        kind: FdKind::Epoll,
        flags: FdFlags::default(),
        poll_mask: PollEvents::EMPTY(),
        watchers: HashSet::new(),
        closed: false,
        inner: FdInner::Epoll(EpollState::new()),
    });
    let fd = table.allocate(response_entry(PollEvents::EMPTY(), false));
    assert_eq!(table.ep_ctl(epfd, EP_CTL_ADD, fd, PollEvents::IN()), 0);
    assert_eq!(table.watchers_of(fd).unwrap(), vec![epfd]);
    assert_eq!(table.close(epfd), 0);

    let watchers = table.watchers_of(fd).unwrap();
    assert!(!watchers.contains(&epfd));
}

#[test]
fn fd_entry_effective_poll_mask_adds_hup_when_closed() {
    let e = response_entry(PollEvents::IN(), true);
    assert!(e.effective_poll_mask().intersects(PollEvents::IN()));
    assert!(e.effective_poll_mask().intersects(PollEvents::HUP()));
}

#[test]
fn test_cchat_response_fd_is_epollin() {
    let mut api = DefaultHostApi::new();

    let epfd = api.spear_ep_create();
    let sess_fd = api.cchat_create();
    assert_eq!(api.cchat_write_msg(sess_fd, "user".to_string(), "hello".to_string()), 0);
    let resp_fd = api.cchat_send_begin(sess_fd).unwrap();
    api.cchat_put_response(resp_fd, b"{\"ok\":true}".to_vec(), Vec::new()).unwrap();

    assert_eq!(api.spear_ep_ctl(epfd, EP_CTL_ADD, resp_fd, PollEvents::IN().bits() as i32), 0);
    let ready = api.spear_ep_wait_ready(epfd, 0).unwrap();
    assert!(ready
        .iter()
        .any(|(fd, ev)| *fd == resp_fd && ((*ev as u32) & PollEvents::IN().bits()) != 0));
}

#[test]
fn test_close_makes_epollhup() {
    let mut api = DefaultHostApi::new();

    let epfd = api.spear_ep_create();
    let sess_fd = api.cchat_create();
    assert_eq!(api.cchat_write_msg(sess_fd, "user".to_string(), "hello".to_string()), 0);
    let resp_fd = api.cchat_send_begin(sess_fd).unwrap();
    api.cchat_put_response(resp_fd, b"{\"ok\":true}".to_vec(), Vec::new()).unwrap();
    assert_eq!(
        api.spear_ep_ctl(epfd, EP_CTL_ADD, resp_fd, PollEvents::IN().or(PollEvents::HUP()).bits() as i32),
        0
    );

    assert_eq!(api.cchat_close(resp_fd), 0);
    let ready = api.spear_ep_wait_ready(epfd, 0).unwrap();
    assert!(ready
        .iter()
        .any(|(fd, ev)| *fd == resp_fd && ((*ev as u32) & PollEvents::HUP().bits()) != 0));
}

#[test]
fn ep_ctl_rejects_bad_requests() {
    let mut table = FdTable::new(10);
    let epfd = table.ep_create();
    let fd = table.allocate(response_entry(PollEvents::IN(), false));
    // The same descriptor on both sides.
    assert_eq!(table.ep_ctl(epfd, EP_CTL_ADD, epfd, PollEvents::IN()), -EINVAL);
    // Unknown descriptors.
    assert_eq!(table.ep_ctl(epfd, EP_CTL_ADD, 999, PollEvents::IN()), -EBADF);
    assert_eq!(table.ep_ctl(999, EP_CTL_ADD, fd, PollEvents::IN()), -EBADF);
    // The watched descriptor is not an epoll descriptor.
    assert_eq!(table.ep_ctl(fd, EP_CTL_ADD, epfd, PollEvents::IN()), -EBADF);
    // Unknown operation.
    assert_eq!(table.ep_ctl(epfd, 99, fd, PollEvents::IN()), -EINVAL);
}

#[test]
fn ep_add_then_del_leaves_no_watch() {
    let mut table = FdTable::new(10);
    let epfd = table.ep_create();
    let fd = table.allocate(response_entry(PollEvents::IN(), false));
    assert_eq!(table.ep_ctl(epfd, EP_CTL_ADD, fd, PollEvents::IN()), 0);
    assert_eq!(table.ep_ctl(epfd, EP_CTL_MOD, fd, PollEvents::OUT()), 0);
    // Interest moved to OUT: an IN-only descriptor is not ready.
    assert!(table.ep_wait_ready(epfd, 0).unwrap().is_empty());
    assert_eq!(table.ep_ctl(epfd, EP_CTL_DEL, fd, PollEvents::EMPTY()), 0);
    assert!(table.watchers_of(fd).unwrap().is_empty());
    assert!(table.ep_wait_ready(epfd, 0).unwrap().is_empty());
}

#[test]
fn ep_wait_on_unknown_descriptor_is_ebadf() {
    let mut table = FdTable::new(10);
    assert_eq!(table.ep_wait_ready(42, 0), Err(-EBADF));
}

#[test]
fn descriptors_are_numbered_from_the_start() {
    let mut table = FdTable::new(7);
    assert_eq!(table.allocate(response_entry(PollEvents::EMPTY(), false)), 7);
    assert_eq!(table.ep_create(), 8);
    assert_eq!(table.close(100), -EBADF);
    assert_eq!(table.close(7), 0);
    // A second close of an entry already closed is accepted.
    assert_eq!(table.close(7), 0);
}

#[test]
fn fd_ctl_sets_and_reads_flags() {
    let mut table = FdTable::new(1);
    let fd = table.allocate(response_entry(PollEvents::EMPTY(), false));
    let req = JsonValue::Object(vec![(
        "set".to_string(),
        JsonValue::Array(vec![JsonValue::Str("O_NONBLOCK".to_string())]),
    )]);
    assert!(matches!(table.fd_ctl(fd, FD_CTL_SET_FLAGS, Some(&req), None), Ok(None)));
    match table.fd_ctl(fd, FD_CTL_GET_FLAGS, None, None) {
        Ok(Some(FdCtlReply::Json(v))) => {
            let flags = v.get("flags").expect("flags member");
            match flags {
                JsonValue::Array(a) => {
                    assert_eq!(a.len(), 1);
                    assert_eq!(a[0].as_str(), Some("O_NONBLOCK"));
                },
                other => panic!("unexpected flags document {:?}", other),
            }
        },
        other => panic!("unexpected reply {:?}", other),
    }
    match table.fd_ctl(fd, FD_CTL_GET_KIND, None, None) {
        Ok(Some(FdCtlReply::Json(v))) => {
            assert_eq!(v.get("kind").and_then(|k| k.as_str()), Some("ChatResponse"));
        },
        other => panic!("unexpected reply {:?}", other),
    }
    assert_eq!(table.fd_ctl(fd, FD_CTL_SET_FLAGS, None, None).unwrap_err(), -EINVAL);
    assert_eq!(table.fd_ctl(fd, 77, None, None).unwrap_err(), -EINVAL);
    assert_eq!(table.fd_ctl(555, FD_CTL_GET_FLAGS, None, None).unwrap_err(), -EBADF);
}

use spear_exec::errno::{SPEAR_EAGAIN, SPEAR_EBADF, SPEAR_EINVAL, SPEAR_ENOTCONN, SPEAR_EPIPE};
use spear_exec::fd_table::FdTable;
use spear_exec::host::DefaultHostApi;
use spear_exec::user_stream::{
    encode_ctl_event, map_ws_close_to_channels, ws_pop_any_outbound, ws_push_frame, UserStreamHubs,
};

#[test]
fn test_ws_push_frame_rejects_invalid_frame() {
    // A three-byte frame has no valid header; reading it reports -EINVAL.
    let mut hubs = UserStreamHubs::new();
    let mut table = FdTable::new(1000);
    let rc = ws_push_frame(&mut hubs, &mut table, "exec-1", Err(-SPEAR_EINVAL), vec![1, 2, 3]);
    assert!(rc < 0);
}

#[test]
fn test_ws_push_frame_rejects_unknown_execution() {
    let mut hubs = UserStreamHubs::new();
    let mut table = FdTable::new(1000);
    let rc = ws_push_frame(&mut hubs, &mut table, "exec-unknown", Ok((1, 2)), b"hello".to_vec());
    assert_eq!(rc, -SPEAR_ENOTCONN);
}

#[test]
fn ctl_events_are_little_endian() {
    assert_eq!(encode_ctl_event(0x0102_0304, 1), [4, 3, 2, 1, 1, 0, 0, 0]);
    assert_eq!(encode_ctl_event(0, 2), [0, 0, 0, 0, 2, 0, 0, 0]);
}

#[test]
fn user_stream_round_trip() {
    let mut host = DefaultHostApi::new();
    let mut hubs = UserStreamHubs::new();
    assert_eq!(host.user_stream_open(&mut hubs, None, 1, 3), -SPEAR_ENOTCONN);
    assert_eq!(host.user_stream_open(&mut hubs, Some("exec-1"), -1, 3), -SPEAR_EINVAL);
    assert_eq!(host.user_stream_open(&mut hubs, Some("exec-1"), 1, 9), -SPEAR_EINVAL);
    let fd = host.user_stream_open(&mut hubs, Some("exec-1"), 7, 3);
    assert_eq!(fd, 1000);
    let ctl = host.user_stream_ctl_open(&mut hubs, Some("exec-1"));
    assert_eq!(ctl, 1001);

    // Nothing inbound yet; writing before the peer connects fails.
    assert_eq!(host.user_stream_read(&mut hubs, fd), Err(-SPEAR_EAGAIN));
    assert_eq!(host.user_stream_write(&mut hubs, fd, b"out", Ok((7, 1))), -SPEAR_ENOTCONN);
    // A frame for another stream id is refused.
    assert_eq!(host.user_stream_write(&mut hubs, fd, b"out", Ok((8, 1))), -SPEAR_EINVAL);

    // The peer sends a frame on stream 7: it connects and the frame queues.
    let rc = ws_push_frame(&mut hubs, &mut host.fd_table, "exec-1", Ok((7, 2)), b"in-1".to_vec());
    assert_eq!(rc, 0);
    assert_eq!(host.user_stream_ctl_read(ctl), Ok(encode_ctl_event(7, 1)));
    assert_eq!(host.user_stream_ctl_read(ctl), Err(-SPEAR_EAGAIN));
    assert_eq!(host.user_stream_read(&mut hubs, fd), Ok(b"in-1".to_vec()));
    assert_eq!(host.user_stream_read(&mut hubs, fd), Err(-SPEAR_EAGAIN));

    // The guest writes; the peer takes it.
    assert_eq!(host.user_stream_write(&mut hubs, fd, b"out-1", Ok((7, 1))), 0);
    assert_eq!(ws_pop_any_outbound(&mut hubs, &mut host.fd_table, "exec-1"), Some(b"out-1".to_vec()));
    assert_eq!(ws_pop_any_outbound(&mut hubs, &mut host.fd_table, "exec-1"), None);

    // The session closes: writes fail, the control descriptor hears it.
    map_ws_close_to_channels(&mut hubs, &mut host.fd_table, "exec-1");
    assert_eq!(host.user_stream_write(&mut hubs, fd, b"late", Ok((7, 1))), -SPEAR_EPIPE);
    assert_eq!(host.user_stream_ctl_read(ctl), Ok(encode_ctl_event(0, 2)));
    assert_eq!(ws_push_frame(&mut hubs, &mut host.fd_table, "exec-1", Ok((7, 2)), b"x".to_vec()), -SPEAR_ENOTCONN);

    assert_eq!(host.user_stream_close(&mut hubs, fd), 0);
    assert_eq!(host.user_stream_read(&mut hubs, fd), Err(-SPEAR_EBADF));
    assert_eq!(host.user_stream_close(&mut hubs, 4242), -SPEAR_EBADF);
}

#[test]
fn inbound_frame_limits() {
    let mut host = DefaultHostApi::new();
    let mut hubs = UserStreamHubs::new();
    let fd = host.user_stream_open(&mut hubs, Some("e"), 1, 1);
    assert!(fd >= 0);
    let big = vec![0u8; 256 * 1024 + 1];
    assert_eq!(ws_push_frame(&mut hubs, &mut host.fd_table, "e", Ok((1, 2)), big), -SPEAR_EINVAL);
    // Writing on an inbound-only stream is refused.
    assert_eq!(host.user_stream_write(&mut hubs, fd, b"x", Ok((1, 1))), -SPEAR_EINVAL);
}

#[test]
fn old_descriptors_keep_their_closed_channel_after_a_reopen() {
    let mut host = DefaultHostApi::new();
    let mut hubs = UserStreamHubs::new();
    let old_fd = host.user_stream_open(&mut hubs, Some("exec-r"), 5, 3);
    assert_eq!(ws_push_frame(&mut hubs, &mut host.fd_table, "exec-r", Ok((5, 2)), b"kept".to_vec()), 0);

    // The session closes; its hub leaves the open sessions.
    map_ws_close_to_channels(&mut hubs, &mut host.fd_table, "exec-r");
    assert_eq!(ws_pop_any_outbound(&mut hubs, &mut host.fd_table, "exec-r"), None);
    assert_eq!(ws_push_frame(&mut hubs, &mut host.fd_table, "exec-r", Ok((5, 2)), b"x".to_vec()), -SPEAR_ENOTCONN);

    // A new session for the same execution and stream id.
    let new_fd = host.user_stream_open(&mut hubs, Some("exec-r"), 5, 3);
    assert_eq!(ws_push_frame(&mut hubs, &mut host.fd_table, "exec-r", Ok((5, 2)), b"fresh".to_vec()), 0);
    assert_eq!(host.user_stream_write(&mut hubs, new_fd, b"out", Ok((5, 1))), 0);

    // The old descriptor stays on its closed channel.
    assert_eq!(host.user_stream_write(&mut hubs, old_fd, b"late", Ok((5, 1))), -SPEAR_EPIPE);
    assert_eq!(host.user_stream_read(&mut hubs, old_fd), Ok(b"kept".to_vec()));
    assert_eq!(host.user_stream_read(&mut hubs, new_fd), Ok(b"fresh".to_vec()));
    assert!(host.spear_fd_ctl_with_streams(&mut hubs, old_fd, spear_exec::fd_table::FD_CTL_GET_METRICS, None).is_ok());
}

use spear_exec::errno::{SPEAR_EAGAIN, SPEAR_EBADF, SPEAR_EINVAL};
use spear_exec::fd_table::EP_CTL_ADD;
use spear_exec::host::DefaultHostApi;
use spear_exec::json::{JsonNumber, JsonValue};
use spear_exec::poll::PollEvents;
use spear_exec::rtasr::{
    CtlPayload, RTASR_CTL_CLEAR, RTASR_CTL_CONNECT, RTASR_CTL_FLUSH, RTASR_CTL_GET_AUTOFLUSH, RTASR_CTL_GET_STATUS,
    RTASR_CTL_SEND_EVENT, RTASR_CTL_SET_AUTOFLUSH, RTASR_CTL_SET_PARAM,
};
use spear_exec::rtasr_ctl::{RtAsrConnectPlan, RtAsrCtlOutcome};

fn s(t: &str) -> JsonValue {
    JsonValue::Str(t.to_string())
}

fn n(v: u64) -> JsonValue {
    JsonValue::Number(JsonNumber::PosInt(v))
}

fn obj(members: Vec<(&str, JsonValue)>) -> JsonValue {
    JsonValue::Object(members.into_iter().map(|(k, v)| (k.to_string(), v)).collect())
}

fn payload(v: JsonValue, text: &str) -> CtlPayload {
    CtlPayload { value: v, text: text.to_string() }
}

fn reply(r: Result<RtAsrCtlOutcome, i32>) -> JsonValue {
    match r {
        Ok(RtAsrCtlOutcome::Reply(v)) => v,
        other => panic!("expected a reply, got {:?}", other),
    }
}

fn u64_at(v: &JsonValue, path: &[&str]) -> Option<u64> {
    let mut cur = v;
    for p in path {
        cur = cur.get(p)?;
    }
    cur.as_u64()
}

fn str_at<'a>(v: &'a JsonValue, path: &[&str]) -> Option<&'a str> {
    let mut cur = v;
    for p in path {
        cur = cur.get(p)?;
    }
    cur.as_str()
}

#[test]
fn test_rtasr_write_backpressure_and_epollout() {
    let mut api = DefaultHostApi::new();

    let epfd = api.spear_ep_create();
    let fd = api.rtasr_create(0);

    let cfg = payload(
        obj(vec![("key", s("max_send_queue_bytes")), ("value", n(16))]),
        "{\"key\":\"max_send_queue_bytes\",\"value\":16}",
    );
    let _ = api.rtasr_ctl(fd, 1, Some(&cfg), 0).unwrap();

    assert_eq!(api.spear_ep_ctl(epfd, EP_CTL_ADD, fd, PollEvents::OUT().bits() as i32), 0);
    let ready = api.spear_ep_wait_ready(epfd, 0).unwrap();
    assert!(ready
        .iter()
        .any(|(rfd, ev)| *rfd == fd && ((*ev as u32) & PollEvents::OUT().bits()) != 0));

    let bytes = vec![1u8; 16];
    assert_eq!(api.rtasr_write(fd, &bytes, 1), 16);
    let ready2 = api.spear_ep_wait_ready(epfd, 0).unwrap();
    assert!(ready2.is_empty());

    let one = vec![2u8; 1];
    assert_eq!(api.rtasr_write(fd, &one, 2), -SPEAR_EAGAIN);
}

#[test]
fn test_rtasr_autoflush_set_and_get() {
    let mut api = DefaultHostApi::new();

    let fd = api.rtasr_create(0);
    let cfg = obj(vec![
        ("strategy", s("client_commit")),
        ("flush_on_close", JsonValue::Bool(false)),
        ("client_commit", obj(vec![("max_buffer_bytes", n(123)), ("min_flush_gap_ms", n(7))])),
    ]);
    let p = payload(cfg, "");
    api.rtasr_ctl(fd, 7, Some(&p), 0).unwrap();
    let v = reply(api.rtasr_ctl(fd, 8, None, 0));
    assert_eq!(str_at(&v, &["strategy"]), Some("client_commit"));
    assert_eq!(u64_at(&v, &["client_commit", "max_buffer_bytes"]), Some(123));
    assert_eq!(u64_at(&v, &["client_commit", "min_flush_gap_ms"]), Some(7));
}

#[test]
fn test_rtasr_autoflush_legacy_payload_is_accepted() {
    let mut api = DefaultHostApi::new();

    let fd = api.rtasr_create(0);
    let cfg = obj(vec![
        ("enabled", JsonValue::Bool(true)),
        ("mode", s("bytes")),
        ("max_buffer_bytes", n(123)),
        ("min_flush_gap_ms", n(7)),
        ("flush_on_close", JsonValue::Bool(false)),
    ]);
    let p = payload(cfg, "");
    api.rtasr_ctl(fd, 7, Some(&p), 0).unwrap();
    let v = reply(api.rtasr_ctl(fd, 8, None, 0));
    assert_eq!(str_at(&v, &["strategy"]), Some("client_commit"));
    assert_eq!(u64_at(&v, &["client_commit", "max_buffer_bytes"]), Some(123));
}

#[test]
fn test_rtasr_default_segmentation_is_server_vad() {
    let mut api = DefaultHostApi::new();

    let fd = api.rtasr_create(0);
    let v = reply(api.rtasr_ctl(fd, 8, None, 0));
    assert_eq!(str_at(&v, &["strategy"]), Some("server_vad"));
    assert_eq!(u64_at(&v, &["vad", "silence_ms"]), Some(500));
}

#[test]
fn rtasr_ctl_rejects_bad_requests() {
    let mut api = DefaultHostApi::new();
    let fd = api.rtasr_create(0);
    assert_eq!(api.rtasr_ctl(999, RTASR_CTL_GET_STATUS, None, 0).unwrap_err(), -SPEAR_EBADF);
    assert_eq!(api.rtasr_ctl(fd, 99, None, 0).unwrap_err(), -SPEAR_EINVAL);
    assert_eq!(api.rtasr_ctl(fd, RTASR_CTL_SET_PARAM, None, 0).unwrap_err(), -SPEAR_EINVAL);
    // A parameter request without a key.
    let p = payload(obj(vec![("value", n(1))]), "{\"value\":1}");
    assert_eq!(api.rtasr_ctl(fd, RTASR_CTL_SET_PARAM, Some(&p), 0).unwrap_err(), -SPEAR_EINVAL);
    assert_eq!(api.rtasr_ctl(fd, RTASR_CTL_SET_AUTOFLUSH, None, 0).unwrap_err(), -SPEAR_EINVAL);
    // Another kind of descriptor.
    let chat = api.cchat_create();
    assert_eq!(api.rtasr_ctl(chat, RTASR_CTL_GET_STATUS, None, 0).unwrap_err(), -SPEAR_EBADF);
}

#[test]
fn rtasr_status_reports_limits_and_state() {
    let mut api = DefaultHostApi::new();
    let fd = api.rtasr_create(0);
    let v = reply(api.rtasr_ctl(fd, RTASR_CTL_GET_STATUS, None, 0));
    assert_eq!(str_at(&v, &["state"]), Some("Init"));
    assert_eq!(u64_at(&v, &["send_queue_bytes"]), Some(0));
    assert_eq!(u64_at(&v, &["dropped_events"]), Some(0));
    let p = payload(obj(vec![("key", s("max_recv_queue_bytes")), ("value", n(64))]), "");
    assert!(matches!(api.rtasr_ctl(fd, RTASR_CTL_SET_PARAM, Some(&p), 0), Ok(RtAsrCtlOutcome::Done)));
    let v = reply(api.rtasr_ctl(fd, RTASR_CTL_GET_STATUS, None, 0));
    assert_eq!(u64_at(&v, &["max_recv_queue_bytes"]), Some(64));
    assert_eq!(str_at(&v, &["state"]), Some("Configured"));
}

#[test]
fn rtasr_connect_plans_stub_then_nothing() {
    let mut api = DefaultHostApi::new();
    let fd = api.rtasr_create(0);
    match api.rtasr_ctl(fd, RTASR_CTL_CONNECT, None, 0) {
        Ok(RtAsrCtlOutcome::Connect(RtAsrConnectPlan::Stub)) => {},
        other => panic!("unexpected {:?}", other),
    }
    assert!(matches!(api.rtasr_ctl(fd, RTASR_CTL_CONNECT, None, 0), Ok(RtAsrCtlOutcome::Done)));
    let v = reply(api.rtasr_ctl(fd, RTASR_CTL_GET_STATUS, None, 0));
    assert_eq!(str_at(&v, &["state"]), Some("Connected"));
}

#[test]
fn rtasr_connect_plans_websocket_with_overrides() {
    let mut api = DefaultHostApi::new();
    let fd = api.rtasr_create(0);
    let t = payload(obj(vec![("key", s("transport")), ("value", s("websocket"))]), "");
    api.rtasr_ctl(fd, RTASR_CTL_SET_PARAM, Some(&t), 0).unwrap();
    let m = payload(obj(vec![("key", s("model")), ("value", s("whisper-x"))]), "");
    api.rtasr_ctl(fd, RTASR_CTL_SET_PARAM, Some(&m), 0).unwrap();
    match api.rtasr_ctl(fd, RTASR_CTL_CONNECT, None, 0) {
        Ok(RtAsrCtlOutcome::Connect(RtAsrConnectPlan::Websocket { backend, model, ws_url, client_secret })) => {
            assert_eq!(backend, None);
            assert_eq!(model.as_deref(), Some("whisper-x"));
            assert_eq!(ws_url, None);
            assert_eq!(client_secret, None);
        },
        other => panic!("unexpected {:?}", other),
    }
}

#[test]
fn rtasr_flush_queues_commit_and_clear_drops() {
    let mut api = DefaultHostApi::new();
    let fd = api.rtasr_create(0);
    assert_eq!(api.rtasr_write(fd, &[1, 2, 3, 4], 5), 4);
    assert!(matches!(api.rtasr_ctl(fd, RTASR_CTL_FLUSH, None, 6), Ok(RtAsrCtlOutcome::Done)));
    let before = u64_at(&reply(api.rtasr_ctl(fd, RTASR_CTL_GET_STATUS, None, 6)), &["send_queue_bytes"]).unwrap();
    // The audio and the commit event are queued.
    assert!(before > 4);
    assert!(matches!(api.rtasr_ctl(fd, RTASR_CTL_CLEAR, None, 7), Ok(RtAsrCtlOutcome::Done)));
    let after = u64_at(&reply(api.rtasr_ctl(fd, RTASR_CTL_GET_STATUS, None, 7)), &["send_queue_bytes"]).unwrap();
    assert!(after > before);
    let ev = payload(obj(vec![("type", s("session.update"))]), "{\"type\":\"session.update\"}");
    assert!(matches!(api.rtasr_ctl(fd, RTASR_CTL_SEND_EVENT, Some(&ev), 8), Ok(RtAsrCtlOutcome::Done)));
    let last = u64_at(&reply(api.rtasr_ctl(fd, RTASR_CTL_GET_STATUS, None, 8)), &["send_queue_bytes"]).unwrap();
    assert_eq!(last, after + "{\"type\":\"session.update\"}".len() as u64);
}

#[test]
fn rtasr_read_returns_events_in_order() {
    let mut api = DefaultHostApi::new();
    let fd = api.rtasr_create(0);
    assert_eq!(api.rtasr_read(fd), Err(-SPEAR_EAGAIN));
    api.rtasr_push_event(fd, b"one".to_vec());
    api.rtasr_push_event(fd, b"two".to_vec());
    assert_eq!(api.rtasr_read(fd), Ok(b"one".to_vec()));
    assert_eq!(api.rtasr_read(fd), Ok(b"two".to_vec()));
    assert_eq!(api.rtasr_read(fd), Err(-SPEAR_EAGAIN));
    assert_eq!(api.rtasr_read(12345), Err(-SPEAR_EBADF));
}

#[test]
fn rtasr_close_then_io_fails() {
    let mut api = DefaultHostApi::new();
    let fd = api.rtasr_create(0);
    assert_eq!(api.rtasr_close(fd), 0);
    assert_eq!(api.rtasr_write(fd, &[1], 1), -SPEAR_EBADF);
    assert_eq!(api.rtasr_close(4242), -SPEAR_EBADF);
}

#[test]
fn test_rtasr_read_epollin_and_eagain() {
    let mut api = DefaultHostApi::new();

    let epfd = api.spear_ep_create();
    let fd = api.rtasr_create(0);
    assert_eq!(
        api.spear_ep_ctl(epfd, EP_CTL_ADD, fd, PollEvents::IN().or(PollEvents::ERR()).or(PollEvents::HUP()).bits() as i32),
        0
    );

    let cfg = payload(
        obj(vec![("key", s("stub_event_interval_ms")), ("value", n(20))]),
        "{\"key\":\"stub_event_interval_ms\",\"value\":20}",
    );
    let _ = api.rtasr_ctl(fd, 1, Some(&cfg), 0).unwrap();
    assert!(matches!(api.rtasr_ctl(fd, 2, None, 0), Ok(RtAsrCtlOutcome::Connect(RtAsrConnectPlan::Stub))));

    // The stand-in steps every 10 ms; after 20 ms an event is due.
    let mut last = 0u64;
    for t in [10u64, 20, 30] {
        last = api.rtasr_stub_tick(fd, t, last).unwrap();
    }
    let ready = api.spear_ep_wait_ready(epfd, 0).unwrap();
    assert!(ready.iter().any(|(rfd, ev)| *rfd == fd && ((*ev as u32) & PollEvents::IN().bits()) != 0));

    let mut got_one = false;
    for _ in 0..20 {
        match api.rtasr_read(fd) {
            Ok(bytes) => {
                got_one = true;
                let text = String::from_utf8(bytes).unwrap();
                assert!(text.contains("\"type\""));
            },
            Err(e) => {
                assert_eq!(e, -SPEAR_EAGAIN);
                break;
            },
        }
    }
    assert!(got_one);
}

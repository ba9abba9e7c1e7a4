use spear_exec::errno::{SPEAR_EAGAIN, SPEAR_EBADF, SPEAR_EINVAL};
use spear_exec::fd_table::EP_CTL_ADD;
use spear_exec::host::DefaultHostApi;
use spear_exec::json::{JsonNumber, JsonValue};
use spear_exec::mic::{MicCtlOutcome, MicStubStep, MIC_CTL_GET_STATUS, MIC_CTL_SET_PARAM};
use spear_exec::poll::PollEvents;

fn s(t: &str) -> JsonValue {
    JsonValue::Str(t.to_string())
}

fn n(v: u64) -> JsonValue {
    JsonValue::Number(JsonNumber::PosInt(v))
}

fn obj(members: Vec<(&str, JsonValue)>) -> JsonValue {
    JsonValue::Object(members.into_iter().map(|(k, v)| (k.to_string(), v)).collect())
}

fn expected_frame(pattern: &[u8], offset: usize, len: usize) -> Vec<u8> {
    let mut out = Vec::new();
    let mut idx = offset % pattern.len();
    while out.len() < len {
        let remain = len - out.len();
        let chunk = std::cmp::min(remain, pattern.len() - idx);
        out.extend_from_slice(&pattern[idx..idx + chunk]);
        idx = (idx + chunk) % pattern.len();
    }
    out
}

#[test]
fn test_mic_stub_pcm16_base64_loops() {
    let mut api = DefaultHostApi::new();
    let epfd = api.spear_ep_create();
    let fd = api.mic_create();
    assert_eq!(api.spear_ep_ctl(epfd, EP_CTL_ADD, fd, PollEvents::IN().bits() as i32), 0);

    // [1, 0, 2, 0, 3, 0, 4, 0] in standard base64.
    let pattern: Vec<u8> = vec![1, 0, 2, 0, 3, 0, 4, 0];
    let cfg = obj(vec![
        ("sample_rate_hz", n(1000)),
        ("channels", n(1)),
        ("format", s("pcm16")),
        ("frame_ms", n(10)),
        ("source", s("stub")),
        ("stub_pcm16_base64", s("AQACAAMABAA=")),
    ]);
    let plan = match api.mic_ctl(fd, MIC_CTL_SET_PARAM, Some(&cfg)) {
        Ok(MicCtlOutcome::Start(p)) => p,
        other => panic!("unexpected {:?}", other),
    };
    assert!(!plan.device);
    assert_eq!(plan.config.frame_ms, 10);

    assert!(matches!(api.mic_stub_wait(fd, plan.generation), MicStubStep::Sleep(10)));
    assert!(api.mic_stub_emit(fd, plan.generation));
    let ready = api.spear_ep_wait_ready(epfd, 0).unwrap();
    assert!(ready.iter().any(|(rfd, ev)| *rfd == fd && ((*ev as u32) & PollEvents::IN().bits()) != 0));
    let f1 = api.mic_read(fd).unwrap();
    assert_eq!(f1, expected_frame(&pattern, 0, 20));

    assert!(api.mic_stub_emit(fd, plan.generation));
    let f2 = api.mic_read(fd).unwrap();
    assert_eq!(f2, expected_frame(&pattern, 20, 20));
    assert_eq!(api.mic_read(fd), Err(-SPEAR_EAGAIN));

    // An older generation stops.
    assert!(matches!(api.mic_stub_wait(fd, plan.generation.wrapping_sub(1)), MicStubStep::Stop));
    assert!(!api.mic_stub_emit(fd, plan.generation.wrapping_sub(1)));
}

#[test]
fn mic_invalid_stub_samples_are_rejected() {
    let mut api = DefaultHostApi::new();
    let fd = api.mic_create();
    let cfg = obj(vec![("source", s("stub")), ("stub_pcm16_base64", s("not base64!"))]);
    assert_eq!(api.mic_ctl(fd, MIC_CTL_SET_PARAM, Some(&cfg)).unwrap_err(), -SPEAR_EINVAL);
    // Capture is stopped and the settings kept.
    match api.mic_ctl(fd, MIC_CTL_GET_STATUS, None) {
        Ok(MicCtlOutcome::Reply(v)) => {
            assert_eq!(v.get("running").and_then(|x| x.as_bool()), Some(false));
            let c = v.get("config").unwrap();
            assert_eq!(c.get("sample_rate_hz").and_then(|x| x.as_u64()), Some(24000));
            assert_eq!(c.get("format").and_then(|x| x.as_str()), Some("pcm16"));
        },
        other => panic!("unexpected {:?}", other),
    }
}

#[test]
fn mic_defaults_and_status() {
    let mut api = DefaultHostApi::new();
    let fd = api.mic_create();
    match api.mic_ctl(fd, MIC_CTL_GET_STATUS, None) {
        Ok(MicCtlOutcome::Reply(v)) => {
            assert_eq!(v.get("running").and_then(|x| x.as_bool()), Some(false));
            assert_eq!(v.get("generation").and_then(|x| x.as_u64()), Some(0));
        },
        other => panic!("unexpected {:?}", other),
    }
    let plan = match api.mic_ctl(fd, MIC_CTL_SET_PARAM, Some(&obj(vec![("device", obj(vec![("name", s("mic0"))]))])))
    {
        Ok(MicCtlOutcome::Start(p)) => p,
        other => panic!("unexpected {:?}", other),
    };
    assert!(plan.device);
    assert_eq!(plan.device_name.as_deref(), Some("mic0"));
    assert!(plan.fallback_to_stub);
    assert_eq!(plan.generation, 1);
    assert_eq!(plan.config.sample_rate_hz, 24000);
    assert_eq!(plan.config.channels, 1);
    assert_eq!(plan.config.frame_ms, 20);
    match api.mic_ctl(fd, MIC_CTL_GET_STATUS, None) {
        Ok(MicCtlOutcome::Reply(v)) => {
            assert_eq!(v.get("running").and_then(|x| x.as_bool()), Some(true));
            assert_eq!(v.get("generation").and_then(|x| x.as_u64()), Some(1));
        },
        other => panic!("unexpected {:?}", other),
    }
}

#[test]
fn mic_errors() {
    let mut api = DefaultHostApi::new();
    let fd = api.mic_create();
    assert_eq!(api.mic_ctl(999, MIC_CTL_GET_STATUS, None).unwrap_err(), -SPEAR_EBADF);
    assert_eq!(api.mic_ctl(fd, MIC_CTL_SET_PARAM, None).unwrap_err(), -SPEAR_EINVAL);
    assert_eq!(api.mic_ctl(fd, 42, None).unwrap_err(), -SPEAR_EINVAL);
    assert_eq!(api.mic_read(999), Err(-SPEAR_EBADF));
}

#[test]
fn mic_device_frames_and_close_hup() {
    let mut api = DefaultHostApi::new();
    let epfd = api.spear_ep_create();
    let fd = api.mic_create();
    assert_eq!(
        api.spear_ep_ctl(epfd, EP_CTL_ADD, fd, PollEvents::IN().or(PollEvents::HUP()).or(PollEvents::ERR()).bits() as i32),
        0
    );
    let plan = match api.mic_ctl(fd, MIC_CTL_SET_PARAM, Some(&obj(vec![]))) {
        Ok(MicCtlOutcome::Start(p)) => p,
        other => panic!("unexpected {:?}", other),
    };
    assert!(api.mic_push_frame(fd, plan.generation, vec![9, 9]));
    assert_eq!(api.mic_read(fd), Ok(vec![9, 9]));
    // A failed start is recorded and reported as an error readiness.
    assert_eq!(api.mic_start_failed(fd, "no device".to_string()), -5);
    let ready = api.spear_ep_wait_ready(epfd, 0).unwrap();
    assert!(ready.iter().any(|(rfd, ev)| *rfd == fd && ((*ev as u32) & PollEvents::ERR().bits()) != 0));
    assert_eq!(api.mic_close(fd), 0);
    let ready2 = api.spear_ep_wait_ready(epfd, 0).unwrap();
    assert!(ready2.iter().any(|(rfd, ev)| *rfd == fd && ((*ev as u32) & PollEvents::HUP().bits()) != 0));
}

#[test]
fn test_mic_read_epollin_and_close_hup() {
    let mut api = DefaultHostApi::new();

    let epfd = api.spear_ep_create();
    let mic_fd = api.mic_create();
    assert_eq!(
        api.spear_ep_ctl(epfd, EP_CTL_ADD, mic_fd, PollEvents::IN().or(PollEvents::HUP()).or(PollEvents::ERR()).bits() as i32),
        0
    );

    let mic_cfg = obj(vec![
        ("sample_rate_hz", n(24000)),
        ("channels", n(1)),
        ("format", s("pcm16")),
        ("frame_ms", n(20)),
    ]);
    let plan = match api.mic_ctl(mic_fd, MIC_CTL_SET_PARAM, Some(&mic_cfg)) {
        Ok(MicCtlOutcome::Start(p)) => p,
        other => panic!("unexpected {:?}", other),
    };
    // Device capture falls back to the synthetic source, which runs a step.
    assert!(plan.device && plan.fallback_to_stub);
    assert!(matches!(api.mic_stub_wait(mic_fd, plan.generation), MicStubStep::Sleep(20)));
    assert!(api.mic_stub_emit(mic_fd, plan.generation));

    let ready = api.spear_ep_wait_ready(epfd, 0).unwrap();
    assert!(ready.iter().any(|(rfd, ev)| *rfd == mic_fd && ((*ev as u32) & PollEvents::IN().bits()) != 0));

    let bytes = api.mic_read(mic_fd).unwrap();
    assert!(!bytes.is_empty());
    // 24 kHz, one channel, 20 ms of 16-bit samples.
    assert_eq!(bytes.len(), 960);

    assert_eq!(api.mic_close(mic_fd), 0);
    let ready2 = api.spear_ep_wait_ready(epfd, 0).unwrap();
    assert!(ready2.iter().any(|(rfd, ev)| *rfd == mic_fd && ((*ev as u32) & PollEvents::HUP().bits()) != 0));
}

//! Segmentation settings of realtime ASR descriptors: reading them from a
//! control request (both the current `strategy` form and the older
//! `enabled`/`mode` form) and writing them back as a JSON document.
use vstd::prelude::*;
use crate::errno::EINVAL;
use crate::json::{
    JsonValue, JsonNumber, JsonData, JsonNum, JsonObjectBuilder, json_str, json_u64, str_eq, spec_member, spec_member_index,
    members_upsert, lemma_member_index_bounds, lemma_member_index_same_names,
};
use crate::types::{
    RtAsrSegmentationConfig, RtAsrSegmentationStrategy, RtAsrVadConfig, RtAsrClientCommitConfig,
    RtAsrClientCommitMode, RtAsrVadView, RtAsrSegmentationView, default_vad_threshold_text,
};
use crate::http_adapter::{decimal, decimal_string};

verus! {

/// Member `k` of `o` as a non-negative integer.
pub open spec fn member_u64(o: JsonValue, k: Seq<char>) -> Option<u64> {
    match o.spec_get(k) {
        Some(x) => x.spec_as_u64(),
        None => None,
    }
}

/// Member `k` of `o` as a boolean.
pub open spec fn member_bool(o: JsonValue, k: Seq<char>) -> Option<bool> {
    match o.spec_get(k) {
        Some(x) => x.spec_as_bool(),
        None => None,
    }
}

/// Member `k` of `o` as a string.
pub open spec fn member_str(o: JsonValue, k: Seq<char>) -> Option<Seq<char>> {
    match o.spec_get(k) {
        Some(x) => x.spec_as_str(),
        None => None,
    }
}

/// Member `k` of `o` as a number, kept as written.
pub open spec fn member_num(o: JsonValue, k: Seq<char>) -> Option<JsonNum> {
    match o.spec_get(k) {
        Some(JsonValue::Number(n)) => Some(n@),
        _ => None,
    }
}

/// `x`, or `d` when absent.
pub open spec fn or_u64(x: Option<u64>, d: u64) -> u64 {
    match x {
        Some(n) => n,
        None => d,
    }
}

/// The strategy a name selects.
pub open spec fn strategy_of_name(s: Seq<char>) -> Option<RtAsrSegmentationStrategy> {
    if s == "manual"@ || s == "off"@ {
        Some(RtAsrSegmentationStrategy::Manual)
    } else if s == "server_vad"@ {
        Some(RtAsrSegmentationStrategy::ServerVad)
    } else if s == "client_commit"@ {
        Some(RtAsrSegmentationStrategy::ClientCommit)
    } else {
        None
    }
}

/// An optional integer member as a byte count.
pub open spec fn as_usize_opt(x: Option<u64>) -> Option<usize> {
    match x {
        Some(n) => Some(n as usize),
        None => None,
    }
}

/// The `vad` object of the `strategy` form.
pub open spec fn vad_section(v: JsonValue) -> Result<Option<RtAsrVadView>, i32> {
    match v.spec_get("vad"@) {
        None => Ok(None),
        Some(o) => if o.spec_is_object() {
            Ok(Some(RtAsrVadView {
                silence_ms: or_u64(member_u64(o, "silence_ms"@), 500),
                threshold: match member_num(o, "threshold"@) {
                    Some(t) => Some(float_form(t)),
                    None => None,
                },
                prefix_padding_ms: member_u64(o, "prefix_padding_ms"@),
            }))
        } else {
            Err((-EINVAL) as i32)
        },
    }
}

/// The number the detection threshold `n` is kept as: a floating-point
/// number, as reading it as one and writing it back gives. An integer up to
/// 2^53 in size becomes its decimal text with `.0`; a larger integer and a
/// number written with a fraction or exponent keep the form they were given
/// in.
pub open spec fn float_form(n: JsonNum) -> JsonNum {
    match n {
        JsonNum::PosInt(k) => if k <= 0x20_0000_0000_0000 {
            JsonNum::Float(decimal(k as nat) + ".0"@)
        } else {
            n
        },
        JsonNum::NegInt(k) => if -0x20_0000_0000_0000 <= k < 0 {
            JsonNum::Float("-"@ + decimal((-k) as nat) + ".0"@)
        } else if 0 <= k <= 0x20_0000_0000_0000 {
            JsonNum::Float(decimal(k as nat) + ".0"@)
        } else {
            n
        },
        JsonNum::Float(_) => n,
    }
}

/// The threshold `n` in the form it is kept in (see [`float_form`]).
fn float_form_number(n: JsonNumber) -> (r: JsonNumber)
    ensures
        r@ == float_form(n@),
{
    match n {
        JsonNumber::PosInt(k) => if k <= 0x20_0000_0000_0000 {
            JsonNumber::Float(decimal_string(k).concat(".0"))
        } else {
            JsonNumber::PosInt(k)
        },
        JsonNumber::NegInt(k) => if -0x20_0000_0000_0000 <= k && k < 0 {
            let m: u64 = (-k) as u64;
            JsonNumber::Float(String::from_str("-").concat(decimal_string(m).as_str()).concat(".0"))
        } else if 0 <= k && k <= 0x20_0000_0000_0000 {
            JsonNumber::Float(decimal_string(k as u64).concat(".0"))
        } else {
            JsonNumber::NegInt(k)
        },
        JsonNumber::Float(t) => JsonNumber::Float(t),
    }
}

/// The `client_commit` object of the `strategy` form.
pub open spec fn client_commit_section(v: JsonValue) -> Result<Option<RtAsrClientCommitConfig>, i32> {
    match v.spec_get("client_commit"@) {
        None => Ok(None),
        Some(o) => if o.spec_is_object() {
            Ok(Some(RtAsrClientCommitConfig {
                mode: RtAsrClientCommitMode::Hybrid,
                flush_interval_ms: member_u64(o, "flush_interval_ms"@),
                max_buffer_bytes: as_usize_opt(member_u64(o, "max_buffer_bytes"@)),
                silence_ms: member_u64(o, "silence_ms"@),
                min_flush_gap_ms: or_u64(member_u64(o, "min_flush_gap_ms"@), 500),
            }))
        } else {
            Err((-EINVAL) as i32)
        },
    }
}

/// The settings of the older form, with `enabled`, `mode` (`off`,
/// `silence`, `bytes`, `time`, or anything else for all triggers) and the
/// trigger fields at the top level.
pub open spec fn legacy_segmentation(v: JsonValue, flush_on_close: bool) -> RtAsrSegmentationView {
    let enabled = match member_bool(v, "enabled"@) {
        Some(b) => b,
        None => false,
    };
    let mode = match member_str(v, "mode"@) {
        Some(s) => s,
        None => "off"@,
    };
    let flush_interval_ms = member_u64(v, "flush_interval_ms"@);
    let max_buffer_bytes = as_usize_opt(member_u64(v, "max_buffer_bytes"@));
    let silence_ms = member_u64(v, "silence_ms"@);
    let min_flush_gap_ms = or_u64(member_u64(v, "min_flush_gap_ms"@), 500);
    if !enabled || mode == "off"@ {
        RtAsrSegmentationView {
            strategy: RtAsrSegmentationStrategy::Manual,
            vad: None,
            client_commit: None,
            flush_on_close,
        }
    } else if mode == "silence"@ {
        RtAsrSegmentationView {
            strategy: RtAsrSegmentationStrategy::ServerVad,
            vad: Some(RtAsrVadView {
                silence_ms: match silence_ms {
                    Some(n) => n,
                    None => or_u64(flush_interval_ms, 500),
                },
                threshold: Some(JsonNum::Float(default_vad_threshold_text())),
                prefix_padding_ms: Some(300),
            }),
            client_commit: None,
            flush_on_close,
        }
    } else {
        RtAsrSegmentationView {
            strategy: RtAsrSegmentationStrategy::ClientCommit,
            vad: None,
            client_commit: Some(RtAsrClientCommitConfig {
                mode: RtAsrClientCommitMode::Hybrid,
                flush_interval_ms: if mode == "bytes"@ { None } else { flush_interval_ms },
                max_buffer_bytes: if mode == "time"@ { None } else { max_buffer_bytes },
                silence_ms: if mode == "bytes"@ || mode == "time"@ { None } else { silence_ms },
                min_flush_gap_ms,
            }),
            flush_on_close,
        }
    }
}

/// The segmentation settings a request selects, or `-EINVAL`: the request
/// must be an object; a `strategy` must be a known name and its `vad` and
/// `client_commit` sections, where present, objects. Without a `strategy`
/// the older form applies.
pub open spec fn parse_segmentation_spec(v: JsonValue) -> Result<RtAsrSegmentationView, i32> {
    if !v.spec_is_object() {
        Err((-EINVAL) as i32)
    } else {
        let flush_on_close = match member_bool(v, "flush_on_close"@) {
            Some(b) => b,
            None => false,
        };
        match member_str(v, "strategy"@) {
            Some(name) => match strategy_of_name(name) {
                None => Err((-EINVAL) as i32),
                Some(strategy) => match (vad_section(v), client_commit_section(v)) {
                    (Ok(vad), Ok(client_commit)) => Ok(
                        RtAsrSegmentationView { strategy, vad, client_commit, flush_on_close },
                    ),
                    _ => Err((-EINVAL) as i32),
                },
            },
            None => Ok(legacy_segmentation(v, flush_on_close)),
        }
    }
}

fn get_u64(o: &JsonValue, k: &str) -> (r: Option<u64>)
    ensures
        r == member_u64(*o, k@),
{
    match o.get(k) {
        Some(x) => x.as_u64(),
        None => None,
    }
}

fn get_bool(o: &JsonValue, k: &str) -> (r: Option<bool>)
    ensures
        r == member_bool(*o, k@),
{
    match o.get(k) {
        Some(x) => x.as_bool(),
        None => None,
    }
}

fn get_str<'a>(o: &'a JsonValue, k: &str) -> (r: Option<&'a str>)
    ensures
        match r {
            Some(s) => member_str(*o, k@) == Some(s@),
            None => member_str(*o, k@) is None,
        },
{
    match o.get(k) {
        Some(x) => x.as_str(),
        None => None,
    }
}

fn get_num(o: &JsonValue, k: &str) -> (r: Option<JsonNumber>)
    ensures
        match r {
            Some(n) => member_num(*o, k@) == Some(n@),
            None => member_num(*o, k@) is None,
        },
{
    match o.get(k) {
        Some(JsonValue::Number(n)) => Some(n.duplicate()),
        _ => None,
    }
}

fn opt_usize(x: Option<u64>) -> (r: Option<usize>)
    ensures
        r == as_usize_opt(x),
{
    match x {
        Some(n) => Some(n as usize),
        None => None,
    }
}

fn parse_vad(v: &JsonValue) -> (r: Result<Option<RtAsrVadConfig>, i32>)
    ensures
        match vad_section(*v) {
            Ok(None) => r matches Ok(None),
            Ok(Some(x)) => r matches Ok(Some(c)) && c@ == x,
            Err(e) => r matches Err(y) && y == e,
        },
{
    match v.get("vad") {
        None => Ok(None),
        Some(o) => {
            if !o.is_object() {
                return Err(-EINVAL);
            }
            let silence_ms = match get_u64(o, "silence_ms") {
                Some(n) => n,
                None => 500,
            };
            let threshold = match get_num(o, "threshold") {
                Some(t) => Some(float_form_number(t)),
                None => None,
            };
            let prefix_padding_ms = get_u64(o, "prefix_padding_ms");
            let c = RtAsrVadConfig { silence_ms, threshold, prefix_padding_ms };
            Ok(Some(c))
        },
    }
}

fn parse_client_commit(v: &JsonValue) -> (r: Result<Option<RtAsrClientCommitConfig>, i32>)
    ensures
        match client_commit_section(*v) {
            Ok(x) => r == Ok::<Option<RtAsrClientCommitConfig>, i32>(x),
            Err(e) => r matches Err(y) && y == e,
        },
{
    match v.get("client_commit") {
        None => Ok(None),
        Some(o) => {
            if !o.is_object() {
                return Err(-EINVAL);
            }
            let min_flush_gap_ms = match get_u64(o, "min_flush_gap_ms") {
                Some(n) => n,
                None => 500,
            };
            Ok(Some(RtAsrClientCommitConfig {
                mode: RtAsrClientCommitMode::Hybrid,
                flush_interval_ms: get_u64(o, "flush_interval_ms"),
                max_buffer_bytes: opt_usize(get_u64(o, "max_buffer_bytes")),
                silence_ms: get_u64(o, "silence_ms"),
                min_flush_gap_ms,
            }))
        },
    }
}

fn parse_legacy(v: &JsonValue, flush_on_close: bool) -> (r: RtAsrSegmentationConfig)
    ensures
        r@ == legacy_segmentation(*v, flush_on_close),
{
    let enabled = match get_bool(v, "enabled") {
        Some(b) => b,
        None => false,
    };
    let mode: &str = match get_str(v, "mode") {
        Some(s) => s,
        None => "off",
    };
    let flush_interval_ms = get_u64(v, "flush_interval_ms");
    let max_buffer_bytes = opt_usize(get_u64(v, "max_buffer_bytes"));
    let silence_ms = get_u64(v, "silence_ms");
    let min_flush_gap_ms = match get_u64(v, "min_flush_gap_ms") {
        Some(n) => n,
        None => 500,
    };
    if !enabled || str_eq(mode, "off") {
        return RtAsrSegmentationConfig {
            strategy: RtAsrSegmentationStrategy::Manual,
            vad: None,
            client_commit: None,
            flush_on_close,
        };
    }
    if str_eq(mode, "silence") {
        let silence = match silence_ms {
            Some(n) => n,
            None => match flush_interval_ms {
                Some(n) => n,
                None => 500,
            },
        };
        let d = RtAsrVadConfig::default();
        let vad = RtAsrVadConfig { silence_ms: silence, threshold: d.threshold, prefix_padding_ms: Some(300) };
        return RtAsrSegmentationConfig {
            strategy: RtAsrSegmentationStrategy::ServerVad,
            vad: Some(vad),
            client_commit: None,
            flush_on_close,
        };
    }
    let is_bytes = str_eq(mode, "bytes");
    let is_time = str_eq(mode, "time");
    let cc = RtAsrClientCommitConfig {
        mode: RtAsrClientCommitMode::Hybrid,
        flush_interval_ms: if is_bytes { None } else { flush_interval_ms },
        max_buffer_bytes: if is_time { None } else { max_buffer_bytes },
        silence_ms: if is_bytes || is_time { None } else { silence_ms },
        min_flush_gap_ms,
    };
    RtAsrSegmentationConfig {
        strategy: RtAsrSegmentationStrategy::ClientCommit,
        vad: None,
        client_commit: Some(cc),
        flush_on_close,
    }
}

/// Reads segmentation settings from a request; see
/// [`parse_segmentation_spec`] for the rules.
pub fn parse_segmentation_config(v: &JsonValue) -> (r: Result<RtAsrSegmentationConfig, i32>)
    ensures
        match parse_segmentation_spec(*v) {
            Ok(c) => r matches Ok(x) && x@ == c,
            Err(e) => r matches Err(y) && y == e,
        },
{
    if !v.is_object() {
        return Err(-EINVAL);
    }
    let flush_on_close = match get_bool(v, "flush_on_close") {
        Some(b) => b,
        None => false,
    };
    match get_str(v, "strategy") {
        Some(name) => {
            let strategy = if str_eq(name, "manual") || str_eq(name, "off") {
                RtAsrSegmentationStrategy::Manual
            } else if str_eq(name, "server_vad") {
                RtAsrSegmentationStrategy::ServerVad
            } else if str_eq(name, "client_commit") {
                RtAsrSegmentationStrategy::ClientCommit
            } else {
                return Err(-EINVAL);
            };
            let vad = match parse_vad(v) {
                Ok(x) => x,
                Err(e) => { return Err(e); },
            };
            let client_commit = match parse_client_commit(v) {
                Ok(x) => x,
                Err(e) => { return Err(e); },
            };
            Ok(RtAsrSegmentationConfig { strategy, vad, client_commit, flush_on_close })
        },
        None => Ok(parse_legacy(v, flush_on_close)),
    }
}

/// The name of a strategy.
pub open spec fn strategy_name(s: RtAsrSegmentationStrategy) -> Seq<char> {
    match s {
        RtAsrSegmentationStrategy::Manual => "manual"@,
        RtAsrSegmentationStrategy::ServerVad => "server_vad"@,
        RtAsrSegmentationStrategy::ClientCommit => "client_commit"@,
    }
}

/// An optional integer as a JSON number or `null`.
pub open spec fn opt_u64_data(x: Option<u64>) -> JsonData {
    match x {
        Some(n) => JsonData::Number(JsonNum::PosInt(n)),
        None => JsonData::Null,
    }
}

/// The document of detection settings: members in name order, the optional
/// ones only when set.
pub open spec fn vad_data(v: RtAsrVadView) -> JsonData {
    let a: Seq<(Seq<char>, JsonData)> = match v.prefix_padding_ms {
        Some(p) => seq![("prefix_padding_ms"@, JsonData::Number(JsonNum::PosInt(p)))],
        None => Seq::empty(),
    };
    let b = a.push(("silence_ms"@, JsonData::Number(JsonNum::PosInt(v.silence_ms))));
    let c = match v.threshold {
        Some(t) => b.push(("threshold"@, JsonData::Number(t))),
        None => b,
    };
    JsonData::Object(c)
}

/// The document of client commit settings.
pub open spec fn client_commit_data(c: RtAsrClientCommitConfig) -> JsonData {
    JsonData::Object(
        seq![
            ("flush_interval_ms"@, opt_u64_data(c.flush_interval_ms)),
            ("max_buffer_bytes"@, opt_u64_data(match c.max_buffer_bytes {
                Some(n) => Some(n as u64),
                None => None,
            })),
            ("min_flush_gap_ms"@, JsonData::Number(JsonNum::PosInt(c.min_flush_gap_ms))),
            ("silence_ms"@, opt_u64_data(c.silence_ms)),
        ],
    )
}

/// The document of segmentation settings: `client_commit`,
/// `flush_on_close`, `strategy` and `vad`, absent sections as `null`.
pub open spec fn segmentation_data(c: RtAsrSegmentationView) -> JsonData {
    JsonData::Object(
        seq![
            ("client_commit"@, match c.client_commit {
                Some(cc) => client_commit_data(cc),
                None => JsonData::Null,
            }),
            ("flush_on_close"@, JsonData::Bool(c.flush_on_close)),
            ("strategy"@, JsonData::Str(strategy_name(c.strategy))),
            ("vad"@, match c.vad {
                Some(v) => vad_data(v),
                None => JsonData::Null,
            }),
        ],
    )
}

fn opt_u64_json(x: Option<u64>) -> (r: JsonValue)
    ensures
        r@ == opt_u64_data(x),
{
    match x {
        Some(n) => json_u64(n),
        None => JsonValue::Null,
    }
}

fn vad_json(v: &RtAsrVadConfig) -> (r: JsonValue)
    ensures
        r@ == vad_data(v@),
{
    let mut o = JsonObjectBuilder::new();
    if let Some(p) = v.prefix_padding_ms {
        o.add("prefix_padding_ms", json_u64(p));
    }
    o.add("silence_ms", json_u64(v.silence_ms));
    if let Some(t) = &v.threshold {
        o.add("threshold", JsonValue::Number(t.duplicate()));
    }
    let r = o.build();
    proof {
        let ghost a: Seq<(Seq<char>, JsonData)> = match v.prefix_padding_ms {
            Some(p) => seq![("prefix_padding_ms"@, JsonData::Number(JsonNum::PosInt(p)))],
            None => Seq::empty(),
        };
        assert(a =~= match v@.prefix_padding_ms {
            Some(p) => seq![("prefix_padding_ms"@, JsonData::Number(JsonNum::PosInt(p)))],
            None => Seq::<(Seq<char>, JsonData)>::empty(),
        });
    }
    r
}

fn client_commit_json(c: &RtAsrClientCommitConfig) -> (r: JsonValue)
    ensures
        r@ == client_commit_data(*c),
{
    let mut o = JsonObjectBuilder::new();
    o.add("flush_interval_ms", opt_u64_json(c.flush_interval_ms));
    let mb = match c.max_buffer_bytes {
        Some(n) => Some(n as u64),
        None => None,
    };
    o.add("max_buffer_bytes", opt_u64_json(mb));
    o.add("min_flush_gap_ms", json_u64(c.min_flush_gap_ms));
    o.add("silence_ms", opt_u64_json(c.silence_ms));
    let r = o.build();
    assert(o@ =~= seq![
        ("flush_interval_ms"@, opt_u64_data(c.flush_interval_ms)),
        ("max_buffer_bytes"@, opt_u64_data(mb)),
        ("min_flush_gap_ms"@, JsonData::Number(JsonNum::PosInt(c.min_flush_gap_ms))),
        ("silence_ms"@, opt_u64_data(c.silence_ms)),
    ]);
    assert(mb == match c.max_buffer_bytes {
        Some(n) => Some(n as u64),
        None => None,
    });
    assert(o@ =~= match client_commit_data(*c) {
        JsonData::Object(s) => s,
        _ => Seq::empty(),
    });
    r
}

/// The document of the segmentation settings `cfg`.
pub fn segmentation_config_to_json(cfg: &RtAsrSegmentationConfig) -> (r: JsonValue)
    ensures
        r@ == segmentation_data(cfg@),
{
    let strategy: &str = match cfg.strategy {
        RtAsrSegmentationStrategy::Manual => "manual",
        RtAsrSegmentationStrategy::ServerVad => "server_vad",
        RtAsrSegmentationStrategy::ClientCommit => "client_commit",
    };
    let mut o = JsonObjectBuilder::new();
    let cc = match &cfg.client_commit {
        Some(c) => client_commit_json(c),
        None => JsonValue::Null,
    };
    o.add("client_commit", cc);
    o.add("flush_on_close", JsonValue::Bool(cfg.flush_on_close));
    o.add("strategy", json_str(strategy));
    let vad = match &cfg.vad {
        Some(v) => vad_json(v),
        None => JsonValue::Null,
    };
    o.add("vad", vad);
    let r = o.build();
    assert(o@ =~= match segmentation_data(cfg@) {
        JsonData::Object(s) => s,
        _ => Seq::empty(),
    });
    r
}

/// The turn detection that `session.update` events carry for settings
/// `c`: server-side voice detection (silence, threshold 0.5 and 300 ms
/// prefix padding unless set) under the server strategy, none otherwise.
pub open spec fn turn_detection_data(c: RtAsrSegmentationView) -> JsonData {
    if c.strategy == RtAsrSegmentationStrategy::ServerVad {
        let silence: u64 = match c.vad {
            Some(v) => v.silence_ms,
            None => 500,
        };
        let threshold: JsonNum = match c.vad {
            Some(v) => match v.threshold {
                Some(t) => t,
                None => JsonNum::Float(default_vad_threshold_text()),
            },
            None => JsonNum::Float(default_vad_threshold_text()),
        };
        let padding: u64 = match c.vad {
            Some(v) => match v.prefix_padding_ms {
                Some(p) => p,
                None => 300,
            },
            None => 300,
        };
        JsonData::Object(
            seq![
                ("prefix_padding_ms"@, JsonData::Number(JsonNum::PosInt(padding))),
                ("silence_duration_ms"@, JsonData::Number(JsonNum::PosInt(silence))),
                ("threshold"@, JsonData::Number(threshold)),
                ("type"@, JsonData::Str("server_vad"@)),
            ],
        )
    } else {
        JsonData::Null
    }
}

/// `m2` is `m` with member `key` bound to a value of content `d`, every
/// other member as it was.
pub open spec fn member_set(m: Seq<(String, JsonValue)>, key: Seq<char>, d: JsonData, m2: Seq<(String, JsonValue)>) -> bool {
    &&& spec_member(m2, key) matches Some(x) && x@ == d
    &&& forall|k: Seq<char>| k != key ==> #[trigger] spec_member(m2, k) == spec_member(m, k)
}

/// `m2` is `m` with the object member `key` replaced by an object whose
/// members `inner` relates to those of the old one; every other member as
/// it was.
pub open spec fn member_object_changed(
    m: Seq<(String, JsonValue)>,
    key: Seq<char>,
    m2: Seq<(String, JsonValue)>,
) -> Option<(Seq<(String, JsonValue)>, Seq<(String, JsonValue)>)> {
    match (spec_member(m, key), spec_member(m2, key)) {
        (Some(JsonValue::Object(a)), Some(JsonValue::Object(b))) => if forall|k: Seq<char>|
            k != key ==> #[trigger] spec_member(m2, k) == spec_member(m, k) {
            Some((a@, b@))
        } else {
            None
        },
        _ => None,
    }
}

/// The session members `s2` of an updated session `s`: turn detection `d`
/// set on `audio.input` where the session has such objects, on the
/// session itself otherwise.
pub open spec fn session_with_turn_detection(s: Seq<(String, JsonValue)>, d: JsonData, s2: Seq<(String, JsonValue)>) -> bool {
    let has_input = match spec_member(s, "audio"@) {
        Some(JsonValue::Object(a)) => spec_member(a@, "input"@) matches Some(JsonValue::Object(_)),
        _ => false,
    };
    if has_input {
        match member_object_changed(s, "audio"@, s2) {
            Some((a, a2)) => match member_object_changed(a, "input"@, a2) {
                Some((i, i2)) => member_set(i, "turn_detection"@, d, i2),
                None => false,
            },
            None => false,
        }
    } else {
        member_set(s, "turn_detection"@, d, s2)
    }
}

/// Whether `e2` is event `e` with turn detection `d` applied: a
/// `session.update` event with a session object gets it (see
/// [`session_with_turn_detection`]); other events stay as they are.
pub open spec fn event_with_turn_detection(e: JsonValue, d: JsonData, e2: JsonValue) -> bool {
    let applies = match e {
        JsonValue::Object(m) => (match spec_member(m@, "type"@) {
            Some(t) => t.spec_as_str() == Some("session.update"@),
            None => false,
        }) && spec_member(m@, "session"@) matches Some(JsonValue::Object(_)),
        _ => false,
    };
    if applies {
        match (e, e2) {
            (JsonValue::Object(m), JsonValue::Object(m2)) => match member_object_changed(m@, "session"@, m2@) {
                Some((s, s2)) => session_with_turn_detection(s, d, s2),
                None => false,
            },
            _ => false,
        }
    } else {
        e2 == e
    }
}

/// Takes the first member named `key` out of `m`, with its position.
fn take_member(m: &mut Vec<(String, JsonValue)>, key: &str) -> (r: Option<(usize, String, JsonValue)>)
    ensures
        match spec_member_index(old(m)@, key@) {
            None => r is None && final(m)@ == old(m)@,
            Some(i) => r matches Some((j, n, v)) && j == i && (n, v) == old(m)@[i] && final(m)@ == old(m)@.remove(i),
        },
{
    proof {
        lemma_member_index_bounds(m@, key@);
    }
    let mut i: usize = 0;
    while i < m.len()
        invariant
            0 <= i <= m@.len(),
            m@ == old(m)@,
            forall|j: int| 0 <= j < i ==> m@[j].0@ != key@,
            spec_member_index(m@, key@) matches Some(k) ==> (0 <= k < m@.len() && m@[k].0@ == key@ && forall|j: int|
                0 <= j < k ==> m@[j].0@ != key@),
            spec_member_index(m@, key@) is None ==> forall|j: int| 0 <= j < m@.len() ==> m@[j].0@ != key@,
        decreases m.len() - i,
    {
        if str_eq(m[i].0.as_str(), key) {
            proof {
                match spec_member_index(m@, key@) {
                    Some(k) => {
                        if k > i {
                            assert(m@[i as int].0@ != key@);
                        }
                    },
                    None => {
                        assert(m@[i as int].0@ != key@);
                    },
                }
            }
            let (n, v) = m.remove(i);
            return Some((i, n, v));
        }
        i = i + 1;
    }
    proof {
        match spec_member_index(m@, key@) {
            Some(k) => {
                assert(m@[k].0@ != key@);
            },
            None => {},
        }
    }
    None
}

proof fn lemma_member_replaced(m: Seq<(String, JsonValue)>, key: Seq<char>, i: int, v: JsonValue)
    requires
        spec_member_index(m, key) == Some(i),
    ensures
        spec_member(m.update(i, (m[i].0, v)), key) == Some(v),
        forall|k: Seq<char>| k != key ==> #[trigger] spec_member(m.update(i, (m[i].0, v)), k) == spec_member(m, k),
{
    let m2 = m.update(i, (m[i].0, v));
    lemma_member_index_bounds(m, key);
    assert forall|k: Seq<char>| true implies #[trigger] spec_member_index(m2, k) == spec_member_index(m, k) by {
        assert forall|j: int| 0 <= j < m2.len() implies (#[trigger] m2[j]).0@ == m[j].0@ by {}
        lemma_member_index_same_names(m2, m, k);
    }
    assert forall|k: Seq<char>| k != key implies #[trigger] spec_member(m2, k) == spec_member(m, k) by {
        lemma_member_index_bounds(m, k);
        assert(spec_member_index(m2, k) == spec_member_index(m, k));
        match spec_member_index(m, k) {
            Some(j) => {
                assert(j != i);
            },
            None => {},
        }
    }
    assert(spec_member_index(m2, key) == spec_member_index(m, key));
}

/// Sets member `key` of the object members `m` to `v` (see
/// [`members_upsert`]), stated over contents.
fn set_member(m: &mut Vec<(String, JsonValue)>, key: &str, v: JsonValue)
    ensures
        member_set(old(m)@, key@, v@, final(m)@),
{
    let ghost vv = v;
    members_upsert(m, key.to_string(), v);
    assert(spec_member(m@, key@) == Some(vv));
}

/// Applies turn detection `td` to the session members `s` (see
/// [`session_with_turn_detection`]).
fn apply_to_session(s: Vec<(String, JsonValue)>, td: &JsonValue) -> (r: Vec<(String, JsonValue)>)
    ensures
        session_with_turn_detection(s@, td@, r@),
{
    let mut s = s;
    let ghost s0 = s@;
    let has_input = match members_get_object(&s, "audio") {
        Some(a) => match members_get_object(a, "input") {
            Some(_) => true,
            None => false,
        },
        None => false,
    };
    if !has_input {
        set_member(&mut s, "turn_detection", td.duplicate());
        return s;
    }
    let (ai, an, av) = match take_member(&mut s, "audio") {
        Some(t) => t,
        None => {
            return s;
        },
    };
    let mut a = match av {
        JsonValue::Object(a) => a,
        other => {
            s.insert(ai, (an, other));
            return s;
        },
    };
    let ghost a0 = a@;
    proof {
        lemma_member_index_bounds(s0, "audio"@);
        lemma_member_index_bounds(a0, "input"@);
    }
    let (ii, inn, iv) = match take_member(&mut a, "input") {
        Some(t) => t,
        None => {
            s.insert(ai, (an, JsonValue::Object(a)));
            return s;
        },
    };
    let mut i = match iv {
        JsonValue::Object(i) => i,
        other => {
            a.insert(ii, (inn, other));
            s.insert(ai, (an, JsonValue::Object(a)));
            return s;
        },
    };
    let ghost i0 = i@;
    set_member(&mut i, "turn_detection", td.duplicate());
    let ghost i2 = i;
    let ghost inn0 = inn;
    a.insert(ii, (inn, JsonValue::Object(i)));
    proof {
        assert(a@ =~= a0.update(ii as int, (a0[ii as int].0, JsonValue::Object(i2))));
        lemma_member_replaced(a0, "input"@, ii as int, JsonValue::Object(i2));
    }
    let ghost a2 = a;
    s.insert(ai, (an, JsonValue::Object(a)));
    proof {
        assert(s@ =~= s0.update(ai as int, (s0[ai as int].0, JsonValue::Object(a2))));
        lemma_member_replaced(s0, "audio"@, ai as int, JsonValue::Object(a2));
    }
    s
}

/// The object members of member `key` of `m`, if it is an object.
fn members_get_object<'a>(m: &'a Vec<(String, JsonValue)>, key: &str) -> (r: Option<&'a Vec<(String, JsonValue)>>)
    ensures
        match spec_member(m@, key@) {
            Some(JsonValue::Object(a)) => r == Some(&a),
            _ => r is None,
        },
{
    match crate::json::members_get(m, key) {
        Some(JsonValue::Object(a)) => Some(a),
        _ => None,
    }
}

/// Applies turn detection `td` to event `ev` (see
/// [`event_with_turn_detection`]).
fn apply_to_event(ev: JsonValue, td: &JsonValue) -> (r: JsonValue)
    ensures
        event_with_turn_detection(ev, td@, r),
{
    let ghost e0 = ev;
    let mut m = match ev {
        JsonValue::Object(m) => m,
        other => {
            return other;
        },
    };
    let is_update = match crate::json::members_get(&m, "type") {
        Some(t) => match t.as_str() {
            Some(x) => str_eq(x, "session.update"),
            None => false,
        },
        None => false,
    };
    proof {
        reveal_strlit("session.update");
    }
    if !is_update {
        return JsonValue::Object(m);
    }
    if members_get_object(&m, "session").is_none() {
        return JsonValue::Object(m);
    }
    let ghost m0 = m@;
    proof {
        lemma_member_index_bounds(m0, "session"@);
    }
    let (si, sn, sv) = match take_member(&mut m, "session") {
        Some(t) => t,
        None => {
            return JsonValue::Object(m);
        },
    };
    let s = match sv {
        JsonValue::Object(s) => s,
        other => {
            m.insert(si, (sn, other));
            assert(m@ =~= m0);
            return JsonValue::Object(m);
        },
    };
    let s2 = apply_to_session(s, td);
    let ghost sv2 = JsonValue::Object(s2);
    m.insert(si, (sn, JsonValue::Object(s2)));
    proof {
        assert(m@ =~= m0.update(si as int, (m0[si as int].0, sv2)));
        lemma_member_replaced(m0, "session"@, si as int, sv2);
    }
    JsonValue::Object(m)
}

/// The turn detection document of settings `cfg` (see
/// [`turn_detection_data`]).
fn turn_detection_document(cfg: &RtAsrSegmentationConfig) -> (r: JsonValue)
    ensures
        r@ == turn_detection_data(cfg@),
{
    if cfg.strategy != RtAsrSegmentationStrategy::ServerVad {
        return JsonValue::Null;
    }
    let default_vad = RtAsrVadConfig::default();
    let vad = match &cfg.vad {
        Some(v) => v,
        None => &default_vad,
    };
    let threshold = match &vad.threshold {
        Some(t) => t.duplicate(),
        None => JsonNumber::Float(String::from_str("0.5")),
    };
    proof {
        reveal_strlit("0.5");
        assert("0.5"@ =~= default_vad_threshold_text());
    }
    let padding = match vad.prefix_padding_ms {
        Some(p) => p,
        None => 300,
    };
    let mut o = JsonObjectBuilder::new();
    o.add("prefix_padding_ms", json_u64(padding));
    o.add("silence_duration_ms", json_u64(vad.silence_ms));
    o.add("threshold", JsonValue::Number(threshold));
    o.add("type", json_str("server_vad"));
    assert(o@ =~= match turn_detection_data(cfg@) {
        JsonData::Object(x) => x,
        _ => Seq::empty(),
    });
    o.build()
}

/// Sets the turn detection of settings `cfg` on every `session.update`
/// event of `client_events` (see [`event_with_turn_detection`]).
pub fn apply_turn_detection_to_client_events(client_events: &mut Vec<JsonValue>, cfg: &RtAsrSegmentationConfig)
    ensures
        final(client_events)@.len() == old(client_events)@.len(),
        forall|i: int|
            0 <= i < old(client_events)@.len() ==> event_with_turn_detection(
                #[trigger] old(client_events)@[i],
                turn_detection_data(cfg@),
                final(client_events)@[i],
            ),
{
    let td = turn_detection_document(cfg);
    let n = client_events.len();
    let mut i: usize = 0;
    while i < n
        invariant
            n == old(client_events)@.len(),
            client_events@.len() == n,
            i <= n,
            td@ == turn_detection_data(cfg@),
            forall|j: int| i <= j < n ==> #[trigger] client_events@[j] == old(client_events)@[j],
            forall|j: int|
                0 <= j < i ==> event_with_turn_detection(
                    #[trigger] old(client_events)@[j],
                    turn_detection_data(cfg@),
                    client_events@[j],
                ),
        decreases n - i,
    {
        let ev = client_events.remove(i);
        let ev2 = apply_to_event(ev, &td);
        client_events.insert(i, ev2);
        i = i + 1;
    }
}

} // verus!

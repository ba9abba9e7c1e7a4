//! `${name}` templates: connection settings (URLs, headers, request
//! documents) name variables and environment entries that are substituted
//! before use.
//!
//! A template is read byte by byte. `${key}` closed by the first `}` after it
//! is replaced by the value of `key`; `${env:NAME}` by the entry `NAME` of the
//! supplied environment, else of the process environment snapshot. A missing
//! value is replaced by nothing, and an unclosed `${` stays as it is. Every
//! other byte is copied as the character with that code.
use vstd::prelude::*;
use vstd::utf8::encode_utf8;
use crate::json::{JsonValue, json_data, json_data_seq, json_data_members};

verus! {

/// Position of the first `}` at or after `from`.
pub open spec fn close_brace(b: Seq<u8>, from: int) -> Option<int>
    decreases b.len() - from,
{
    if from < 0 || from >= b.len() {
        None
    } else if b[from] == 0x7Du8 {
        Some(from)
    } else {
        close_brace(b, from + 1)
    }
}

/// The value of the first entry whose name has the bytes `key`.
pub open spec fn lookup_text(entries: Seq<(String, String)>, key: Seq<u8>) -> Option<Seq<char>>
    decreases entries.len(),
{
    if entries.len() == 0 {
        None
    } else if encode_utf8(entries[0].0@) == key {
        Some(entries[0].1@)
    } else {
        lookup_text(entries.drop_first(), key)
    }
}

/// The bytes of `env:`.
pub open spec fn env_prefix() -> Seq<u8> {
    seq![0x65u8, 0x6Eu8, 0x76u8, 0x3Au8]
}

/// What `${key}` is replaced by.
pub open spec fn replacement(
    key: Seq<u8>,
    vars: Seq<(String, String)>,
    env: Seq<(String, String)>,
    process_env: Seq<(String, String)>,
) -> Seq<char> {
    if key.len() >= 4 && key.subrange(0, 4) == env_prefix() {
        let name = key.subrange(4, key.len() as int);
        match lookup_text(env, name) {
            Some(v) => v,
            None => match lookup_text(process_env, name) {
                Some(v) => v,
                None => Seq::empty(),
            },
        }
    } else {
        match lookup_text(vars, key) {
            Some(v) => v,
            None => Seq::empty(),
        }
    }
}

/// The expansion of the template bytes `b` from position `i` on.
pub open spec fn expand_from(
    b: Seq<u8>,
    i: int,
    vars: Seq<(String, String)>,
    env: Seq<(String, String)>,
    process_env: Seq<(String, String)>,
) -> Seq<char>
    decreases b.len() - i,
{
    if i < 0 || i >= b.len() {
        Seq::empty()
    } else if b[i] == 0x24u8 && i + 1 < b.len() && b[i + 1] == 0x7Bu8 && close_brace(b, i + 2) is Some {
        let j = close_brace(b, i + 2)->0;
        proof {
            lemma_close_brace_bounds(b, i + 2);
        }
        replacement(b.subrange(i + 2, j), vars, env, process_env) + expand_from(b, j + 1, vars, env, process_env)
    } else {
        seq![b[i] as char] + expand_from(b, i + 1, vars, env, process_env)
    }
}

/// The expansion of the text `t`.
pub open spec fn expand_text(
    t: Seq<char>,
    vars: Seq<(String, String)>,
    env: Seq<(String, String)>,
    process_env: Seq<(String, String)>,
) -> Seq<char> {
    expand_from(encode_utf8(t), 0, vars, env, process_env)
}

pub proof fn lemma_close_brace_bounds(b: Seq<u8>, from: int)
    requires
        0 <= from,
    ensures
        close_brace(b, from) matches Some(j) ==> 0 <= from <= j < b.len() && b[j] == 0x7Du8
            && forall|k: int| from <= k < j ==> b[k] != 0x7Du8,
        close_brace(b, from) is None ==> forall|k: int| from <= k < b.len() ==> b[k] != 0x7Du8,
    decreases b.len() - from,
{
    if 0 <= from < b.len() && b[from] != 0x7Du8 {
        lemma_close_brace_bounds(b, from + 1);
    }
}

/// Whether `name` has the bytes `b[start..end]`.
fn bytes_match(name: &[u8], b: &[u8], start: usize, end: usize) -> (r: bool)
    requires
        start <= end <= b@.len(),
    ensures
        r == (name@ == b@.subrange(start as int, end as int)),
{
    if name.len() != end - start {
        return false;
    }
    let mut k: usize = 0;
    while k < name.len()
        invariant
            name@.len() == end - start,
            start <= end <= b@.len(),
            k <= name@.len(),
            forall|m: int| 0 <= m < k ==> name@[m] == b@[start + m],
        decreases name.len() - k,
    {
        if name[k] != b[start + k] {
            assert(name@[k as int] != b@.subrange(start as int, end as int)[k as int]);
            return false;
        }
        k = k + 1;
    }
    assert(name@ =~= b@.subrange(start as int, end as int));
    true
}

/// The value of the first entry named by the bytes `b[start..end]`.
fn lookup_entry<'a>(entries: &'a Vec<(String, String)>, b: &[u8], start: usize, end: usize) -> (r: Option<&'a String>)
    requires
        start <= end <= b@.len(),
    ensures
        match lookup_text(entries@, b@.subrange(start as int, end as int)) {
            Some(v) => r matches Some(s) && s@ == v,
            None => r is None,
        },
{
    let ghost key = b@.subrange(start as int, end as int);
    let mut k: usize = 0;
    assert(entries@.subrange(0, entries@.len() as int) =~= entries@);
    while k < entries.len()
        invariant
            k <= entries@.len(),
            start <= end <= b@.len(),
            key == b@.subrange(start as int, end as int),
            lookup_text(entries@, key) == lookup_text(entries@.subrange(k as int, entries@.len() as int), key),
        decreases entries.len() - k,
    {
        let rest = Ghost(entries@.subrange(k as int, entries@.len() as int));
        assert(rest@.drop_first() =~= entries@.subrange(k + 1, entries@.len() as int));
        let name = entries[k].0.as_str().as_bytes();
        if bytes_match(name, b, start, end) {
            return Some(&entries[k].1);
        }
        k = k + 1;
    }
    assert(entries@.subrange(k as int, entries@.len() as int).len() == 0);
    None
}

/// Append the characters of `s` to `out`.
fn push_chars(out: &mut Vec<char>, s: &str)
    ensures
        final(out)@ == old(out)@ + s@,
{
    let n = s.unicode_len();
    let mut k: usize = 0;
    while k < n
        invariant
            n == s@.len(),
            k <= n,
            out@ == old(out)@ + s@.subrange(0, k as int),
        decreases n - k,
    {
        let c = s.get_char(k);
        out.push(c);
        k = k + 1;
        assert(out@ =~= old(out)@ + s@.subrange(0, k as int));
    }
    assert(s@.subrange(0, n as int) =~= s@);
}

/// The string with the characters of `chars`, in order.
#[verifier::external_body]
pub(crate) fn string_from_chars(chars: Vec<char>) -> (r: String)
    ensures
        r@ == chars@,
{
    String::from_iter(chars)
}

/// Append the replacement of the key `b[start..end]` to `out`.
fn push_replacement(
    out: &mut Vec<char>,
    b: &[u8],
    start: usize,
    end: usize,
    vars: &Vec<(String, String)>,
    env: &Vec<(String, String)>,
    process_env: &Vec<(String, String)>,
)
    requires
        start <= end <= b@.len(),
    ensures
        final(out)@ == old(out)@ + replacement(b@.subrange(start as int, end as int), vars@, env@, process_env@),
{
    let ghost key = b@.subrange(start as int, end as int);
    if end - start >= 4 && b[start] == 0x65u8 && b[start + 1] == 0x6Eu8 && b[start + 2] == 0x76u8
        && b[start + 3] == 0x3Au8 {
        assert(key.subrange(0, 4) =~= env_prefix());
        assert(key.subrange(4, key.len() as int) =~= b@.subrange(start + 4, end as int));
        match lookup_entry(env, b, start + 4, end) {
            Some(v) => push_chars(out, v.as_str()),
            None => match lookup_entry(process_env, b, start + 4, end) {
                Some(v) => push_chars(out, v.as_str()),
                None => {
                    assert(out@ =~= out@ + Seq::<char>::empty());
                },
            },
        }
    } else {
        assert(!(key.len() >= 4 && key.subrange(0, 4) == env_prefix())) by {
            if key.len() >= 4 && key.subrange(0, 4) == env_prefix() {
                assert(key.subrange(0, 4)[0] == b@[start as int]);
                assert(key.subrange(0, 4)[1] == b@[start + 1]);
                assert(key.subrange(0, 4)[2] == b@[start + 2]);
                assert(key.subrange(0, 4)[3] == b@[start + 3]);
            }
        }
        match lookup_entry(vars, b, start, end) {
            Some(v) => push_chars(out, v.as_str()),
            None => {
                assert(out@ =~= out@ + Seq::<char>::empty());
            },
        }
    }
}

/// Position of the first `}` at or after `from`.
fn find_close_brace(b: &[u8], from: usize) -> (r: Option<usize>)
    ensures
        match close_brace(b@, from as int) {
            Some(j) => r == Some(j as usize),
            None => r is None,
        },
{
    let mut k: usize = from;
    while k < b.len()
        invariant
            from <= k,
            close_brace(b@, from as int) == close_brace(b@, k as int),
        decreases b.len() - k,
    {
        if b[k] == 0x7Du8 {
            return Some(k);
        }
        k = k + 1;
    }
    None
}

/// Expand the `${..}` placeholders of `s` (see the module documentation).
/// `env` is consulted before `process_env` for `${env:NAME}`.
pub fn expand_template(
    s: &str,
    vars: &Vec<(String, String)>,
    env: &Vec<(String, String)>,
    process_env: &Vec<(String, String)>,
) -> (r: String)
    ensures
        r@ == expand_text(s@, vars@, env@, process_env@),
{
    let b = s.as_bytes();
    let ghost total = expand_from(b@, 0, vars@, env@, process_env@);
    let mut out: Vec<char> = Vec::new();
    let mut i: usize = 0;
    assert(out@ + expand_from(b@, 0, vars@, env@, process_env@) =~= total);
    while i < b.len()
        invariant
            i <= b@.len(),
            b@ == encode_utf8(s@),
            total == expand_from(b@, 0, vars@, env@, process_env@),
            out@ + expand_from(b@, i as int, vars@, env@, process_env@) == total,
        decreases b.len() - i,
    {
        let ghost rest = expand_from(b@, i as int, vars@, env@, process_env@);
        let ghost before = out@;
        if b[i] == 0x24u8 && i + 1 < b.len() && b[i + 1] == 0x7Bu8 {
            match find_close_brace(b, i + 2) {
                Some(j) => {
                    proof {
                        lemma_close_brace_bounds(b@, i + 2);
                    }
                    push_replacement(&mut out, b, i + 2, j, vars, env, process_env);
                    proof {
                        let piece = replacement(b@.subrange(i + 2, j as int), vars@, env@, process_env@);
                        let tail = expand_from(b@, j + 1, vars@, env@, process_env@);
                        assert(rest == piece + tail);
                        assert(before + (piece + tail) =~= (before + piece) + tail);
                    }
                    i = j + 1;
                    continue;
                },
                None => {},
            }
        }
        let c = b[i] as char;
        out.push(c);
        proof {
            let tail = expand_from(b@, i + 1, vars@, env@, process_env@);
            assert(rest == seq![c] + tail);
            assert(before + (seq![c] + tail) =~= before.push(c) + tail);
        }
        i = i + 1;
    }
    assert(out@ + expand_from(b@, i as int, vars@, env@, process_env@) =~= out@);
    string_from_chars(out)
}

/// The content of `v` with every string expanded as a template.
pub open spec fn expanded(
    v: JsonValue,
    vars: Seq<(String, String)>,
    env: Seq<(String, String)>,
    process_env: Seq<(String, String)>,
) -> crate::json::JsonData
    decreases v,
{
    match v {
        JsonValue::Str(s) => crate::json::JsonData::Str(expand_text(s@, vars, env, process_env)),
        JsonValue::Array(a) => crate::json::JsonData::Array(expanded_seq(a@, vars, env, process_env)),
        JsonValue::Object(m) => crate::json::JsonData::Object(expanded_members(m@, vars, env, process_env)),
        _ => json_data(v),
    }
}

/// The contents of `s` with every string expanded.
pub open spec fn expanded_seq(
    s: Seq<JsonValue>,
    vars: Seq<(String, String)>,
    env: Seq<(String, String)>,
    process_env: Seq<(String, String)>,
) -> Seq<crate::json::JsonData>
    decreases s,
{
    if s.len() == 0 {
        Seq::empty()
    } else {
        seq![expanded(s[0], vars, env, process_env)] + expanded_seq(s.subrange(1, s.len() as int), vars, env, process_env)
    }
}

/// The members of `s`, names kept, contents with every string expanded.
pub open spec fn expanded_members(
    s: Seq<(String, JsonValue)>,
    vars: Seq<(String, String)>,
    env: Seq<(String, String)>,
    process_env: Seq<(String, String)>,
) -> Seq<(Seq<char>, crate::json::JsonData)>
    decreases s,
{
    if s.len() == 0 {
        Seq::empty()
    } else {
        seq![(s[0].0@, expanded(s[0].1, vars, env, process_env))] + expanded_members(
            s.subrange(1, s.len() as int),
            vars,
            env,
            process_env,
        )
    }
}

proof fn lemma_expanded_seq_pointwise(
    out: Seq<JsonValue>,
    a: Seq<JsonValue>,
    vars: Seq<(String, String)>,
    env: Seq<(String, String)>,
    process_env: Seq<(String, String)>,
)
    requires
        out.len() == a.len(),
        forall|j: int| 0 <= j < out.len() ==> json_data(#[trigger] out[j]) == expanded(a[j], vars, env, process_env),
    ensures
        json_data_seq(out) == expanded_seq(a, vars, env, process_env),
    decreases out.len(),
{
    if out.len() > 0 {
        let t1 = out.subrange(1, out.len() as int);
        let t2 = a.subrange(1, a.len() as int);
        assert forall|j: int| 0 <= j < t1.len() implies json_data(#[trigger] t1[j]) == expanded(t2[j], vars, env, process_env) by {
            assert(t1[j] == out[j + 1]);
            assert(t2[j] == a[j + 1]);
        }
        lemma_expanded_seq_pointwise(t1, t2, vars, env, process_env);
        assert(json_data(out[0]) == expanded(a[0], vars, env, process_env));
    }
}

proof fn lemma_expanded_members_pointwise(
    out: Seq<(String, JsonValue)>,
    m: Seq<(String, JsonValue)>,
    vars: Seq<(String, String)>,
    env: Seq<(String, String)>,
    process_env: Seq<(String, String)>,
)
    requires
        out.len() == m.len(),
        forall|j: int| 0 <= j < out.len() ==> (#[trigger] out[j]).0@ == m[j].0@ && json_data(out[j].1) == expanded(m[j].1, vars, env, process_env),
    ensures
        json_data_members(out) == expanded_members(m, vars, env, process_env),
    decreases out.len(),
{
    if out.len() > 0 {
        let t1 = out.subrange(1, out.len() as int);
        let t2 = m.subrange(1, m.len() as int);
        assert forall|j: int| 0 <= j < t1.len() implies (#[trigger] t1[j]).0@ == t2[j].0@ && json_data(t1[j].1) == expanded(t2[j].1, vars, env, process_env) by {
            assert(t1[j] == out[j + 1]);
            assert(t2[j] == m[j + 1]);
        }
        lemma_expanded_members_pointwise(t1, t2, vars, env, process_env);
        assert(out[0].0@ == m[0].0@);
    }
}

fn expand_json_ref(
    v: &JsonValue,
    vars: &Vec<(String, String)>,
    env: &Vec<(String, String)>,
    process_env: &Vec<(String, String)>,
) -> (r: JsonValue)
    ensures
        r@ == expanded(*v, vars@, env@, process_env@),
    decreases v,
{
    match v {
        JsonValue::Str(s) => JsonValue::Str(expand_template(s.as_str(), vars, env, process_env)),
        JsonValue::Array(a) => {
            let mut out: Vec<JsonValue> = Vec::new();
            let mut i: usize = 0;
            while i < a.len()
                invariant
                    0 <= i <= a.len(),
                    out@.len() == i,
                    *v == JsonValue::Array(*a),
                    forall|j: int| 0 <= j < i ==> json_data(#[trigger] out@[j]) == expanded(a@[j], vars@, env@, process_env@),
                decreases a.len() - i,
            {
                proof {
                    assert(decreases_to!(*v => (*v)->Array_0));
                    assert(decreases_to!(*a => a@));
                    assert(decreases_to!(a@ => a@[i as int]));
                }
                let c = expand_json_ref(&a[i], vars, env, process_env);
                out.push(c);
                i = i + 1;
            }
            proof {
                lemma_expanded_seq_pointwise(out@, a@, vars@, env@, process_env@);
            }
            JsonValue::Array(out)
        },
        JsonValue::Object(m) => {
            let mut out: Vec<(String, JsonValue)> = Vec::new();
            let mut i: usize = 0;
            while i < m.len()
                invariant
                    0 <= i <= m.len(),
                    out@.len() == i,
                    *v == JsonValue::Object(*m),
                    forall|j: int| 0 <= j < i ==> (#[trigger] out@[j]).0@ == m@[j].0@ && json_data(out@[j].1)
                        == expanded(m@[j].1, vars@, env@, process_env@),
                decreases m.len() - i,
            {
                proof {
                    assert(decreases_to!(*v => (*v)->Object_0));
                    assert(decreases_to!(*m => m@));
                    assert(decreases_to!(m@ => m@[i as int]));
                    assert(decreases_to!(m@[i as int] => m@[i as int].1));
                }
                let k = m[i].0.clone();
                let c = expand_json_ref(&m[i].1, vars, env, process_env);
                out.push((k, c));
                i = i + 1;
            }
            proof {
                lemma_expanded_members_pointwise(out@, m@, vars@, env@, process_env@);
            }
            JsonValue::Object(out)
        },
        _ => v.duplicate(),
    }
}

/// `v` with every string in it expanded as a template; object member
/// names are kept as they are.
pub fn expand_json_templates(
    v: JsonValue,
    vars: &Vec<(String, String)>,
    env: &Vec<(String, String)>,
    process_env: &Vec<(String, String)>,
) -> (r: JsonValue)
    ensures
        r@ == expanded(v, vars@, env@, process_env@),
{
    expand_json_ref(&v, vars, env, process_env)
}

} // verus!

//! Reading the model-backend settings: hosting and operation names, the
//! credential index, and the environment variable that holds a backend's
//! key.
use vstd::prelude::*;
use crate::codec::{trim_text, trimmed};
use crate::json::str_eq;
use crate::termination::{opt_text, clone_opt_string};

verus! {

/// Where a backend runs.
#[derive(Debug, Clone, Copy, PartialEq, Eq, Structural)]
pub enum Hosting {
    Local,
    Remote,
    Unknown,
}

/// `c` in ASCII lower case.
pub open spec fn ascii_lower(c: char) -> char {
    if 'A' <= c && c <= 'Z' { ((c as u32) + 32) as char } else { c }
}

/// `s` in ASCII lower case.
pub open spec fn ascii_lower_text(s: Seq<char>) -> Seq<char> {
    s.map_values(|c: char| ascii_lower(c))
}

fn lower_char(c: char) -> (r: char)
    ensures
        r == ascii_lower(c),
{
    if 'A' <= c && c <= 'Z' {
        let v = (c as u32) + 32;
        assert(v < 0xD800);
        #[verifier::truncate]
        ((v as u8) as char)
    } else {
        c
    }
}

/// Whether `s` in ASCII lower case is `lit`.
pub fn ascii_lower_eq(s: &str, lit: &str) -> (r: bool)
    ensures
        r == (ascii_lower_text(s@) == lit@),
{
    let n = s.unicode_len();
    if n != lit.unicode_len() {
        proof {
            assert(ascii_lower_text(s@).len() == s@.len());
        }
        return false;
    }
    let mut i: usize = 0;
    while i < n
        invariant
            n == s@.len(),
            n == lit@.len(),
            0 <= i <= n,
            forall|j: int| 0 <= j < i ==> ascii_lower(s@[j]) == lit@[j],
        decreases n - i,
    {
        if lower_char(s.get_char(i)) != lit.get_char(i) {
            proof {
                assert(ascii_lower_text(s@)[i as int] == ascii_lower(s@[i as int]));
            }
            return false;
        }
        i = i + 1;
    }
    assert(ascii_lower_text(s@) =~= lit@);
    true
}

/// The hosting a name selects, ignoring surrounding white space and ASCII
/// case: `local`, `remote`, anything else unknown.
pub open spec fn hosting_of(s: Seq<char>) -> Hosting {
    let v = ascii_lower_text(trimmed(s));
    if v == "local"@ {
        Hosting::Local
    } else if v == "remote"@ {
        Hosting::Remote
    } else {
        Hosting::Unknown
    }
}

/// The hosting a name selects (see [`hosting_of`]).
pub fn parse_hosting(s: &str) -> (r: Hosting)
    ensures
        r == hosting_of(s@),
{
    let t = trim_text(s);
    if ascii_lower_eq(t, "local") {
        Hosting::Local
    } else if ascii_lower_eq(t, "remote") {
        Hosting::Remote
    } else {
        Hosting::Unknown
    }
}

/// The hosting a backend's setting selects: unknown without a setting or
/// for a blank one.
pub fn resolve_hosting(override_value: Option<&str>) -> (r: Hosting)
    ensures
        r == match override_value {
            Some(s) => if trimmed(s@).len() == 0 { Hosting::Unknown } else { hosting_of(trimmed(s@)) },
            None => Hosting::Unknown,
        },
{
    if let Some(s) = override_value {
        let t = trim_text(s);
        if t.unicode_len() > 0 {
            let parsed = parse_hosting(t);
            if parsed != Hosting::Unknown {
                return parsed;
            }
        }
    }
    Hosting::Unknown
}

/// The operations a backend can serve.
#[derive(Debug, Clone, Copy, PartialEq, Eq, Structural)]
pub enum Operation {
    ChatCompletions,
    Embeddings,
    ImageGeneration,
    SpeechToText,
    TextToSpeech,
    RealtimeVoice,
}

/// The operation a name selects.
pub open spec fn operation_of(s: Seq<char>) -> Option<Operation> {
    if s == "chat_completions"@ {
        Some(Operation::ChatCompletions)
    } else if s == "embeddings"@ {
        Some(Operation::Embeddings)
    } else if s == "image_generation"@ {
        Some(Operation::ImageGeneration)
    } else if s == "speech_to_text"@ {
        Some(Operation::SpeechToText)
    } else if s == "text_to_speech"@ {
        Some(Operation::TextToSpeech)
    } else if s == "realtime_voice"@ {
        Some(Operation::RealtimeVoice)
    } else {
        None
    }
}

/// The operation a name selects (see [`operation_of`]).
pub fn parse_operation(s: &str) -> (r: Option<Operation>)
    ensures
        r == operation_of(s@),
{
    if str_eq(s, "chat_completions") {
        Some(Operation::ChatCompletions)
    } else if str_eq(s, "embeddings") {
        Some(Operation::Embeddings)
    } else if str_eq(s, "image_generation") {
        Some(Operation::ImageGeneration)
    } else if str_eq(s, "speech_to_text") {
        Some(Operation::SpeechToText)
    } else if str_eq(s, "text_to_speech") {
        Some(Operation::TextToSpeech)
    } else if str_eq(s, "realtime_voice") {
        Some(Operation::RealtimeVoice)
    } else {
        None
    }
}

/// A credential of the model settings: a name, a kind (only `env` is
/// used), and the environment variable that holds the key.
#[derive(Debug)]
pub struct LlmCredentialConfig {
    pub name: String,
    pub kind: String,
    pub api_key_env: String,
}

/// The content of a credential.
pub struct CredentialView {
    pub name: Seq<char>,
    pub kind: Seq<char>,
    pub api_key_env: Seq<char>,
}

impl LlmCredentialConfig {
    pub open spec fn view(&self) -> CredentialView {
        CredentialView { name: self.name@, kind: self.kind@, api_key_env: self.api_key_env@ }
    }

    /// A copy of the credential.
    pub fn duplicate(&self) -> (r: Self)
        ensures
            r@ == self@,
    {
        LlmCredentialConfig { name: self.name.clone(), kind: self.kind.clone(), api_key_env: self.api_key_env.clone() }
    }
}

/// Whether a credential can be indexed: a name, kind `env`, and a variable.
pub open spec fn usable_credential(c: CredentialView) -> bool {
    trimmed(c.name).len() > 0 && c.kind == "env"@ && trimmed(c.api_key_env).len() > 0
}

/// The credential index of `creds`: each usable credential by name, the
/// first of a name winning.
pub open spec fn credential_index(creds: Seq<CredentialView>) -> Map<Seq<char>, CredentialView>
    decreases creds.len(),
{
    if creds.len() == 0 {
        Map::empty()
    } else {
        let m = credential_index(creds.drop_last());
        let c = creds.last();
        if usable_credential(c) && !m.contains_key(c.name) { m.insert(c.name, c) } else { m }
    }
}

/// The contents of credentials.
pub open spec fn credential_views(v: Seq<LlmCredentialConfig>) -> Seq<CredentialView> {
    v.map_values(|c: LlmCredentialConfig| c@)
}

/// The contents of an index kept as a list.
pub open spec fn index_map(v: Seq<LlmCredentialConfig>) -> Map<Seq<char>, CredentialView>
    decreases v.len(),
{
    if v.len() == 0 {
        Map::empty()
    } else {
        index_map(v.drop_last()).insert(v.last().name@, v.last()@)
    }
}

/// The list holds no two credentials of one name.
pub open spec fn names_distinct(v: Seq<LlmCredentialConfig>) -> bool {
    forall|i: int, j: int| 0 <= i < j < v.len() ==> v[i].name@ != v[j].name@
}

proof fn lemma_index_map_contains(v: Seq<LlmCredentialConfig>, k: Seq<char>)
    ensures
        index_map(v).contains_key(k) <==> exists|i: int| 0 <= i < v.len() && v[i].name@ == k,
    decreases v.len(),
{
    if v.len() > 0 {
        lemma_index_map_contains(v.drop_last(), k);
        if index_map(v).contains_key(k) && v.last().name@ != k {
            let i = choose|i: int| 0 <= i < v.drop_last().len() && v.drop_last()[i].name@ == k;
            assert(v[i] == v.drop_last()[i]);
        }
        if exists|i: int| 0 <= i < v.len() && v[i].name@ == k {
            let i = choose|i: int| 0 <= i < v.len() && v[i].name@ == k;
            if i < v.len() - 1 {
                assert(v.drop_last()[i] == v[i]);
            }
        }
    }
}

/// Indexes the usable credentials by name (see [`credential_index`]).
pub fn build_credential_index(creds: &Vec<LlmCredentialConfig>) -> (r: Vec<LlmCredentialConfig>)
    ensures
        index_map(r@) == credential_index(credential_views(creds@)),
        names_distinct(r@),
{
    let mut out: Vec<LlmCredentialConfig> = Vec::new();
    let mut i: usize = 0;
    while i < creds.len()
        invariant
            0 <= i <= creds@.len(),
            index_map(out@) == credential_index(credential_views(creds@).take(i as int)),
            names_distinct(out@),
        decreases creds@.len() - i,
    {
        let c = &creds[i];
        proof {
            assert(credential_views(creds@).take(i + 1).drop_last() =~= credential_views(creds@).take(i as int));
            assert(credential_views(creds@).take(i + 1).last() == c@);
        }
        let usable = trim_text(c.name.as_str()).unicode_len() > 0 && str_eq(c.kind.as_str(), "env")
            && trim_text(c.api_key_env.as_str()).unicode_len() > 0;
        if usable {
            let mut seen = false;
            let mut j: usize = 0;
            while j < out.len()
                invariant
                    0 <= j <= out@.len(),
                    seen == exists|k: int| 0 <= k < j && out@[k].name@ == c.name@,
                decreases out@.len() - j,
            {
                if str_eq(out[j].name.as_str(), c.name.as_str()) {
                    seen = true;
                }
                j = j + 1;
            }
            proof {
                lemma_index_map_contains(out@, c.name@);
            }
            if !seen {
                let ghost o0 = out@;
                out.push(c.duplicate());
                proof {
                    assert(out@.drop_last() =~= o0);
                    assert forall|a: int, b: int| 0 <= a < b < out@.len() implies out@[a].name@ != out@[b].name@ by {
                        if b == out@.len() - 1 {
                            assert(out@[a] == o0[a]);
                        } else {
                            assert(out@[a] == o0[a] && out@[b] == o0[b]);
                        }
                    }
                }
            }
        }
        i = i + 1;
    }
    assert(credential_views(creds@).take(creds@.len() as int) =~= credential_views(creds@));
    out
}

/// The environment variable that holds the key of a backend whose
/// credential reference is `credential_ref`, or why there is none.
pub open spec fn api_key_env_of(credential_ref: Option<Seq<char>>, index: Map<Seq<char>, CredentialView>) -> Result<Seq<char>, Seq<char>> {
    match credential_ref {
        None => Err("missing credential_ref"@),
        Some(r) => if trimmed(r).len() == 0 {
            Err("credential_ref is empty"@)
        } else if !index.contains_key(r) {
            Err("credential_ref not found: "@ + r)
        } else {
            Ok(index[r].api_key_env)
        },
    }
}

/// The environment variable holding the key of a backend (see
/// [`api_key_env_of`]); `index` is a credential index.
pub fn resolve_backend_api_key_env(credential_ref: Option<&str>, index: &Vec<LlmCredentialConfig>) -> (r: Result<String, String>)
    requires
        names_distinct(index@),
    ensures
        match api_key_env_of(
            match credential_ref {
                Some(s) => Some(s@),
                None => None,
            },
            index_map(index@),
        ) {
            Ok(v) => r matches Ok(x) && x@ == v,
            Err(m) => r matches Err(x) && x@ == m,
        },
{
    let r = match credential_ref {
        None => { return Err(String::from_str("missing credential_ref")); },
        Some(r) => r,
    };
    if trim_text(r).unicode_len() == 0 {
        return Err(String::from_str("credential_ref is empty"));
    }
    let mut j: usize = 0;
    proof {
        lemma_index_map_contains(index@, r@);
    }
    while j < index.len()
        invariant
            0 <= j <= index@.len(),
            names_distinct(index@),
            trimmed(r@).len() > 0,
            credential_ref == Some(r),
            forall|k: int| 0 <= k < j ==> index@[k].name@ != r@,
        decreases index@.len() - j,
    {
        if str_eq(index[j].name.as_str(), r) {
            proof {
                lemma_index_map_value(index@, j as int);
            }
            return Ok(index[j].api_key_env.clone());
        }
        j = j + 1;
    }
    Err(String::from_str("credential_ref not found: ").concat(r))
}

proof fn lemma_index_map_value(v: Seq<LlmCredentialConfig>, i: int)
    requires
        names_distinct(v),
        0 <= i < v.len(),
    ensures
        index_map(v).contains_key(v[i].name@),
        index_map(v)[v[i].name@] == v[i]@,
    decreases v.len(),
{
    if i < v.len() - 1 {
        assert(v.drop_last()[i] == v[i]);
        assert(names_distinct(v.drop_last())) by {
            assert forall|a: int, b: int| 0 <= a < b < v.drop_last().len() implies v.drop_last()[a].name@ != v.drop_last()[b].name@ by {
                assert(v.drop_last()[a] == v[a] && v.drop_last()[b] == v[b]);
            }
        }
        lemma_index_map_value(v.drop_last(), i);
        assert(v.last().name@ != v[i].name@);
    }
}

/// A model backend of the settings.
#[derive(Debug)]
pub struct LlmBackendConfig {
    pub name: String,
    pub kind: String,
    pub base_url: String,
    pub credential_ref: Option<String>,
    pub hosting: Option<String>,
    pub model: Option<String>,
    pub weight: u32,
    pub priority: i32,
    pub ops: Vec<String>,
    pub features: Vec<String>,
    pub transports: Vec<String>,
}

/// How a backend's adapter is to be built.
#[derive(Debug)]
pub enum BackendAdapterPlan {
    /// An OpenAI-style chat completion client, with its key where a
    /// credential was named.
    OpenAIChatCompletion { api_key: Option<String> },
    /// An OpenAI-style realtime websocket client, with the variable that
    /// holds its key where a credential was named.
    OpenAIRealtimeWs { api_key_env: Option<String> },
    /// An Ollama chat client.
    OllamaChat,
    /// The local stand-in.
    Stub,
}

/// The content of a [`BackendAdapterPlan`].
pub enum AdapterPlanView {
    OpenAIChatCompletion { api_key: Option<Seq<char>> },
    OpenAIRealtimeWs { api_key_env: Option<Seq<char>> },
    OllamaChat,
    Stub,
}

/// A backend that registers: its settings, the operations it serves and
/// its adapter.
#[derive(Debug)]
pub struct BackendPlan {
    pub name: String,
    pub kind: String,
    pub base_url: String,
    pub hosting: Hosting,
    pub model: Option<String>,
    pub weight: u32,
    pub priority: i32,
    pub ops: Vec<Operation>,
    pub features: Vec<String>,
    pub transports: Vec<String>,
    pub adapter: BackendAdapterPlan,
}

/// The content of a [`BackendPlan`].
pub struct BackendPlanView {
    pub name: Seq<char>,
    pub kind: Seq<char>,
    pub base_url: Seq<char>,
    pub hosting: Hosting,
    pub model: Option<Seq<char>>,
    pub weight: u32,
    pub priority: i32,
    pub ops: Seq<Operation>,
    pub features: Seq<Seq<char>>,
    pub transports: Seq<Seq<char>>,
    pub adapter: AdapterPlanView,
}

/// The texts of strings.
pub open spec fn texts_of(v: Seq<String>) -> Seq<Seq<char>> {
    v.map_values(|x: String| x@)
}

impl BackendAdapterPlan {
    pub open spec fn view(&self) -> AdapterPlanView {
        match self {
            BackendAdapterPlan::OpenAIChatCompletion { api_key } => AdapterPlanView::OpenAIChatCompletion {
                api_key: opt_text(*api_key),
            },
            BackendAdapterPlan::OpenAIRealtimeWs { api_key_env } => AdapterPlanView::OpenAIRealtimeWs {
                api_key_env: opt_text(*api_key_env),
            },
            BackendAdapterPlan::OllamaChat => AdapterPlanView::OllamaChat,
            BackendAdapterPlan::Stub => AdapterPlanView::Stub,
        }
    }
}

impl BackendPlan {
    pub open spec fn view(&self) -> BackendPlanView {
        BackendPlanView {
            name: self.name@,
            kind: self.kind@,
            base_url: self.base_url@,
            hosting: self.hosting,
            model: opt_text(self.model),
            weight: self.weight,
            priority: self.priority,
            ops: self.ops@,
            features: texts_of(self.features@),
            transports: texts_of(self.transports@),
            adapter: self.adapter@,
        }
    }
}

/// The operations named in `names` that are known, in order.
pub open spec fn ops_of(names: Seq<String>) -> Seq<Operation>
    decreases names.len(),
{
    if names.len() == 0 {
        Seq::empty()
    } else {
        let prev = ops_of(names.drop_last());
        match operation_of(names.last()@) {
            Some(o) => prev.push(o),
            None => prev,
        }
    }
}

/// The value of the first entry named `k`.
pub open spec fn env_value(env: Seq<(String, String)>, k: Seq<char>) -> Option<Seq<char>>
    decreases env.len(),
{
    if env.len() == 0 {
        None
    } else if env[0].0@ == k {
        Some(env[0].1@)
    } else {
        env_value(env.drop_first(), k)
    }
}

/// The key setting of a backend with credential reference `cref`: `None`
/// when the backend is passed over (the reference cannot be resolved, or
/// its variable is missing or blank in `env`); `Some(None)` without a
/// reference (or a blank one); else the variable and its value.
pub open spec fn credential_setting(
    cref: Option<Seq<char>>,
    index: Map<Seq<char>, CredentialView>,
    env: Seq<(String, String)>,
) -> Option<Option<(Seq<char>, Seq<char>)>> {
    match cref {
        Some(r) => if trimmed(r).len() == 0 {
            Some(None)
        } else {
            match api_key_env_of(cref, index) {
                Err(_) => None,
                Ok(name) => match env_value(env, name) {
                    Some(v) => if trimmed(v).len() > 0 {
                        Some(Some((name, v)))
                    } else {
                        None
                    },
                    None => None,
                },
            }
        },
        None => Some(None),
    }
}

/// The adapter of backend `b`, or `None` when it is passed over: an
/// unknown kind, or a credential that cannot be used.
pub open spec fn adapter_of(
    b: LlmBackendConfig,
    index: Map<Seq<char>, CredentialView>,
    env: Seq<(String, String)>,
) -> Option<AdapterPlanView> {
    let cref = opt_text(b.credential_ref);
    if b.kind@ == "openai_chat_completion"@ {
        match credential_setting(cref, index, env) {
            None => None,
            Some(None) => Some(AdapterPlanView::OpenAIChatCompletion { api_key: None }),
            Some(Some((_, v))) => Some(AdapterPlanView::OpenAIChatCompletion { api_key: Some(v) }),
        }
    } else if b.kind@ == "openai_realtime_ws"@ {
        match credential_setting(cref, index, env) {
            None => None,
            Some(None) => Some(AdapterPlanView::OpenAIRealtimeWs { api_key_env: None }),
            Some(Some((n, _))) => Some(AdapterPlanView::OpenAIRealtimeWs { api_key_env: Some(n) }),
        }
    } else if b.kind@ == "ollama_chat"@ {
        Some(AdapterPlanView::OllamaChat)
    } else if b.kind@ == "stub"@ {
        Some(AdapterPlanView::Stub)
    } else {
        None
    }
}

/// What backend `b` registers as, or `None` when it serves no known
/// operation or has no adapter.
pub open spec fn backend_plan_of(
    b: LlmBackendConfig,
    index: Map<Seq<char>, CredentialView>,
    env: Seq<(String, String)>,
) -> Option<BackendPlanView> {
    let ops = ops_of(b.ops@);
    if ops.len() == 0 {
        None
    } else {
        match adapter_of(b, index, env) {
            None => None,
            Some(a) => Some(
                BackendPlanView {
                    name: b.name@,
                    kind: b.kind@,
                    base_url: b.base_url@,
                    hosting: match b.hosting {
                        Some(h) => if trimmed(h@).len() == 0 {
                            Hosting::Unknown
                        } else {
                            hosting_of(trimmed(h@))
                        },
                        None => Hosting::Unknown,
                    },
                    model: opt_text(b.model),
                    weight: b.weight,
                    priority: b.priority,
                    ops,
                    features: texts_of(b.features@),
                    transports: texts_of(b.transports@),
                    adapter: a,
                },
            ),
        }
    }
}

/// The backends that register, in order: each that has a plan (see
/// [`backend_plan_of`]), the first of a name winning.
pub open spec fn registry_plan(
    bs: Seq<LlmBackendConfig>,
    index: Map<Seq<char>, CredentialView>,
    env: Seq<(String, String)>,
) -> Seq<BackendPlanView>
    decreases bs.len(),
{
    if bs.len() == 0 {
        Seq::empty()
    } else {
        let prev = registry_plan(bs.drop_last(), index, env);
        match backend_plan_of(bs.last(), index, env) {
            Some(p) => if exists|j: int| 0 <= j < prev.len() && (#[trigger] prev[j]).name == p.name {
                prev
            } else {
                prev.push(p)
            },
            None => prev,
        }
    }
}

/// The contents of plans.
pub open spec fn plan_views(v: Seq<BackendPlan>) -> Seq<BackendPlanView> {
    v.map_values(|p: BackendPlan| p@)
}

pub(crate) fn copy_strings(v: &Vec<String>) -> (r: Vec<String>)
    ensures
        texts_of(r@) == texts_of(v@),
{
    let mut out: Vec<String> = Vec::new();
    let mut i: usize = 0;
    while i < v.len()
        invariant
            i <= v@.len(),
            out@.len() == i,
            forall|j: int| 0 <= j < i ==> #[trigger] out@[j]@ == v@[j]@,
        decreases v.len() - i,
    {
        out.push(v[i].clone());
        i = i + 1;
    }
    assert(texts_of(out@) =~= texts_of(v@));
    out
}

fn parse_operations(names: &Vec<String>) -> (r: Vec<Operation>)
    ensures
        r@ == ops_of(names@),
{
    let mut out: Vec<Operation> = Vec::new();
    let mut i: usize = 0;
    while i < names.len()
        invariant
            i <= names@.len(),
            out@ == ops_of(names@.take(i as int)),
        decreases names.len() - i,
    {
        assert(names@.take(i + 1).drop_last() =~= names@.take(i as int));
        assert(names@.take(i + 1).last() == names@[i as int]);
        match parse_operation(names[i].as_str()) {
            Some(o) => out.push(o),
            None => {},
        }
        i = i + 1;
    }
    assert(names@.take(names@.len() as int) =~= names@);
    out
}

fn env_get<'a>(env: &'a Vec<(String, String)>, k: &str) -> (r: Option<&'a String>)
    ensures
        match env_value(env@, k@) {
            Some(v) => r matches Some(x) && x@ == v,
            None => r is None,
        },
{
    let mut i: usize = 0;
    assert(env@.subrange(0, env@.len() as int) =~= env@);
    while i < env.len()
        invariant
            i <= env@.len(),
            env_value(env@, k@) == env_value(env@.subrange(i as int, env@.len() as int), k@),
        decreases env.len() - i,
    {
        let ghost rest = env@.subrange(i as int, env@.len() as int);
        assert(rest.drop_first() =~= env@.subrange(i + 1, env@.len() as int));
        if str_eq(env[i].0.as_str(), k) {
            return Some(&env[i].1);
        }
        i = i + 1;
    }
    None
}

/// The key setting of a backend (see [`credential_setting`]).
fn resolve_credential(
    cref: &Option<String>,
    index: &Vec<LlmCredentialConfig>,
    env: &Vec<(String, String)>,
) -> (r: Option<Option<(String, String)>>)
    requires
        names_distinct(index@),
    ensures
        match credential_setting(opt_text(*cref), index_map(index@), env@) {
            None => r is None,
            Some(None) => r matches Some(None),
            Some(Some((n, v))) => r matches Some(Some((a, b))) && a@ == n && b@ == v,
        },
{
    let r = match cref {
        None => { return Some(None); },
        Some(r) => r,
    };
    if trim_text(r.as_str()).unicode_len() == 0 {
        return Some(None);
    }
    let name = match resolve_backend_api_key_env(Some(r.as_str()), index) {
        Err(_) => { return None; },
        Ok(n) => n,
    };
    match env_get(env, name.as_str()) {
        Some(v) => if trim_text(v.as_str()).unicode_len() > 0 {
            Some(Some((name, v.clone())))
        } else {
            None
        },
        None => None,
    }
}

/// What backend `b` registers as (see [`backend_plan_of`]).
fn plan_backend(b: &LlmBackendConfig, index: &Vec<LlmCredentialConfig>, env: &Vec<(String, String)>) -> (r: Option<
    BackendPlan,
>)
    requires
        names_distinct(index@),
    ensures
        match backend_plan_of(*b, index_map(index@), env@) {
            None => r is None,
            Some(p) => r matches Some(x) && x@ == p,
        },
{
    let ops = parse_operations(&b.ops);
    if ops.len() == 0 {
        return None;
    }
    let kind = b.kind.as_str();
    let adapter = if str_eq(kind, "openai_chat_completion") {
        match resolve_credential(&b.credential_ref, index, env) {
            None => { return None; },
            Some(None) => BackendAdapterPlan::OpenAIChatCompletion { api_key: None },
            Some(Some((_, v))) => BackendAdapterPlan::OpenAIChatCompletion { api_key: Some(v) },
        }
    } else if str_eq(kind, "openai_realtime_ws") {
        match resolve_credential(&b.credential_ref, index, env) {
            None => { return None; },
            Some(None) => BackendAdapterPlan::OpenAIRealtimeWs { api_key_env: None },
            Some(Some((n, _))) => BackendAdapterPlan::OpenAIRealtimeWs { api_key_env: Some(n) },
        }
    } else if str_eq(kind, "ollama_chat") {
        BackendAdapterPlan::OllamaChat
    } else if str_eq(kind, "stub") {
        BackendAdapterPlan::Stub
    } else {
        return None;
    };
    let hosting = match &b.hosting {
        Some(h) => resolve_hosting(Some(h.as_str())),
        None => resolve_hosting(None),
    };
    Some(
        BackendPlan {
            name: b.name.clone(),
            kind: b.kind.clone(),
            base_url: b.base_url.clone(),
            hosting,
            model: clone_opt_string(&b.model),
            weight: b.weight,
            priority: b.priority,
            ops,
            features: copy_strings(&b.features),
            transports: copy_strings(&b.transports),
            adapter,
        },
    )
}

/// The backends that register from the settings (see [`registry_plan`]):
/// `credentials` are indexed first (see [`build_credential_index`]), and
/// keys are looked up in `global_environment`.
pub fn build_registry_plan(
    backends: &Vec<LlmBackendConfig>,
    credentials: &Vec<LlmCredentialConfig>,
    global_environment: &Vec<(String, String)>,
) -> (r: Vec<BackendPlan>)
    ensures
        plan_views(r@) == registry_plan(
            backends@,
            credential_index(credential_views(credentials@)),
            global_environment@,
        ),
{
    let index = build_credential_index(credentials);
    let ghost idx = index_map(index@);
    let mut out: Vec<BackendPlan> = Vec::new();
    let mut i: usize = 0;
    while i < backends.len()
        invariant
            i <= backends@.len(),
            names_distinct(index@),
            idx == index_map(index@),
            plan_views(out@) == registry_plan(backends@.take(i as int), idx, global_environment@),
        decreases backends.len() - i,
    {
        assert(backends@.take(i + 1).drop_last() =~= backends@.take(i as int));
        assert(backends@.take(i + 1).last() == backends@[i as int]);
        let ghost prev = plan_views(out@);
        match plan_backend(&backends[i], &index, global_environment) {
            None => {},
            Some(p) => {
                let mut seen = false;
                let mut k: usize = 0;
                while k < out.len()
                    invariant
                        k <= out@.len(),
                        prev == plan_views(out@),
                        seen == exists|j: int| 0 <= j < k && (#[trigger] prev[j]).name == p@.name,
                    decreases out.len() - k,
                {
                    if str_eq(out[k].name.as_str(), p.name.as_str()) {
                        seen = true;
                    }
                    assert(prev[k as int] == out@[k as int]@);
                    k = k + 1;
                }
                if !seen {
                    let ghost pv = p@;
                    out.push(p);
                    assert(plan_views(out@) =~= prev.push(pv));
                }
            },
        }
        i = i + 1;
    }
    assert(backends@.take(backends@.len() as int) =~= backends@);
    out
}

} // verus!
